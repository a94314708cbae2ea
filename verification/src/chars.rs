//! Character-sequence primitives shared by the card-text and config logic.
//!
//! Strings are modelled by their `Seq<char>` view. Each spec function here
//! states what the corresponding `str` operation of std computes, and each
//! exec function is proved against it.
use vstd::prelude::*;

verus! {

// ---------------------------------------------------------------------------
// Specifications
// ---------------------------------------------------------------------------

/// The Unicode `White_Space` property, as `char::is_whitespace` documents it.
pub open spec fn is_whitespace(c: char) -> bool {
    ||| c == '\t'
    ||| c == '\n'
    ||| c == '\u{0B}'
    ||| c == '\u{0C}'
    ||| c == '\r'
    ||| c == ' '
    ||| c == '\u{85}'
    ||| c == '\u{A0}'
    ||| c == '\u{1680}'
    ||| ('\u{2000}' <= c && c <= '\u{200A}')
    ||| c == '\u{2028}'
    ||| c == '\u{2029}'
    ||| c == '\u{202F}'
    ||| c == '\u{205F}'
    ||| c == '\u{3000}'
}

/// `s` with its leading whitespace removed (`str::trim_start`).
pub open spec fn trim_start(s: Seq<char>) -> Seq<char>
    decreases s.len(),
{
    if s.len() > 0 && is_whitespace(s[0]) {
        trim_start(s.drop_first())
    } else {
        s
    }
}

/// `s` with its trailing whitespace removed (`str::trim_end`).
pub open spec fn trim_end(s: Seq<char>) -> Seq<char>
    decreases s.len(),
{
    if s.len() > 0 && is_whitespace(s.last()) {
        trim_end(s.drop_last())
    } else {
        s
    }
}

/// `s` with whitespace removed at both ends (`str::trim`).
pub open spec fn trim(s: Seq<char>) -> Seq<char> {
    trim_end(trim_start(s))
}

/// The index of the first `c` in `s`, or `s.len()` when there is none.
pub open spec fn index_of_char(s: Seq<char>, c: char) -> int
    decreases s.len(),
{
    if s.len() == 0 {
        0
    } else if s[0] == c {
        0
    } else {
        1 + index_of_char(s.drop_first(), c)
    }
}

/// The index of the first whitespace character of `s`, or `s.len()`.
pub open spec fn index_of_whitespace(s: Seq<char>) -> int
    decreases s.len(),
{
    if s.len() == 0 {
        0
    } else if is_whitespace(s[0]) {
        0
    } else {
        1 + index_of_whitespace(s.drop_first())
    }
}

/// A line as `str::lines` yields it: a trailing `'\r'` goes with the `'\n'`.
pub open spec fn strip_cr(line: Seq<char>) -> Seq<char> {
    if line.len() > 0 && line.last() == '\r' {
        line.drop_last()
    } else {
        line
    }
}

/// The lines of `s` (`str::lines`): split at `'\n'` or `"\r\n"`; a final
/// line ending adds no empty line, and the empty text has no line.
pub open spec fn lines(s: Seq<char>) -> Seq<Seq<char>>
    decreases s.len(),
{
    if s.len() == 0 {
        seq![]
    } else {
        let i = index_of_char(s, '\n');
        if 0 <= i < s.len() {
            seq![strip_cr(s.take(i))] + lines(s.skip(i + 1))
        } else {
            seq![s]
        }
    }
}

/// The lines `ls` joined with `'\n'` between them (`[&str]::join("\n")`).
pub open spec fn join_lines(ls: Seq<Seq<char>>) -> Seq<char>
    decreases ls.len(),
{
    if ls.len() == 0 {
        seq![]
    } else if ls.len() == 1 {
        ls[0]
    } else {
        join_lines(ls.drop_last()) + seq!['\n'] + ls.last()
    }
}

/// The whitespace-separated words of `s` (`str::split_whitespace`).
pub open spec fn words(s: Seq<char>) -> Seq<Seq<char>>
    decreases s.len(),
{
    let t = trim_start(s);
    if t.len() == 0 {
        seq![]
    } else {
        let j = index_of_whitespace(t);
        if 0 < j <= t.len() && t.len() <= s.len() {
            seq![t.take(j)] + words(t.skip(j))
        } else {
            seq![t]
        }
    }
}

/// `p` occurs in `s` at index `i`.
pub open spec fn occurs_at(s: Seq<char>, p: Seq<char>, i: int) -> bool {
    0 <= i && i + p.len() <= s.len() && s.subrange(i, i + p.len()) == p
}

/// `s` begins with `p` (`str::starts_with`).
pub open spec fn starts_with(s: Seq<char>, p: Seq<char>) -> bool {
    occurs_at(s, p, 0)
}

/// `s` ends with `p` (`str::ends_with`).
pub open spec fn ends_with(s: Seq<char>, p: Seq<char>) -> bool {
    p.len() <= s.len() && occurs_at(s, p, s.len() - p.len())
}

/// The first index at or after `from` where `p` occurs in `s`.
pub open spec fn find_from(s: Seq<char>, p: Seq<char>, from: int) -> Option<int>
    decreases s.len() - from,
{
    if from < 0 || from + p.len() > s.len() {
        None
    } else if occurs_at(s, p, from) {
        Some(from)
    } else if from >= s.len() {
        None
    } else {
        find_from(s, p, from + 1)
    }
}

/// The first index where `p` occurs in `s` (`str::find`).
pub open spec fn find(s: Seq<char>, p: Seq<char>) -> Option<int> {
    find_from(s, p, 0)
}

/// `p` occurs somewhere in `s` (`str::contains`).
pub open spec fn contains(s: Seq<char>, p: Seq<char>) -> bool {
    find(s, p) is Some
}

/// The part of `s` before the first `p`, or all of `s` when `p` does not
/// occur (`str::split_once(p).map_or(s, |(before, _)| before)`).
pub open spec fn before_first(s: Seq<char>, p: Seq<char>) -> Seq<char> {
    match find(s, p) {
        Some(i) => s.take(i),
        None => s,
    }
}

/// The part of `s` after the first `p` (`str::split_once(p)` second half).
pub open spec fn after_first(s: Seq<char>, p: Seq<char>) -> Option<Seq<char>> {
    match find(s, p) {
        Some(i) => Some(s.skip(i + p.len())),
        None => None,
    }
}

/// The value of a digit in the given radix, when `c` is one.
pub open spec fn digit_value(c: char, radix: int) -> Option<int> {
    let d = if '0' <= c && c <= '9' {
        c as int - '0' as int
    } else if 'a' <= c && c <= 'z' {
        c as int - 'a' as int + 10
    } else if 'A' <= c && c <= 'Z' {
        c as int - 'A' as int + 10
    } else {
        radix
    };
    if d < radix {
        Some(d)
    } else {
        None
    }
}

/// All characters of `d` are digits in the radix.
pub open spec fn all_digits(d: Seq<char>, radix: int) -> bool {
    forall|i: int| 0 <= i < d.len() ==> (#[trigger] digit_value(d[i], radix)) is Some
}

/// The number that the digits `d` spell in the radix.
pub open spec fn digits_value(d: Seq<char>, radix: int) -> int
    decreases d.len(),
{
    if d.len() == 0 {
        0
    } else {
        digits_value(d.drop_last(), radix) * radix + digit_value(d.last(), radix).unwrap_or(0)
    }
}

/// The signed value that `s` spells in the radix before any range check:
/// an optional `+` or `-` and then one or more digits.
pub open spec fn signed_digits_value(s: Seq<char>, radix: int) -> Option<int> {
    let (negative, d) = if s.len() > 0 && s[0] == '-' {
        (true, s.drop_first())
    } else if s.len() > 0 && s[0] == '+' {
        (false, s.drop_first())
    } else {
        (false, s)
    };
    if d.len() > 0 && all_digits(d, radix) {
        Some(if negative { -digits_value(d, radix) } else { digits_value(d, radix) })
    } else {
        None
    }
}

/// What `i64::from_str_radix(s, radix)` returns, `Ok` as `Some`.
pub open spec fn parse_i64_radix(s: Seq<char>, radix: int) -> Option<i64> {
    match signed_digits_value(s, radix) {
        Some(v) => if i64::MIN <= v <= i64::MAX {
            Some(v as i64)
        } else {
            None
        },
        None => None,
    }
}

/// What `s.parse::<u64>()` returns, `Ok` as `Some`: an optional `+` and
/// then one or more decimal digits whose value fits in `u64`.
pub open spec fn parse_u64(s: Seq<char>) -> Option<u64> {
    let d = if s.len() > 0 && s[0] == '+' {
        s.drop_first()
    } else {
        s
    };
    if d.len() > 0 && all_digits(d, 10) && digits_value(d, 10) <= u64::MAX {
        Some(digits_value(d, 10) as u64)
    } else {
        None
    }
}

/// What `s.parse::<i64>()` returns, `Ok` as `Some`.
pub open spec fn parse_i64(s: Seq<char>) -> Option<i64> {
    parse_i64_radix(s, 10)
}

/// The views of a sequence of character vectors.
pub open spec fn view_all(v: Seq<Vec<char>>) -> Seq<Seq<char>> {
    Seq::new(v.len(), |i: int| v[i]@)
}

/// `s` without the run of `c` at its end (`str::trim_end_matches` with a
/// character).
pub open spec fn trim_end_char(s: Seq<char>, c: char) -> Seq<char>
    decreases s.len(),
{
    if s.len() > 0 && s.last() == c {
        trim_end_char(s.drop_last(), c)
    } else {
        s
    }
}

// ---------------------------------------------------------------------------
// Lemmas
// ---------------------------------------------------------------------------

/// Appending a vector appends its view.
pub proof fn lemma_view_all_push(v: Seq<Vec<char>>, x: Vec<char>)
    ensures
        view_all(v.push(x)) == view_all(v).push(x@),
        view_all(v).len() == v.len(),
{
    assert(view_all(v.push(x)) =~= view_all(v).push(x@));
}

pub proof fn lemma_index_of_char_bounds(s: Seq<char>, c: char)
    ensures
        0 <= index_of_char(s, c) <= s.len(),
        index_of_char(s, c) < s.len() ==> s[index_of_char(s, c)] == c,
        forall|k: int| 0 <= k < index_of_char(s, c) ==> s[k] != c,
    decreases s.len(),
{
    if s.len() > 0 && s[0] != c {
        lemma_index_of_char_bounds(s.drop_first(), c);
        assert forall|k: int| 0 <= k < index_of_char(s, c) implies s[k] != c by {
            if k > 0 {
                assert(s[k] == s.drop_first()[k - 1]);
            }
        }
    }
}

/// The first `c` of `s` is at `j` when `s[..j]` holds no `c` and `s[j]` is
/// `c` or the end.
pub proof fn lemma_index_of_char_is(s: Seq<char>, c: char, j: int)
    requires
        0 <= j <= s.len(),
        forall|k: int| 0 <= k < j ==> s[k] != c,
        j < s.len() ==> s[j] == c,
    ensures
        index_of_char(s, c) == j,
    decreases s.len(),
{
    if s.len() > 0 && j > 0 {
        assert forall|k: int| 0 <= k < j - 1 implies s.drop_first()[k] != c by {
            assert(s.drop_first()[k] == s[k + 1]);
        }
        lemma_index_of_char_is(s.drop_first(), c, j - 1);
    }
}

pub proof fn lemma_index_of_whitespace_bounds(s: Seq<char>)
    ensures
        0 <= index_of_whitespace(s) <= s.len(),
        index_of_whitespace(s) < s.len() ==> is_whitespace(s[index_of_whitespace(s)]),
        forall|k: int| 0 <= k < index_of_whitespace(s) ==> !is_whitespace(s[k]),
    decreases s.len(),
{
    if s.len() > 0 && !is_whitespace(s[0]) {
        lemma_index_of_whitespace_bounds(s.drop_first());
        assert forall|k: int| 0 <= k < index_of_whitespace(s) implies !is_whitespace(s[k]) by {
            if k > 0 {
                assert(s[k] == s.drop_first()[k - 1]);
            }
        }
    }
}

pub proof fn lemma_index_of_whitespace_is(s: Seq<char>, j: int)
    requires
        0 <= j <= s.len(),
        forall|k: int| 0 <= k < j ==> !is_whitespace(s[k]),
        j < s.len() ==> is_whitespace(s[j]),
    ensures
        index_of_whitespace(s) == j,
    decreases s.len(),
{
    if s.len() > 0 && j > 0 {
        assert forall|k: int| 0 <= k < j - 1 implies !is_whitespace(s.drop_first()[k]) by {
            assert(s.drop_first()[k] == s[k + 1]);
        }
        lemma_index_of_whitespace_is(s.drop_first(), j - 1);
    }
}

/// `trim_start` drops exactly the leading whitespace.
pub proof fn lemma_trim_start_is(s: Seq<char>, j: int)
    requires
        0 <= j <= s.len(),
        forall|k: int| 0 <= k < j ==> is_whitespace(s[k]),
        j < s.len() ==> !is_whitespace(s[j]),
    ensures
        trim_start(s) == s.skip(j),
    decreases s.len(),
{
    if j == 0 {
        assert(s.skip(0) =~= s);
    } else {
        assert forall|k: int| 0 <= k < j - 1 implies is_whitespace(s.drop_first()[k]) by {
            assert(s.drop_first()[k] == s[k + 1]);
        }
        lemma_trim_start_is(s.drop_first(), j - 1);
        assert(s.drop_first().skip(j - 1) =~= s.skip(j));
    }
}

/// `trim_end` drops exactly the trailing whitespace.
pub proof fn lemma_trim_end_is(s: Seq<char>, j: int)
    requires
        0 <= j <= s.len(),
        forall|k: int| j <= k < s.len() ==> is_whitespace(s[k]),
        j > 0 ==> !is_whitespace(s[j - 1]),
    ensures
        trim_end(s) == s.take(j),
    decreases s.len(),
{
    if j == s.len() {
        assert(s.take(j) =~= s);
    } else {
        assert forall|k: int| j <= k < s.drop_last().len() implies is_whitespace(
            s.drop_last()[k],
        ) by {
            assert(s.drop_last()[k] == s[k]);
        }
        lemma_trim_end_is(s.drop_last(), j);
        assert(s.drop_last().take(j) =~= s.take(j));
    }
}

pub proof fn lemma_trim_start_suffix(s: Seq<char>)
    ensures
        exists|j: int| 0 <= j <= s.len() && trim_start(s) == s.skip(j),
        trim_start(s).len() <= s.len(),
    decreases s.len(),
{
    if s.len() > 0 && is_whitespace(s[0]) {
        lemma_trim_start_suffix(s.drop_first());
        let j = choose|j: int| 0 <= j <= s.drop_first().len() && trim_start(s.drop_first()) == s.drop_first().skip(j);
        assert(s.drop_first().skip(j) =~= s.skip(j + 1));
    } else {
        assert(s.skip(0) =~= s);
    }
}

/// What `find_from` finds is an occurrence, and the first one from `from`.
pub proof fn lemma_find_from(s: Seq<char>, p: Seq<char>, from: int)
    ensures
        find_from(s, p, from) matches Some(i) ==> from <= i && occurs_at(s, p, i) && forall|k: int|
            from <= k < i ==> !occurs_at(s, p, k),
        find_from(s, p, from) is None && 0 <= from ==> forall|k: int| from <= k ==> !occurs_at(s, p, k),
    decreases s.len() - from,
{
    if from < 0 || from + p.len() > s.len() {
    } else if occurs_at(s, p, from) {
    } else if from >= s.len() {
    } else {
        lemma_find_from(s, p, from + 1);
    }
}

/// Digits appended on the right multiply the value so far by the radix.
pub proof fn lemma_digits_value_push(d: Seq<char>, c: char, radix: int)
    ensures
        digits_value(d.push(c), radix) == digits_value(d, radix) * radix + digit_value(c, radix).unwrap_or(0),
{
    assert(d.push(c).drop_last() =~= d);
}

pub proof fn lemma_digits_value_nonneg(d: Seq<char>, radix: int)
    requires
        radix >= 2,
        all_digits(d, radix),
    ensures
        digits_value(d, radix) >= 0,
    decreases d.len(),
{
    if d.len() > 0 {
        assert(all_digits(d.drop_last(), radix)) by {
            assert forall|i: int| 0 <= i < d.drop_last().len() implies (#[trigger] digit_value(d.drop_last()[i], radix)) is Some by {
                assert(d.drop_last()[i] == d[i]);
                assert(digit_value(d[i], radix) is Some);
            }
        }
        lemma_digits_value_nonneg(d.drop_last(), radix);
        let v = digits_value(d.drop_last(), radix);
        assert(v * radix >= 0) by (nonlinear_arith)
            requires v >= 0, radix >= 2;
        assert(digit_value(d[d.len() - 1], radix) is Some);
    }
}

// ---------------------------------------------------------------------------
// Executable operations
// ---------------------------------------------------------------------------

/// Collects the characters of a string slice, in order.
pub fn chars_of(s: &str) -> (res: Vec<char>)
    ensures
        res@ == s@,
{
    let mut out: Vec<char> = Vec::new();
    for c in it: s.chars()
        invariant
            out@ == it.seq().take(it.index() as int),
    {
        out.push(c);
    }
    out
}

/// `Iterator::collect` into a `String` (`FromIterator<&char> for String`):
/// the string holds exactly the given characters, in order.
#[verifier::external_body]
pub(crate) fn string_from_chars(chars: &[char]) -> (res: String)
    ensures
        res@ == chars@,
{
    chars.iter().collect()
}

/// The text that `<str as Debug>::fmt` gives for `text`: the text quoted,
/// with its quotes, backslashes and unprintable characters escaped.
pub uninterp spec fn debug_str(text: Seq<char>) -> Seq<char>;

/// `<str as Debug>::fmt`, through `format!("{:?}", ..)`. Claims only that
/// the text is the `Debug` form of `text`; how it quotes and escapes is left
/// unsaid.
#[verifier::external_body]
pub(crate) fn debug_text(text: &str) -> (res: String)
    ensures
        res@ == debug_str(text@),
{
    format!("{:?}", text)
}

/// The number of bytes that `c` takes in UTF-8 (`char::len_utf8`).
pub open spec fn char_utf8_len(c: char) -> nat {
    if (c as u32) < 0x80 {
        1
    } else if (c as u32) < 0x800 {
        2
    } else if (c as u32) < 0x10000 {
        3
    } else {
        4
    }
}

/// The number of bytes that `s` takes in UTF-8.
pub open spec fn utf8_len(s: Seq<char>) -> nat
    decreases s.len(),
{
    if s.len() == 0 {
        0
    } else {
        utf8_len(s.drop_last()) + char_utf8_len(s.last())
    }
}

/// `str::len`: the length of `s` in bytes, which is the sum of the UTF-8
/// lengths of its characters.
#[verifier::external_body]
pub(crate) fn byte_len(s: &str) -> (res: usize)
    ensures
        res == utf8_len(s@),
{
    s.len()
}

/// Whether `c` is whitespace (`char::is_whitespace`).
pub fn char_is_whitespace(c: char) -> (res: bool)
    ensures
        res == is_whitespace(c),
{
    c == '\t' || c == '\n' || c == '\u{0B}' || c == '\u{0C}' || c == '\r' || c == ' ' || c
        == '\u{85}' || c == '\u{A0}' || c == '\u{1680}' || ('\u{2000}' <= c && c <= '\u{200A}')
        || c == '\u{2028}' || c == '\u{2029}' || c == '\u{202F}' || c == '\u{205F}' || c
        == '\u{3000}'
}

/// The characters of `s` from `start` up to `end`.
pub fn sub_chars(s: &[char], start: usize, end: usize) -> (res: Vec<char>)
    requires
        start <= end <= s@.len(),
    ensures
        res@ == s@.subrange(start as int, end as int),
{
    let mut out: Vec<char> = Vec::new();
    let mut i = start;
    while i < end
        invariant
            start <= i <= end <= s@.len(),
            out@ == s@.subrange(start as int, i as int),
        decreases end - i,
    {
        out.push(s[i]);
        i += 1;
    }
    out
}

/// Whether two character sequences are equal.
pub fn chars_eq(a: &[char], b: &[char]) -> (res: bool)
    ensures
        res == (a@ == b@),
{
    if a.len() != b.len() {
        return false;
    }
    let mut i: usize = 0;
    while i < a.len()
        invariant
            a@.len() == b@.len(),
            0 <= i <= a@.len(),
            forall|k: int| 0 <= k < i ==> a@[k] == b@[k],
        decreases a@.len() - i,
    {
        if a[i] != b[i] {
            return false;
        }
        i += 1;
    }
    assert(a@ =~= b@);
    true
}

/// Whether `p` occurs in `s` at index `at`.
pub fn occurs_at_exec(s: &[char], p: &[char], at: usize) -> (res: bool)
    ensures
        res == occurs_at(s@, p@, at as int),
{
    if at > s.len() || p.len() > s.len() - at {
        return false;
    }
    let n = s.len();
    let mut i: usize = 0;
    while i < p.len()
        invariant
            n == s@.len(),
            at <= s@.len(),
            at + p@.len() <= s@.len(),
            0 <= i <= p@.len(),
            forall|k: int| 0 <= k < i ==> s@[at + k] == p@[k],
        decreases p@.len() - i,
    {
        if s[at + i] != p[i] {
            assert(s@.subrange(at as int, at + p@.len())[i as int] != p@[i as int]);
            return false;
        }
        i += 1;
    }
    assert(s@.subrange(at as int, at + p@.len()) =~= p@);
    true
}

/// Whether `s` begins with `p`.
pub fn starts_with_exec(s: &[char], p: &[char]) -> (res: bool)
    ensures
        res == starts_with(s@, p@),
{
    occurs_at_exec(s, p, 0)
}

/// Whether `s` ends with `p`.
pub fn ends_with_exec(s: &[char], p: &[char]) -> (res: bool)
    ensures
        res == ends_with(s@, p@),
{
    if p.len() > s.len() {
        return false;
    }
    occurs_at_exec(s, p, s.len() - p.len())
}

/// The first index where `p` occurs in `s`.
pub fn find_exec(s: &[char], p: &[char]) -> (res: Option<usize>)
    ensures
        match res {
            Some(i) => find(s@, p@) == Some(i as int) && occurs_at(s@, p@, i as int),
            None => find(s@, p@) is None,
        },
{
    proof {
        lemma_find_from(s@, p@, 0);
    }
    let mut i: usize = 0;
    while i <= s.len()
        invariant
            0 <= i <= s@.len() + 1,
            find(s@, p@) == find_from(s@, p@, i as int),
        decreases s@.len() + 1 - i,
    {
        if p.len() > s.len() - i {
            return None;
        }
        if occurs_at_exec(s, p, i) {
            return Some(i);
        }
        if i == s.len() {
            return None;
        }
        i += 1;
    }
    None
}

/// The characters of `s` with leading and trailing whitespace removed.
pub fn trim_exec(s: &[char]) -> (res: Vec<char>)
    ensures
        res@ == trim(s@),
{
    let mut start: usize = 0;
    while start < s.len() && char_is_whitespace(s[start])
        invariant
            0 <= start <= s@.len(),
            forall|k: int| 0 <= k < start ==> is_whitespace(s@[k]),
        decreases s@.len() - start,
    {
        start += 1;
    }
    proof {
        lemma_trim_start_is(s@, start as int);
    }
    let mut end: usize = s.len();
    while end > start && char_is_whitespace(s[end - 1])
        invariant
            start <= end <= s@.len(),
            forall|k: int| end <= k < s@.len() ==> is_whitespace(s@[k]),
        decreases end,
    {
        end -= 1;
    }
    let ghost t = s@.skip(start as int);
    proof {
        assert forall|k: int| end - start <= k < t.len() implies is_whitespace(t[k]) by {
            assert(t[k] == s@[start + k]);
        }
        if end > start {
            assert(t[end - start - 1] == s@[end - 1]);
        }
        lemma_trim_end_is(t, end - start);
        assert(t.take(end - start) =~= s@.subrange(start as int, end as int));
    }
    sub_chars(s, start, end)
}

/// The lines of `s`, as `str::lines` yields them.
pub fn lines_exec(s: &[char]) -> (res: Vec<Vec<char>>)
    ensures
        view_all(res@) == lines(s@),
{
    let mut out: Vec<Vec<char>> = Vec::new();
    let mut pos: usize = 0;
    proof {
        assert(s@.skip(0) =~= s@);
        assert(view_all(out@) + lines(s@) =~= lines(s@));
    }
    while pos < s.len()
        invariant
            0 <= pos <= s@.len(),
            lines(s@) == view_all(out@) + lines(s@.skip(pos as int)),
        decreases s@.len() - pos,
    {
        let ghost t = s@.skip(pos as int);
        let mut j = pos;
        while j < s.len() && s[j] != '\n'
            invariant
                pos <= j <= s@.len(),
                forall|k: int| pos <= k < j ==> s@[k] != '\n',
            decreases s@.len() - j,
        {
            j += 1;
        }
        proof {
            assert forall|k: int| 0 <= k < j - pos implies t[k] != '\n' by {
                assert(t[k] == s@[pos + k]);
            }
            if j < s.len() {
                assert(t[j - pos] == s@[j as int]);
            }
            lemma_index_of_char_is(t, '\n', j - pos);
        }
        let ghost before = view_all(out@);
        if j < s.len() {
            let mut end = j;
            if end > pos && s[end - 1] == '\r' {
                end -= 1;
            }
            let line = sub_chars(s, pos, end);
            proof {
                assert(t.take(j - pos) =~= s@.subrange(pos as int, j as int));
                assert(strip_cr(t.take(j - pos)) =~= s@.subrange(pos as int, end as int));
                assert(t.skip(j - pos + 1) =~= s@.skip(j + 1));
            }
            out.push(line);
            proof {
                assert(view_all(out@) =~= before + seq![strip_cr(t.take(j - pos))]);
            }
            pos = j + 1;
        } else {
            let line = sub_chars(s, pos, s.len());
            proof {
                assert(t =~= s@.subrange(pos as int, s@.len() as int));
                assert(s@.skip(s@.len() as int) =~= Seq::<char>::empty());
            }
            out.push(line);
            pos = s.len();
            proof {
                assert(view_all(out@) =~= before + seq![t]);
            }
        }
    }
    proof {
        assert(s@.skip(s@.len() as int) =~= Seq::<char>::empty());
        assert(view_all(out@) + Seq::<Seq<char>>::empty() =~= view_all(out@));
    }
    out
}

/// The lines `ls` joined with `'\n'` between them.
pub fn join_lines_exec(ls: &Vec<Vec<char>>) -> (res: Vec<char>)
    ensures
        res@ == join_lines(view_all(ls@)),
{
    let mut out: Vec<char> = Vec::new();
    let mut i: usize = 0;
    while i < ls.len()
        invariant
            0 <= i <= ls@.len(),
            out@ == join_lines(view_all(ls@).take(i as int)),
        decreases ls@.len() - i,
    {
        let ghost prev = out@;
        if i > 0 {
            out.push('\n');
        }
        let line = &ls[i];
        let mut k: usize = 0;
        let ghost mid = out@;
        while k < line.len()
            invariant
                0 <= k <= line@.len(),
                out@ == mid + line@.take(k as int),
            decreases line@.len() - k,
        {
            out.push(line[k]);
            k += 1;
            proof {
                assert(line@.take(k as int) =~= line@.take(k - 1).push(line@[k - 1]));
            }
        }
        proof {
            let dv = view_all(ls@);
            assert(line@.take(line@.len() as int) =~= line@);
            assert(dv.take(i + 1).drop_last() =~= dv.take(i as int));
            assert(dv.take(i + 1).last() == line@);
            if i == 0 {
                assert(out@ =~= line@);
            } else {
                assert(out@ =~= prev + seq!['\n'] + line@);
            }
        }
        i += 1;
    }
    proof {
        assert(view_all(ls@).take(ls@.len() as int) =~= view_all(ls@));
    }
    out
}

/// The whitespace-separated words of `s`.
pub fn words_exec(s: &[char]) -> (res: Vec<Vec<char>>)
    ensures
        view_all(res@) == words(s@),
{
    let mut out: Vec<Vec<char>> = Vec::new();
    let mut pos: usize = 0;
    proof {
        assert(s@.skip(0) =~= s@);
        assert(view_all(out@) + words(s@) =~= words(s@));
    }
    while pos < s.len()
        invariant
            0 <= pos <= s@.len(),
            words(s@) == view_all(out@) + words(s@.skip(pos as int)),
        decreases s@.len() - pos,
    {
        let ghost u = s@.skip(pos as int);
        let mut start = pos;
        while start < s.len() && char_is_whitespace(s[start])
            invariant
                pos <= start <= s@.len(),
                forall|k: int| pos <= k < start ==> is_whitespace(s@[k]),
            decreases s@.len() - start,
        {
            start += 1;
        }
        proof {
            assert forall|k: int| 0 <= k < start - pos implies is_whitespace(u[k]) by {
                assert(u[k] == s@[pos + k]);
            }
            if start < s.len() {
                assert(u[start - pos] == s@[start as int]);
            }
            lemma_trim_start_is(u, start - pos);
            assert(u.skip(start - pos) =~= s@.skip(start as int));
        }
        let ghost before = view_all(out@);
        if start == s.len() {
            proof {
                assert(s@.skip(start as int).len() == 0);
                assert(words(u) == Seq::<Seq<char>>::empty());
                assert(words(s@.skip(start as int)) == Seq::<Seq<char>>::empty());
            }
            pos = start;
        } else {
            let mut end = start;
            while end < s.len() && !char_is_whitespace(s[end])
                invariant
                    start <= end <= s@.len(),
                    forall|k: int| start <= k < end ==> !is_whitespace(s@[k]),
                decreases s@.len() - end,
            {
                end += 1;
            }
            let ghost t = s@.skip(start as int);
            proof {
                assert forall|k: int| 0 <= k < end - start implies !is_whitespace(t[k]) by {
                    assert(t[k] == s@[start + k]);
                }
                if end < s.len() {
                    assert(t[end - start] == s@[end as int]);
                }
                lemma_index_of_whitespace_is(t, end - start);
                assert(!is_whitespace(s@[start as int]));
                assert(end > start);
                assert(t.take(end - start) =~= s@.subrange(start as int, end as int));
                assert(t.skip(end - start) =~= s@.skip(end as int));
                assert(trim_start(u) == t);
                assert(t.len() <= u.len());
            }
            let word = sub_chars(s, start, end);
            out.push(word);
            pos = end;
            proof {
                assert(words(u) == seq![t.take(end - start)] + words(t.skip(end - start)));
                assert(view_all(out@) =~= before + seq![s@.subrange(start as int, end as int)]);
            }
        }
    }
    proof {
        assert(s@.skip(s@.len() as int).len() == 0);
        assert(view_all(out@) + Seq::<Seq<char>>::empty() =~= view_all(out@));
    }
    out
}

} // verus!

verus! {

/// The value of `c` as a digit in the radix, when it is one.
pub fn digit_value_exec(c: char, radix: u32) -> (res: Option<u32>)
    requires
        2 <= radix <= 36,
    ensures
        match res {
            Some(d) => digit_value(c, radix as int) == Some(d as int),
            None => digit_value(c, radix as int) is None,
        },
{
    let d: u32 = if '0' <= c && c <= '9' {
        (c as u32) - ('0' as u32)
    } else if 'a' <= c && c <= 'z' {
        (c as u32) - ('a' as u32) + 10
    } else if 'A' <= c && c <= 'Z' {
        (c as u32) - ('A' as u32) + 10
    } else {
        radix
    };
    if d < radix {
        Some(d)
    } else {
        None
    }
}

proof fn lemma_digits_value_grows(v: int, radix: int, d: int)
    requires
        v >= 0,
        radix >= 2,
        d >= 0,
    ensures
        v * radix + d >= v,
{
    assert(v * radix >= v) by (nonlinear_arith)
        requires v >= 0, radix >= 2;
}

/// What `i64::from_str_radix(s, radix)` returns, `Ok` as `Some`.
pub fn parse_i64_radix_exec(s: &[char], radix: u32) -> (res: Option<i64>)
    requires
        2 <= radix <= 36,
    ensures
        res == parse_i64_radix(s@, radix as int),
{
    let n: usize = s.len();
    let mut start: usize = 0;
    let mut negative = false;
    if n > 0 && s[0] == '-' {
        negative = true;
        start = 1;
    } else if n > 0 && s[0] == '+' {
        start = 1;
    }
    let ghost d = s@.skip(start as int);
    proof {
        if start == 1 {
            assert(d =~= s@.drop_first());
        } else {
            assert(d =~= s@);
        }
    }
    if start >= n {
        return None;
    }
    let cap: i128 = 0x8000_0000_0000_0000;
    let mut acc: i128 = 0;
    let mut i: usize = start;
    proof {
        assert(d.take(0) =~= Seq::<char>::empty());
    }
    while i < n
        invariant
            n == s@.len(),
            start <= i <= n,
            d == s@.skip(start as int),
            d == (if n > 0 && (s@[0] == '-' || s@[0] == '+') {
                s@.drop_first()
            } else {
                s@
            }),
            negative == (n > 0 && s@[0] == '-'),
            cap == 0x8000_0000_0000_0000i128,
            all_digits(d.take(i - start), radix as int),
            2 <= radix <= 36,
            digits_value(d.take(i - start), radix as int) <= cap ==> acc == digits_value(
                d.take(i - start),
                radix as int,
            ),
            digits_value(d.take(i - start), radix as int) > cap ==> acc == cap + 1,
            0 <= acc <= cap + 1,
        decreases n - i,
    {
        let ghost k = i - start;
        let ghost prefix = d.take(k);
        match digit_value_exec(s[i], radix) {
            None => {
                proof {
                    assert(d[k] == s@[i as int]);
                    assert(!all_digits(d, radix as int));
                }
                return None;
            },
            Some(dv) => {
                proof {
                    assert(d[k] == s@[i as int]);
                    assert(d.take(k + 1) =~= prefix.push(d[k]));
                    lemma_digits_value_push(prefix, d[k], radix as int);
                    lemma_digits_value_nonneg(prefix, radix as int);
                    lemma_digits_value_grows(
                        digits_value(prefix, radix as int),
                        radix as int,
                        dv as int,
                    );
                    assert forall|j: int| 0 <= j < d.take(k + 1).len() implies (#[trigger] digit_value(
                        d.take(k + 1)[j],
                        radix as int,
                    )) is Some by {
                        if j < k {
                            assert(d.take(k + 1)[j] == prefix[j]);
                        }
                    }
                }
                if acc > cap {
                    acc = cap + 1;
                } else {
                    assert(acc * (radix as i128) <= cap * 36) by (nonlinear_arith)
                        requires 0 <= acc <= cap, 2 <= radix <= 36, cap == 0x8000_0000_0000_0000i128;
                    let next = acc * (radix as i128) + (dv as i128);
                    if next > cap {
                        acc = cap + 1;
                    } else {
                        acc = next;
                    }
                }
            },
        }
        i += 1;
    }
    proof {
        assert(d.take(n - start) =~= d);
        lemma_digits_value_nonneg(d, radix as int);
    }
    if negative {
        if acc > cap {
            None
        } else {
            Some((0 - acc) as i64)
        }
    } else {
        if acc >= cap {
            None
        } else {
            Some(acc as i64)
        }
    }
}

/// What `s.parse::<u64>()` returns, `Ok` as `Some`.
pub fn parse_u64_exec(s: &[char]) -> (res: Option<u64>)
    ensures
        res == parse_u64(s@),
{
    let n: usize = s.len();
    let mut start: usize = 0;
    if n > 0 && s[0] == '+' {
        start = 1;
    }
    let ghost d = s@.skip(start as int);
    proof {
        if start == 1 {
            assert(d =~= s@.drop_first());
        } else {
            assert(d =~= s@);
        }
    }
    if start >= n {
        return None;
    }
    let cap: i128 = 0xFFFF_FFFF_FFFF_FFFF;
    let mut acc: i128 = 0;
    let mut i: usize = start;
    proof {
        assert(d.take(0) =~= Seq::<char>::empty());
    }
    while i < n
        invariant
            n == s@.len(),
            start <= i <= n,
            d == s@.skip(start as int),
            d == (if n > 0 && s@[0] == '+' {
                s@.drop_first()
            } else {
                s@
            }),
            cap == 0xFFFF_FFFF_FFFF_FFFFi128,
            all_digits(d.take(i - start), 10),
            digits_value(d.take(i - start), 10) <= cap ==> acc == digits_value(d.take(i - start), 10),
            digits_value(d.take(i - start), 10) > cap ==> acc == cap + 1,
            0 <= acc <= cap + 1,
        decreases n - i,
    {
        let ghost k = i - start;
        let ghost prefix = d.take(k);
        match digit_value_exec(s[i], 10) {
            None => {
                proof {
                    assert(d[k] == s@[i as int]);
                    assert(!all_digits(d, 10));
                }
                return None;
            },
            Some(dv) => {
                proof {
                    assert(d[k] == s@[i as int]);
                    assert(d.take(k + 1) =~= prefix.push(d[k]));
                    lemma_digits_value_push(prefix, d[k], 10);
                    lemma_digits_value_nonneg(prefix, 10);
                    lemma_digits_value_grows(digits_value(prefix, 10), 10, dv as int);
                    assert forall|j: int| 0 <= j < d.take(k + 1).len() implies (#[trigger] digit_value(
                        d.take(k + 1)[j],
                        10,
                    )) is Some by {
                        if j < k {
                            assert(d.take(k + 1)[j] == prefix[j]);
                        }
                    }
                }
                if acc > cap {
                    acc = cap + 1;
                } else {
                    assert(acc * 10 <= cap * 10) by (nonlinear_arith)
                        requires 0 <= acc <= cap, cap == 0xFFFF_FFFF_FFFF_FFFFi128;
                    let next = acc * 10 + (dv as i128);
                    if next > cap {
                        acc = cap + 1;
                    } else {
                        acc = next;
                    }
                }
            },
        }
        i += 1;
    }
    proof {
        assert(d.take(n - start) =~= d);
        lemma_digits_value_nonneg(d, 10);
    }
    if acc > cap {
        None
    } else {
        Some(acc as u64)
    }
}

/// What `s.parse::<i64>()` returns, `Ok` as `Some`.
pub fn parse_i64_exec(s: &[char]) -> (res: Option<i64>)
    ensures
        res == parse_i64(s@),
{
    parse_i64_radix_exec(s, 10)
}

} // verus!

verus! {

/// Appends the characters of `s`.
pub fn push_str(out: &mut Vec<char>, s: &str)
    ensures
        final(out)@ == old(out)@ + s@,
{
    let chars = chars_of(s);
    push_chars(out, &chars);
}

/// Appends the characters of `s`.
pub fn push_chars(out: &mut Vec<char>, s: &[char])
    ensures
        final(out)@ == old(out)@ + s@,
{
    let ghost start = out@;
    let mut i: usize = 0;
    while i < s.len()
        invariant
            0 <= i <= s@.len(),
            out@ == start + s@.take(i as int),
        decreases s@.len() - i,
    {
        out.push(s[i]);
        i += 1;
        proof {
            assert(out@ =~= start + s@.take(i as int));
        }
    }
    proof {
        assert(s@.take(s@.len() as int) =~= s@);
    }
}

/// `n` copies of `c`.
pub open spec fn repeat_char(c: char, n: nat) -> Seq<char> {
    Seq::new(n, |i: int| c)
}

/// Appends `n` copies of `c`.
pub fn push_repeat(out: &mut Vec<char>, c: char, n: usize)
    ensures
        final(out)@ == old(out)@ + repeat_char(c, n as nat),
{
    let ghost start = out@;
    let mut i: usize = 0;
    while i < n
        invariant
            0 <= i <= n,
            out@ == start + repeat_char(c, i as nat),
        decreases n - i,
    {
        out.push(c);
        i += 1;
        proof {
            assert(out@ =~= start + repeat_char(c, i as nat));
        }
    }
}


/// `s` without the run of `c` at its end.
pub fn trim_end_char_exec(s: &[char], c: char) -> (res: Vec<char>)
    ensures
        res@ == trim_end_char(s@, c),
{
    let mut end: usize = s.len();
    proof {
        assert(s@.take(end as int) =~= s@);
    }
    while end > 0 && s[end - 1] == c
        invariant
            0 <= end <= s@.len(),
            trim_end_char(s@, c) == trim_end_char(s@.take(end as int), c),
        decreases end,
    {
        proof {
            assert(s@.take(end as int).drop_last() =~= s@.take(end - 1));
        }
        end -= 1;
    }
    sub_chars(s, 0, end)
}


/// `s` without its trailing whitespace.
pub fn trim_end_exec(s: &[char]) -> (res: Vec<char>)
    ensures
        res@ == trim_end(s@),
{
    let mut end: usize = s.len();
    proof {
        assert(s@.take(end as int) =~= s@);
    }
    while end > 0 && char_is_whitespace(s[end - 1])
        invariant
            0 <= end <= s@.len(),
            trim_end(s@) == trim_end(s@.take(end as int)),
        decreases end,
    {
        proof {
            assert(s@.take(end as int).drop_last() =~= s@.take(end - 1));
        }
        end -= 1;
    }
    sub_chars(s, 0, end)
}

} // verus!

