//! Number and word formatting for reports.
use vstd::prelude::*;

use crate::chars::{push_chars, string_from_chars, sub_chars};

verus! {

/// The decimal digit for `d`.
pub open spec fn digit_char(d: nat) -> char {
    (('0' as u8) + d) as char
}

/// The decimal digits of `n`, without leading zeros.
pub open spec fn decimal(n: nat) -> Seq<char>
    decreases n,
{
    if n < 10 {
        seq![digit_char(n)]
    } else {
        decimal(n / 10).push(digit_char(n % 10))
    }
}

/// The digits `d` in groups of three from the right, separated by `,`.
pub open spec fn grouped(d: Seq<char>) -> Seq<char>
    decreases d.len(),
{
    if d.len() <= 3 {
        d
    } else {
        grouped(d.take(d.len() - 3)) + seq![','] + d.skip(d.len() - 3)
    }
}

/// `s` padded on the right with spaces to `width` characters.
pub open spec fn pad_right(s: Seq<char>, width: nat) -> Seq<char> {
    if s.len() >= width {
        s
    } else {
        s + Seq::new((width - s.len()) as nat, |i: int| ' ')
    }
}

/// `s` padded on the left with spaces to `width` characters.
pub open spec fn pad_left(s: Seq<char>, width: nat) -> Seq<char> {
    if s.len() >= width {
        s
    } else {
        Seq::new((width - s.len()) as nat, |i: int| ' ') + s
    }
}

/// The digits of `n` padded on the left with zeros to three digits.
pub open spec fn zero_padded3(n: nat) -> Seq<char> {
    let d = decimal(n);
    if d.len() >= 3 {
        d
    } else {
        Seq::new((3 - d.len()) as nat, |i: int| '0') + d
    }
}

pub proof fn lemma_decimal_len(n: nat)
    ensures
        decimal(n).len() >= 1,
        n < 10 <==> decimal(n).len() == 1,
        n < 100 ==> decimal(n).len() <= 2,
    decreases n,
{
    if n >= 10 {
        lemma_decimal_len(n / 10);
    }
}

/// The decimal digits of `n`.
pub fn decimal_chars(n: u64) -> (res: Vec<char>)
    ensures
        res@ == decimal(n as nat),
    decreases n,
{
    if n < 10 {
        let mut v: Vec<char> = Vec::new();
        v.push((('0' as u8) + (n as u8)) as char);
        proof {
            assert(v@ =~= decimal(n as nat));
        }
        v
    } else {
        let mut v = decimal_chars(n / 10);
        v.push((('0' as u8) + ((n % 10) as u8)) as char);
        proof {
            assert(v@ =~= decimal(n as nat));
        }
        v
    }
}

/// The decimal text of a signed number: a `-` before the digits of its
/// magnitude when it is negative.
pub open spec fn signed_decimal(n: int) -> Seq<char> {
    if n < 0 {
        seq!['-'] + decimal((-n) as nat)
    } else {
        decimal(n as nat)
    }
}

/// The decimal text of `n`.
pub fn signed_decimal_chars(n: i64) -> (res: Vec<char>)
    ensures
        res@ == signed_decimal(n as int),
{
    if n < 0 {
        let magnitude: u64 = ((-(n + 1)) as u64) + 1;
        let digits = decimal_chars(magnitude);
        let mut out: Vec<char> = Vec::new();
        out.push('-');
        push_chars(&mut out, &digits);
        proof {
            assert(out@ =~= seq!['-'] + decimal((-n) as nat));
        }
        out
    } else {
        decimal_chars(n as u64)
    }
}

/// The decimal text of `n`, as a `String`.
pub fn signed_decimal_string(n: i64) -> (res: String)
    ensures
        res@ == signed_decimal(n as int),
{
    string_from_chars(&signed_decimal_chars(n))
}

/// The decimal text of `n`, as a `String`.
pub fn decimal_string(n: u64) -> (res: String)
    ensures
        res@ == decimal(n as nat),
{
    string_from_chars(&decimal_chars(n))
}

/// The digits `d[..end]` grouped by three from the right.
fn group_digits(d: &[char], end: usize) -> (res: Vec<char>)
    requires
        end <= d@.len(),
    ensures
        res@ == grouped(d@.take(end as int)),
    decreases end,
{
    if end <= 3 {
        let v = sub_chars(d, 0, end);
        proof {
            assert(v@ =~= d@.take(end as int));
        }
        v
    } else {
        let mut v = group_digits(d, end - 3);
        v.push(',');
        let tail = sub_chars(d, end - 3, end);
        push_chars(&mut v, &tail);
        proof {
            let t = d@.take(end as int);
            assert(t.take(t.len() - 3) =~= d@.take(end - 3));
            assert(t.skip(t.len() - 3) =~= tail@);
        }
        v
    }
}

/// A count with its digits grouped by three with commas, as `12,345,678`.
pub fn format_count(value: u64) -> (res: String)
    ensures
        res@ == grouped(decimal(value as nat)),
{
    let digits = decimal_chars(value);
    let grouped_digits = group_digits(&digits, digits.len());
    proof {
        assert(digits@.take(digits@.len() as int) =~= digits@);
    }
    string_from_chars(&grouped_digits)
}

/// The singular word for a count of one, the plural word otherwise.
pub fn plural<'a>(count: usize, singular_form: &'a str, plural_form: &'a str) -> (res: &'a str)
    ensures
        res == (if count == 1 { singular_form } else { plural_form }),
{
    if count == 1 { singular_form } else { plural_form }
}

/// Removing the separators of a grouped number gives back its digits.
pub proof fn lemma_grouped_keeps_digits(d: Seq<char>)
    requires
        forall|i: int| 0 <= i < d.len() ==> d[i] != ',',
    ensures
        grouped(d).filter(|c: char| c != ',') == d,
    decreases d.len(),
{
    broadcast use vstd::seq_lib::group_filter_ensures;
    let keep = |c: char| c != ',';
    if d.len() <= 3 {
        assert(d.filter(keep) =~= d) by {
            lemma_filter_all_kept(d, keep);
        }
    } else {
        let head = d.take(d.len() - 3);
        let tail = d.skip(d.len() - 3);
        lemma_grouped_keeps_digits(head);
        lemma_filter_all_kept(tail, keep);
        reveal_with_fuel(Seq::filter, 2);
        assert(seq![','].filter(keep) =~= Seq::<char>::empty()) by {
            reveal_with_fuel(Seq::filter, 2);
            assert(seq![','].drop_last() =~= Seq::<char>::empty());
        }
        assert(grouped(d) == grouped(head) + seq![','] + tail);
        Seq::filter_distributes_over_add(grouped(head) + seq![','], tail, keep);
        Seq::filter_distributes_over_add(grouped(head), seq![','], keep);
        assert(head + tail =~= d);
    }
}

proof fn lemma_filter_all_kept(s: Seq<char>, keep: spec_fn(char) -> bool)
    requires
        forall|i: int| 0 <= i < s.len() ==> keep(s[i]),
    ensures
        s.filter(keep) == s,
    decreases s.len(),
{
    reveal(Seq::filter);
    if s.len() > 0 {
        lemma_filter_all_kept(s.drop_last(), keep);
        assert(s.drop_last().push(s.last()) =~= s);
    }
}


/// Appends `s` padded on the right with spaces to `width` characters.
pub fn push_padded_right(out: &mut Vec<char>, s: &[char], width: usize)
    ensures
        final(out)@ == old(out)@ + pad_right(s@, width as nat),
{
    let ghost start = out@;
    push_chars(out, s);
    if s.len() < width {
        crate::chars::push_repeat(out, ' ', width - s.len());
        proof {
            assert(out@ =~= start + pad_right(s@, width as nat));
        }
    }
}

/// Appends `s` padded on the left with spaces to `width` characters.
pub fn push_padded_left(out: &mut Vec<char>, s: &[char], width: usize)
    ensures
        final(out)@ == old(out)@ + pad_left(s@, width as nat),
{
    let ghost start = out@;
    if s.len() < width {
        crate::chars::push_repeat(out, ' ', width - s.len());
    }
    push_chars(out, s);
    proof {
        assert(out@ =~= start + pad_left(s@, width as nat));
    }
}

/// The text of a count, grouped by three with commas.
pub open spec fn count_text(n: nat) -> Seq<char> {
    grouped(decimal(n))
}

/// Appends the text of a count, grouped by three with commas.
pub fn push_count(out: &mut Vec<char>, n: usize)
    requires
        n <= u64::MAX,
    ensures
        final(out)@ == old(out)@ + count_text(n as nat),
{
    let text = format_count(n as u64);
    crate::chars::push_str(out, text.as_str());
}

/// Appends the decimal digits of `n`.
pub fn push_decimal(out: &mut Vec<char>, n: usize)
    requires
        n <= u64::MAX,
    ensures
        final(out)@ == old(out)@ + decimal(n as nat),
{
    let digits = decimal_chars(n as u64);
    push_chars(out, &digits);
}


/// The lower-case hexadecimal digit for `d`.
pub open spec fn hex_digit(d: nat) -> char {
    if d < 10 {
        (('0' as u8) + d) as char
    } else {
        (('a' as u8) + (d - 10)) as char
    }
}

/// The lower-case hexadecimal digits of `n`, without leading zeros.
pub open spec fn hex_digits(n: nat) -> Seq<char>
    decreases n,
{
    if n < 16 {
        seq![hex_digit(n)]
    } else {
        hex_digits(n / 16).push(hex_digit(n % 16))
    }
}

/// The hexadecimal digits of `n`.
pub fn hex_chars(n: u64) -> (res: Vec<char>)
    ensures
        res@ == hex_digits(n as nat),
    decreases n,
{
    let d = (n % 16) as u8;
    let c = if d < 10 { (('0' as u8) + d) as char } else { (('a' as u8) + (d - 10)) as char };
    if n < 16 {
        let mut v: Vec<char> = Vec::new();
        v.push(c);
        proof {
            assert(v@ =~= hex_digits(n as nat));
        }
        v
    } else {
        let mut v = hex_chars(n / 16);
        v.push(c);
        proof {
            assert(v@ =~= hex_digits(n as nat));
        }
        v
    }
}

/// How `{:#x}` writes an `i64`: `0x` and the hexadecimal digits of its
/// two's-complement bits.
pub open spec fn alternate_hex(n: i64) -> Seq<char> {
    "0x"@ + hex_digits((n as u64) as nat)
}

/// Appends `n` as `{:#x}` writes it.
pub fn push_alternate_hex(out: &mut Vec<char>, n: i64)
    ensures
        final(out)@ == old(out)@ + alternate_hex(n),
{
    let bits = n as u64;
    let mut piece = crate::chars::chars_of("0x");
    push_chars(&mut piece, &hex_chars(bits));
    push_chars(out, &piece);
}

/// How `{:?}` writes an `Option<i64>`.
pub open spec fn debug_option(o: Option<i64>) -> Seq<char> {
    match o {
        Some(v) => "Some("@ + signed_decimal(v as int) + ")"@,
        None => "None"@,
    }
}

/// Appends an `Option<i64>` as `{:?}` writes it.
pub fn push_debug_option(out: &mut Vec<char>, o: Option<i64>)
    ensures
        final(out)@ == old(out)@ + debug_option(o),
{
    match o {
        Some(v) => {
            let mut piece = crate::chars::chars_of("Some(");
            push_chars(&mut piece, &signed_decimal_chars(v));
            crate::chars::push_str(&mut piece, ")");
            push_chars(out, &piece);
        },
        None => crate::chars::push_str(out, "None"),
    }
}

} // verus!
