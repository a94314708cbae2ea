//! Card text clean-up: line endings and editorial note lines.
use vstd::prelude::*;

use crate::chars::{
    chars_eq, chars_of, ends_with, ends_with_exec, join_lines, join_lines_exec, lines,
    lines_exec, starts_with, starts_with_exec, string_from_chars, trim, trim_exec, view_all,
};

verus! {

/// Every `'\r'` of `s` read as a `'\n'`.
pub open spec fn cr_as_lf(s: Seq<char>) -> Seq<char> {
    Seq::new(s.len(), |i: int| if s[i] == '\r' { '\n' } else { s[i] })
}

/// `s` with each run of consecutive `'\n'` reduced to a single `'\n'`.
pub open spec fn collapse_newlines(s: Seq<char>) -> Seq<char>
    decreases s.len(),
{
    if s.len() == 0 {
        s
    } else {
        let p = s.drop_last();
        if s.last() == '\n' && p.len() > 0 && p.last() == '\n' {
            collapse_newlines(p)
        } else {
            collapse_newlines(p).push(s.last())
        }
    }
}

/// Card text with uniform line endings: `"\r\n"` and a lone `'\r'` both end
/// a line, and each run of line endings becomes one `'\n'`.
pub open spec fn newlines_normalized(s: Seq<char>) -> Seq<char> {
    collapse_newlines(cr_as_lf(s))
}

/// The standalone editorial notes that card texts carry.
pub open spec fn is_effect_text_note_text(t: Seq<char>) -> bool {
    ||| t == "（限制类效果可在基本分处查看）"@
    ||| t == "（限制类效果可在基本分处查看)"@
    ||| t == "（状态类效果可在基本分处查看）"@
    ||| t == "（状态类效果可在基本分处查看)"@
    ||| t == "（限制类和状态类效果可在基本分处查看）"@
    ||| t == "（限制类和状态类效果可在基本分处查看)"@
    ||| (starts_with(t, "（注："@) && (ends_with(t, "）"@) || ends_with(t, ")"@)))
}

/// A line that, once trimmed, is an editorial note.
pub open spec fn is_note_line(line: Seq<char>) -> bool {
    is_effect_text_note_text(trim(line))
}

/// A line that stays in the card text.
pub open spec fn keeps_line(line: Seq<char>) -> bool {
    !is_note_line(line)
}

/// The text with its note lines removed: when some line is a note line, the
/// remaining lines joined with `'\n'`; otherwise the text unchanged.
pub open spec fn without_note_lines(text: Seq<char>) -> Seq<char> {
    let ls = lines(text);
    if exists|i: int| 0 <= i < ls.len() && is_note_line(#[trigger] ls[i]) {
        join_lines(ls.filter(|l: Seq<char>| keeps_line(l)))
    } else {
        text
    }
}

/// Replaces every `'\r'` with `'\n'`.
fn cr_to_lf(text: &[char]) -> (res: Vec<char>)
    ensures
        res@ == cr_as_lf(text@),
{
    let mut out: Vec<char> = Vec::new();
    let mut i: usize = 0;
    while i < text.len()
        invariant
            0 <= i <= text@.len(),
            out@ == cr_as_lf(text@.take(i as int)),
        decreases text@.len() - i,
    {
        let c = text[i];
        out.push(if c == '\r' { '\n' } else { c });
        i += 1;
        proof {
            assert(out@ =~= cr_as_lf(text@.take(i as int)));
        }
    }
    proof {
        assert(text@.take(text@.len() as int) =~= text@);
    }
    out
}

/// Reduces each run of consecutive `'\n'` to a single `'\n'`.
pub fn collapse_consecutive_newlines(text: &[char]) -> (res: Vec<char>)
    ensures
        res@ == collapse_newlines(text@),
{
    let mut normalized: Vec<char> = Vec::new();
    let mut previous_was_newline = false;
    let mut i: usize = 0;
    while i < text.len()
        invariant
            0 <= i <= text@.len(),
            normalized@ == collapse_newlines(text@.take(i as int)),
            previous_was_newline == (i > 0 && text@[i - 1] == '\n'),
        decreases text@.len() - i,
    {
        let character = text[i];
        proof {
            let t = text@.take(i + 1);
            assert(t.drop_last() =~= text@.take(i as int));
            assert(t.last() == character);
        }
        if character == '\n' {
            if !previous_was_newline {
                normalized.push(character);
            }
            previous_was_newline = true;
        } else {
            normalized.push(character);
            previous_was_newline = false;
        }
        i += 1;
    }
    proof {
        assert(text@.take(text@.len() as int) =~= text@);
    }
    normalized
}

/// Normalizes the line endings of card text held as characters.
pub fn normalize_newline_chars(text: &[char]) -> (res: Vec<char>)
    ensures
        res@ == newlines_normalized(text@),
{
    let unified = cr_to_lf(text);
    collapse_consecutive_newlines(&unified)
}

/// Normalizes the line endings of card text: `"\r\n"` and a lone `'\r'`
/// become `'\n'`, and consecutive line endings collapse into one.
pub fn normalize_newlines(text: &str) -> (res: String)
    ensures
        res@ == newlines_normalized(text@),
{
    let chars = chars_of(text);
    let collapsed = normalize_newline_chars(&chars);
    string_from_chars(&collapsed)
}

/// Whether a line is a standalone editorial note.
pub fn is_effect_text_note_line(line: &[char]) -> (res: bool)
    ensures
        res == is_note_line(line@),
{
    let t = trim_exec(line);
    if chars_eq(&t, &chars_of("（限制类效果可在基本分处查看）")) || chars_eq(
        &t,
        &chars_of("（限制类效果可在基本分处查看)"),
    ) || chars_eq(&t, &chars_of("（状态类效果可在基本分处查看）")) || chars_eq(
        &t,
        &chars_of("（状态类效果可在基本分处查看)"),
    ) || chars_eq(&t, &chars_of("（限制类和状态类效果可在基本分处查看）")) || chars_eq(
        &t,
        &chars_of("（限制类和状态类效果可在基本分处查看)"),
    ) {
        return true;
    }
    starts_with_exec(&t, &chars_of("（注：")) && (ends_with_exec(&t, &chars_of("）"))
        || ends_with_exec(&t, &chars_of(")")))
}

/// Removes the lines that are standalone editorial notes.
pub fn strip_note_lines(text: &[char]) -> (res: Vec<char>)
    ensures
        res@ == without_note_lines(text@),
{
    let ls = lines_exec(text);
    let ghost all = view_all(ls@);
    let ghost pred = |l: Seq<char>| keeps_line(l);
    let mut kept: Vec<Vec<char>> = Vec::new();
    let mut removed = false;
    let mut i: usize = 0;
    proof {
        assert(all.take(0) =~= Seq::<Seq<char>>::empty());
        assert(view_all(kept@) =~= all.take(0).filter(pred));
    }
    while i < ls.len()
        invariant
            0 <= i <= ls@.len(),
            all == view_all(ls@),
            all == lines(text@),
            pred == (|l: Seq<char>| keeps_line(l)),
            view_all(kept@) == all.take(i as int).filter(pred),
            removed == (exists|k: int| 0 <= k < i && is_note_line(#[trigger] all[k])),
        decreases ls@.len() - i,
    {
        let ghost before = view_all(kept@);
        proof {
            assert(all.take(i + 1) =~= all.take(i as int).push(all[i as int]));
            all.take(i as int).lemma_filter_push(all[i as int], pred);
            assert(all[i as int] == ls@[i as int]@);
        }
        if is_effect_text_note_line(&ls[i]) {
            removed = true;
        } else {
            kept.push(ls[i].clone());
            proof {
                assert(view_all(kept@) =~= before.push(all[i as int]));
            }
        }
        i += 1;
    }
    proof {
        assert(all.take(ls@.len() as int) =~= all);
    }
    if removed {
        join_lines_exec(&kept)
    } else {
        sub_all(text)
    }
}

fn sub_all(text: &[char]) -> (res: Vec<char>)
    ensures
        res@ == text@,
{
    let res = crate::chars::sub_chars(text, 0, text.len());
    proof {
        assert(text@.subrange(0, text@.len() as int) =~= text@);
    }
    res
}

/// Removes the lines of card text that are standalone editorial notes.
pub fn strip_effect_text_note_lines(text: &str) -> (res: String)
    ensures
        res@ == without_note_lines(text@),
{
    let chars = chars_of(text);
    let stripped = strip_note_lines(&chars);
    string_from_chars(&stripped)
}


/// `s` has no `'\r'`.
pub open spec fn has_no_cr(s: Seq<char>) -> bool {
    forall|i: int| 0 <= i < s.len() ==> #[trigger] s[i] != '\r'
}

/// `s` has no two `'\n'` in a row.
pub open spec fn has_no_blank_run(s: Seq<char>) -> bool {
    forall|i: int| 0 <= i < s.len() - 1 ==> !(#[trigger] s[i] == '\n' && s[i + 1] == '\n')
}

pub proof fn lemma_collapse_last(s: Seq<char>)
    requires
        s.len() > 0,
    ensures
        collapse_newlines(s).len() > 0,
        collapse_newlines(s).last() == s.last(),
    decreases s.len(),
{
    let p = s.drop_last();
    if s.last() == '\n' && p.len() > 0 && p.last() == '\n' {
        lemma_collapse_last(p);
    }
}

pub proof fn lemma_collapse_shape(s: Seq<char>)
    ensures
        has_no_blank_run(collapse_newlines(s)),
        has_no_cr(s) ==> has_no_cr(collapse_newlines(s)),
    decreases s.len(),
{
    if s.len() > 0 {
        let p = s.drop_last();
        lemma_collapse_shape(p);
        if has_no_cr(s) {
            assert(has_no_cr(p)) by {
                assert forall|i: int| 0 <= i < p.len() implies #[trigger] p[i] != '\r' by {
                    assert(p[i] == s[i]);
                }
            }
        }
        if !(s.last() == '\n' && p.len() > 0 && p.last() == '\n') {
            let c = collapse_newlines(p);
            let r = c.push(s.last());
            if p.len() > 0 {
                lemma_collapse_last(p);
            }
            assert forall|i: int| 0 <= i < r.len() - 1 implies !(#[trigger] r[i] == '\n' && r[i + 1] == '\n') by {
                if i + 1 < c.len() {
                    assert(r[i] == c[i] && r[i + 1] == c[i + 1]);
                } else {
                    assert(i == c.len() - 1);
                    assert(r[i + 1] == s.last());
                }
            }
            if has_no_cr(s) {
                assert forall|i: int| 0 <= i < r.len() implies #[trigger] r[i] != '\r' by {
                    if i < c.len() {
                        assert(r[i] == c[i]);
                    } else {
                        assert(r[i] == s[s.len() - 1]);
                    }
                }
            }
        }
    }
}

pub proof fn lemma_collapse_fixed(s: Seq<char>)
    requires
        has_no_blank_run(s),
    ensures
        collapse_newlines(s) == s,
    decreases s.len(),
{
    if s.len() > 0 {
        let p = s.drop_last();
        assert(has_no_blank_run(p)) by {
            assert forall|i: int| 0 <= i < p.len() - 1 implies !(#[trigger] p[i] == '\n' && p[i + 1] == '\n') by {
                assert(p[i] == s[i] && p[i + 1] == s[i + 1]);
            }
        }
        lemma_collapse_fixed(p);
        if p.len() > 0 {
            assert(!(s[s.len() - 2] == '\n' && s[s.len() - 1] == '\n'));
        }
        assert(p.push(s.last()) =~= s);
    }
}

/// Normalized card text has no carriage returns and no blank lines, and
/// normalizing it again changes nothing.
pub proof fn lemma_newlines_normalized_idempotent(s: Seq<char>)
    ensures
        has_no_cr(newlines_normalized(s)),
        has_no_blank_run(newlines_normalized(s)),
        newlines_normalized(newlines_normalized(s)) == newlines_normalized(s),
{
    let c = cr_as_lf(s);
    assert(has_no_cr(c));
    lemma_collapse_shape(c);
    let n = newlines_normalized(s);
    assert(cr_as_lf(n) =~= n);
    lemma_collapse_fixed(n);
}

} // verus!
