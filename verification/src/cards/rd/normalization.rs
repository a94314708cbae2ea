//! RD card fields: stats, maximum positions and descriptions.
use vstd::prelude::*;

use crate::cards::mappings::MaximumPositionMapping;
use crate::cards::text::{newlines_normalized, normalize_newline_chars, strip_note_lines, without_note_lines};
use crate::cards::{has_label, has_type, labels_view};
use crate::chars::{
    after_first, before_first, chars_eq, chars_of, contains, ends_with, ends_with_exec, find,
    find_exec, join_lines, join_lines_exec, lines, lines_exec, parse_i64, parse_i64_exec,
    starts_with, starts_with_exec, string_from_chars, sub_chars, trim, trim_exec, view_all,
    words, words_exec,
};

verus! {

/// The attack that a `极大攻击 <n>` (or `极大攻击力 <n>`) line states: exactly
/// two words, the second a non-negative integer.
pub open spec fn maximum_attack_line(line: Seq<char>) -> Option<i64> {
    let w = words(line);
    if w.len() == 2 && (w[0] == "极大攻击"@ || w[0] == "极大攻击力"@) {
        match parse_i64(w[1]) {
            Some(a) => if a >= 0 { Some(a) } else { None },
            None => None,
        }
    } else {
        None
    }
}

/// The attack stated by the first maximum-attack line among `ls`.
pub open spec fn first_maximum_attack(ls: Seq<Seq<char>>) -> Option<i64>
    decreases ls.len(),
{
    if ls.len() == 0 {
        None
    } else {
        match maximum_attack_line(ls[0]) {
            Some(a) => Some(a),
            None => first_maximum_attack(ls.drop_first()),
        }
    }
}

/// The maximum attack that a raw description states.
pub open spec fn maximum_attack(raw: Seq<char>) -> Option<i64> {
    first_maximum_attack(lines(newlines_normalized(raw)))
}

/// The card name holds one of the entry's markers.
pub open spec fn name_has_marker(name: Seq<char>, entry: MaximumPositionMapping) -> bool {
    exists|i: int| 0 <= i < entry.markers@.len() && contains(name, #[trigger] entry.markers@[i]@)
}

/// The positions, in table order, whose markers occur in the name.
pub open spec fn named_positions(entries: Seq<MaximumPositionMapping>, name: Seq<char>) -> Seq<i64>
    decreases entries.len(),
{
    if entries.len() == 0 {
        seq![]
    } else {
        let p = named_positions(entries.drop_last(), name);
        if name_has_marker(name, entries.last()) {
            p.push(entries.last().position)
        } else {
            p
        }
    }
}

/// The maximum position of an RD card: for monsters, the one position whose
/// marker the name holds; two or more such positions are an error; with
/// none, position 1 for a `极大` monster whose text states a maximum attack.
pub open spec fn rd_maximum(
    entries: Seq<MaximumPositionMapping>,
    name: Seq<char>,
    types: Seq<Seq<char>>,
    raw: Seq<char>,
) -> Option<Option<i64>> {
    if !has_label(types, "怪兽"@) {
        Some(None)
    } else {
        let positions = named_positions(entries, name);
        if positions.len() >= 2 {
            None
        } else if positions.len() == 1 {
            Some(Some(positions[0]))
        } else if has_label(types, "极大"@) && maximum_attack(raw) is Some {
            Some(Some(1))
        } else {
            Some(None)
        }
    }
}

/// A standalone special-adjustment note line.
pub open spec fn is_special_adjustment_line(line: Seq<char>) -> bool {
    let t = trim(line);
    starts_with(t, "（特殊调整："@) && (ends_with(t, "）"@) || ends_with(t, ")"@))
}

/// The text with its special-adjustment lines removed: when some line is one,
/// the remaining lines joined with `'\n'`; otherwise the text unchanged.
pub open spec fn without_special_adjustments(text: Seq<char>) -> Seq<char> {
    let ls = lines(text);
    if exists|i: int| 0 <= i < ls.len() && is_special_adjustment_line(#[trigger] ls[i]) {
        join_lines(ls.filter(|l: Seq<char>| !is_special_adjustment_line(l)))
    } else {
        text
    }
}

/// The first line of `s` and the text after it.
pub open spec fn split_first_line(s: Seq<char>) -> (Seq<char>, Seq<char>) {
    match after_first(s, seq!['\n']) {
        Some(rest) => (before_first(s, seq!['\n']), rest),
        None => (s, seq![]),
    }
}

/// `s` without its leading maximum-attack lines.
pub open spec fn without_leading_noise(s: Seq<char>) -> Seq<char>
    decreases s.len(),
{
    let (line, rest) = split_first_line(s);
    if maximum_attack_line(line) is None || rest.len() >= s.len() {
        s
    } else {
        without_leading_noise(rest)
    }
}

/// The text of an RD description: a first line that starts with `RD/` is
/// the card's code line and goes; then note lines, special-adjustment lines
/// and leading maximum-attack lines go; a blank remainder becomes empty.
pub open spec fn rd_description(raw: Seq<char>) -> Seq<char> {
    let d = newlines_normalized(raw);
    let body = if starts_with(d, "RD/"@) {
        match after_first(d, seq!['\n']) {
            Some(b) => b,
            None => seq![],
        }
    } else {
        d
    };
    let body = without_leading_noise(without_special_adjustments(without_note_lines(body)));
    if trim(body).len() == 0 {
        seq![]
    } else {
        body
    }
}

/// A card's stat: kept for monsters only.
pub fn monster_value(value: i64, card_type: &[String]) -> (res: Option<i64>)
    ensures
        res == (if has_label(labels_view(card_type@), "怪兽"@) { Some(value) } else { None }),
{
    if has_type(card_type, "怪兽") {
        Some(value)
    } else {
        None
    }
}

/// The attack that a maximum-attack line states (see `maximum_attack_line`).
pub fn parse_maximum_attack_line(line: &[char]) -> (res: Option<i64>)
    ensures
        res == maximum_attack_line(line@),
{
    let parts = words_exec(line);
    if parts.len() != 2 {
        return None;
    }
    if !(chars_eq(&parts[0], &chars_of("极大攻击")) || chars_eq(&parts[0], &chars_of("极大攻击力"))) {
        return None;
    }
    match parse_i64_exec(&parts[1]) {
        Some(attack) => if attack >= 0 {
            Some(attack)
        } else {
            None
        },
        None => None,
    }
}

/// The maximum attack that a raw description states.
pub fn parse_maximum_atk(raw_description: &str) -> (res: Option<i64>)
    ensures
        res == maximum_attack(raw_description@),
{
    let d = normalize_newline_chars(&chars_of(raw_description));
    let ls = lines_exec(&d);
    let ghost all = view_all(ls@);
    let mut i: usize = 0;
    proof {
        assert(all.skip(0) =~= all);
    }
    while i < ls.len()
        invariant
            0 <= i <= ls@.len(),
            all == view_all(ls@),
            all == lines(d@),
            d@ == newlines_normalized(raw_description@),
            first_maximum_attack(all) == first_maximum_attack(all.skip(i as int)),
        decreases ls@.len() - i,
    {
        proof {
            assert(all.skip(i as int).drop_first() =~= all.skip(i + 1));
            assert(all.skip(i as int)[0] == ls@[i as int]@);
        }
        match parse_maximum_attack_line(&ls[i]) {
            Some(attack) => return Some(attack),
            None => {},
        }
        i += 1;
    }
    None
}

/// Whether the name holds one of the entry's markers.
fn name_has_marker_exec(name: &[char], entry: &MaximumPositionMapping) -> (res: bool)
    ensures
        res == name_has_marker(name@, *entry),
{
    let mut i: usize = 0;
    while i < entry.markers.len()
        invariant
            0 <= i <= entry.markers@.len(),
            forall|k: int| 0 <= k < i ==> !contains(name@, #[trigger] entry.markers@[k]@),
        decreases entry.markers@.len() - i,
    {
        let marker = chars_of(entry.markers[i].as_str());
        match find_exec(name, &marker) {
            Some(_) => {
                return true;
            },
            None => {},
        }
        i += 1;
    }
    false
}

/// The maximum position of an RD card (see `rd_maximum`).
pub fn normalize_maximum(
    name: &str,
    card_type: &[String],
    raw_description: &str,
    entries: &[MaximumPositionMapping],
) -> (res: Option<Option<i64>>)
    ensures
        res == rd_maximum(entries@, name@, labels_view(card_type@), raw_description@),
{
    if !has_type(card_type, "怪兽") {
        return Some(None);
    }
    let name_chars = chars_of(name);
    let mut positions: Vec<i64> = Vec::new();
    let mut i: usize = 0;
    while i < entries.len()
        invariant
            0 <= i <= entries@.len(),
            name_chars@ == name@,
            positions@ == named_positions(entries@.take(i as int), name@),
        decreases entries@.len() - i,
    {
        proof {
            assert(entries@.take(i + 1).drop_last() =~= entries@.take(i as int));
        }
        if name_has_marker_exec(&name_chars, &entries[i]) {
            positions.push(entries[i].position);
        }
        i += 1;
    }
    proof {
        assert(entries@.take(entries@.len() as int) =~= entries@);
    }
    if positions.len() >= 2 {
        return None;
    }
    if positions.len() == 1 {
        return Some(Some(positions[0]));
    }
    if has_type(card_type, "极大") && parse_maximum_atk(raw_description).is_some() {
        Some(Some(1))
    } else {
        Some(None)
    }
}

/// The maximum attack of an RD card: for position 1, the attack its text
/// states, which it must state.
pub fn normalize_maximum_atk(maximum: Option<i64>, raw_description: &str) -> (res: Option<Option<i64>>)
    ensures
        res == (if maximum != Some(1i64) {
            Some(None)
        } else {
            match maximum_attack(raw_description@) {
                Some(a) => Some(Some(a)),
                None => None,
            }
        }),
{
    match maximum {
        Some(1) => {},
        _ => return Some(None),
    }
    match parse_maximum_atk(raw_description) {
        Some(a) => Some(Some(a)),
        None => None,
    }
}

/// Whether a line is a standalone special-adjustment note.
fn is_special_adjustment_line_exec(line: &[char]) -> (res: bool)
    ensures
        res == is_special_adjustment_line(line@),
{
    let t = trim_exec(line);
    starts_with_exec(&t, &chars_of("（特殊调整：")) && (ends_with_exec(&t, &chars_of("）"))
        || ends_with_exec(&t, &chars_of(")")))
}

/// Removes the lines that are standalone special-adjustment notes.
pub fn strip_special_adjustment_lines(description: &[char]) -> (res: Vec<char>)
    ensures
        res@ == without_special_adjustments(description@),
{
    let ls = lines_exec(description);
    let ghost all = view_all(ls@);
    let ghost pred = |l: Seq<char>| !is_special_adjustment_line(l);
    let mut kept: Vec<Vec<char>> = Vec::new();
    let mut removed = false;
    let mut i: usize = 0;
    proof {
        assert(all.take(0) =~= Seq::<Seq<char>>::empty());
        assert(view_all(kept@) =~= all.take(0).filter(pred));
    }
    while i < ls.len()
        invariant
            0 <= i <= ls@.len(),
            all == view_all(ls@),
            all == lines(description@),
            pred == (|l: Seq<char>| !is_special_adjustment_line(l)),
            view_all(kept@) == all.take(i as int).filter(pred),
            removed == (exists|k: int| 0 <= k < i && is_special_adjustment_line(#[trigger] all[k])),
        decreases ls@.len() - i,
    {
        let ghost before = view_all(kept@);
        proof {
            assert(all.take(i + 1) =~= all.take(i as int).push(all[i as int]));
            all.take(i as int).lemma_filter_push(all[i as int], pred);
            assert(all[i as int] == ls@[i as int]@);
        }
        if is_special_adjustment_line_exec(&ls[i]) {
            removed = true;
        } else {
            kept.push(ls[i].clone());
            proof {
                assert(view_all(kept@) =~= before.push(all[i as int]));
            }
        }
        i += 1;
    }
    proof {
        assert(all.take(ls@.len() as int) =~= all);
    }
    if removed {
        join_lines_exec(&kept)
    } else {
        let res = sub_chars(description, 0, description.len());
        proof {
            assert(description@.subrange(0, description@.len() as int) =~= description@);
        }
        res
    }
}

/// Removes the leading maximum-attack lines.
pub fn strip_leading_description_noise(description: &[char]) -> (res: Vec<char>)
    ensures
        res@ == without_leading_noise(description@),
{
    let n: usize = description.len();
    let mut pos: usize = 0;
    let newline = chars_of("\n");
    proof {
        reveal_strlit("\n");
        assert(newline@ =~= seq!['\n']);
        assert(description@.skip(0) =~= description@);
    }
    loop
        invariant
            0 <= pos <= n,
            n == description@.len(),
            newline@ == seq!['\n'],
            without_leading_noise(description@) == without_leading_noise(description@.skip(pos as int)),
        decreases n - pos,
    {
        let rest_of = sub_chars(description, pos, n);
        proof {
            assert(rest_of@ =~= description@.skip(pos as int));
        }
        let (line, next) = match find_exec(&rest_of, &newline) {
            Some(i) => {
                assert(i + 1 <= rest_of@.len());
                (sub_chars(&rest_of, 0, i), pos + i + 1)
            },
            None => (sub_chars(&rest_of, 0, rest_of.len()), n),
        };
        let ghost s = rest_of@;
        proof {
            let (l, r) = split_first_line(s);
            match find(s, seq!['\n']) {
                Some(i) => {
                    assert(line@ =~= l);
                    assert(r =~= description@.skip(next as int));
                },
                None => {
                    assert(line@ =~= l);
                    assert(description@.skip(n as int) =~= r);
                },
            }
        }
        if parse_maximum_attack_line(&line).is_none() || next == pos {
            proof {
                let (l, r) = split_first_line(s);
                assert(maximum_attack_line(l) is None || r.len() >= s.len());
            }
            return rest_of;
        }
        pos = next;
    }
}

/// Normalizes an RD description (see `rd_description`).
pub fn normalize_description(raw_description: &str) -> (res: String)
    ensures
        res@ == rd_description(raw_description@),
{
    let description = normalize_newline_chars(&chars_of(raw_description));
    let body = if starts_with_exec(&description, &chars_of("RD/")) {
        let newline = chars_of("\n");
        proof {
            reveal_strlit("\n");
            assert(newline@ =~= seq!['\n']);
        }
        let n: usize = description.len();
        match find_exec(&description, &newline) {
            Some(i) => {
                assert(i + 1 <= n);
                let b = sub_chars(&description, i + 1, n);
                proof {
                    assert(b@ =~= description@.skip(i + 1));
                }
                b
            },
            None => Vec::new(),
        }
    } else {
        sub_chars(&description, 0, description.len())
    };
    proof {
        assert(description@.subrange(0, description@.len() as int) =~= description@);
    }
    let body = strip_note_lines(&body);
    let body = strip_special_adjustment_lines(&body);
    let body = strip_leading_description_noise(&body);
    if trim_exec(&body).len() == 0 {
        String::new()
    } else {
        string_from_chars(&body)
    }
}

} // verus!
