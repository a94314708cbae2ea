//! OT card fields: descriptions and the numbers packed into raw columns.
use vstd::prelude::*;

use crate::cards::mappings::LinkMarkerFlag;
use crate::cards::text::{newlines_normalized, normalize_newline_chars, strip_note_lines, without_note_lines};
use crate::cards::{has_label, has_type, labels_view};
use crate::chars::{after_first, chars_of, find, find_exec, starts_with, string_from_chars, sub_chars};

verus! {

/// The text after the first `marker`, without one leading `'\n'`.
pub open spec fn after_marker(d: Seq<char>, marker: Seq<char>) -> Option<Seq<char>> {
    match after_first(d, marker) {
        Some(a) => Some(if a.len() > 0 && a[0] == '\n' { a.drop_first() } else { a }),
        None => None,
    }
}

/// The description of an OT card: the normalized text without note lines;
/// for a pendulum card, only the monster part after `【怪兽效果】` (or, when
/// that is absent, after `【怪兽描述】`), and nothing when neither occurs.
pub open spec fn ot_description(description: Seq<char>, types: Seq<Seq<char>>) -> Option<Seq<char>> {
    let d = newlines_normalized(description);
    if !has_label(types, "灵摆"@) {
        Some(without_note_lines(d))
    } else {
        let monster = match after_marker(d, "【怪兽效果】"@) {
            Some(a) => Some(a),
            None => after_marker(d, "【怪兽描述】"@),
        };
        match monster {
            Some(m) => Some(without_note_lines(m)),
            None => None,
        }
    }
}

/// The earlier of the two monster-part markers in `s`.
pub open spec fn monster_marker_index(s: Seq<char>) -> Option<int> {
    match (find(s, "【怪兽效果】"@), find(s, "【怪兽描述】"@)) {
        (Some(a), Some(b)) => Some(if a <= b { a } else { b }),
        (Some(a), None) => Some(a),
        (None, Some(b)) => Some(b),
        (None, None) => None,
    }
}

/// The pendulum description of an OT card: for a pendulum card, the
/// normalized text after its first line and before the first monster-part
/// marker, without one trailing `'\n'`; `Some(None)` for other cards; and
/// `None` when a pendulum text has no second line or no marker.
pub open spec fn ot_pendulum_description(description: Seq<char>, types: Seq<Seq<char>>) -> Option<Option<Seq<char>>> {
    if !has_label(types, "灵摆"@) {
        Some(None)
    } else {
        match after_first(newlines_normalized(description), seq!['\n']) {
            None => None,
            Some(rest) => match monster_marker_index(rest) {
                None => None,
                Some(i) => {
                    let p = rest.take(i);
                    Some(Some(if p.len() > 0 && p.last() == '\n' { p.drop_last() } else { p }))
                },
            },
        }
    }
}

/// A monster's attack or defence: `-2` reads as `-1` (unknown), and values
/// below `-1` are invalid.
pub open spec fn stat_value(raw: i64) -> Option<i64> {
    let v: i64 = if raw == -2 { -1i64 } else { raw };
    if v >= -1 { Some(v) } else { None }
}

/// The low byte of a packed level column, which must not be negative.
pub open spec fn low_byte(raw: i64) -> Option<i64> {
    if raw >= 0 { Some(raw & 0xff) } else { None }
}

/// The positions, in table order, of the link markers whose bit is set.
pub open spec fn marker_positions(flags: Seq<LinkMarkerFlag>, raw: i64) -> Seq<i64>
    decreases flags.len(),
{
    if flags.len() == 0 {
        seq![]
    } else {
        let p = marker_positions(flags.drop_last(), raw);
        if raw & flags.last().mask != 0 {
            p.push(flags.last().output_position)
        } else {
            p
        }
    }
}

/// The union of all link-marker bits.
pub open spec fn link_marker_mask(flags: Seq<LinkMarkerFlag>) -> i64
    decreases flags.len(),
{
    if flags.len() == 0 {
        0
    } else {
        link_marker_mask(flags.drop_last()) | flags.last().mask
    }
}

/// The OT attack: present for monsters only.
pub open spec fn ot_atk(raw: i64, types: Seq<Seq<char>>) -> Option<Option<i64>> {
    if !has_label(types, "怪兽"@) {
        Some(None)
    } else {
        match stat_value(raw) {
            Some(v) => Some(Some(v)),
            None => None,
        }
    }
}

/// The OT defence: present for monsters other than link monsters.
pub open spec fn ot_def(raw: i64, types: Seq<Seq<char>>) -> Option<Option<i64>> {
    if !has_label(types, "怪兽"@) || has_label(types, "连接"@) {
        Some(None)
    } else {
        match stat_value(raw) {
            Some(v) => Some(Some(v)),
            None => None,
        }
    }
}

/// A packed level byte from 0 to 13.
pub open spec fn level_in_range(raw: i64) -> Option<Option<i64>> {
    match low_byte(raw) {
        Some(v) => if 0 <= v <= 13 { Some(Some(v)) } else { None },
        None => None,
    }
}

/// The OT level: present for monsters other than Xyz and link monsters.
pub open spec fn ot_level(raw: i64, types: Seq<Seq<char>>) -> Option<Option<i64>> {
    if !has_label(types, "怪兽"@) || has_label(types, "超量"@) || has_label(types, "连接"@) {
        Some(None)
    } else {
        level_in_range(raw)
    }
}

/// The OT rank: present for Xyz monsters.
pub open spec fn ot_rank(raw: i64, types: Seq<Seq<char>>) -> Option<Option<i64>> {
    if !has_label(types, "怪兽"@) || !has_label(types, "超量"@) {
        Some(None)
    } else {
        level_in_range(raw)
    }
}

/// The OT pendulum scale: present for pendulum monsters; the left scale
/// (bits 24..32) and the right scale (bits 16..24) must agree and lie from
/// 0 to 13.
pub open spec fn ot_pendulum_scale(raw: i64, types: Seq<Seq<char>>) -> Option<Option<i64>> {
    if !has_label(types, "怪兽"@) || !has_label(types, "灵摆"@) {
        Some(None)
    } else if raw < 0 {
        None
    } else {
        let rscale = (raw >> 16u64) & 0xff;
        let lscale = (raw >> 24u64) & 0xff;
        if rscale != lscale || !(0 <= rscale <= 13) { None } else { Some(Some(rscale)) }
    }
}

/// The OT link rating: present for link monsters, from 1 to 8.
pub open spec fn ot_link_value(raw: i64, types: Seq<Seq<char>>) -> Option<Option<i64>> {
    if !has_label(types, "怪兽"@) || !has_label(types, "连接"@) {
        Some(None)
    } else {
        match low_byte(raw) {
            Some(v) => if 1 <= v <= 8 { Some(Some(v)) } else { None },
            None => None,
        }
    }
}

/// The OT link markers: for link monsters, the positions whose bit is set in
/// the raw defence column, which must hold only known marker bits and at
/// least one.
pub open spec fn ot_link_markers(raw: i64, types: Seq<Seq<char>>, flags: Seq<LinkMarkerFlag>) -> Option<Option<Seq<i64>>> {
    if !has_label(types, "怪兽"@) || !has_label(types, "连接"@) {
        Some(None)
    } else if raw < 0 || raw & !link_marker_mask(flags) != 0 || marker_positions(flags, raw).len() == 0 {
        None
    } else {
        Some(Some(marker_positions(flags, raw)))
    }
}

/// Normalizes an OT description (see `ot_description`).
pub fn normalize_description(description: &str, card_type: &[String]) -> (res: Option<String>)
    ensures
        match res {
            Some(d) => ot_description(description@, labels_view(card_type@)) == Some(d@),
            None => ot_description(description@, labels_view(card_type@)) is None,
        },
{
    let d = normalize_newline_chars(&chars_of(description));
    if !has_type(card_type, "灵摆") {
        return Some(string_from_chars(&strip_note_lines(&d)));
    }
    let monster = match after_marker_exec(&d, &chars_of("【怪兽效果】")) {
        Some(a) => Some(a),
        None => after_marker_exec(&d, &chars_of("【怪兽描述】")),
    };
    match monster {
        Some(m) => Some(string_from_chars(&strip_note_lines(&m))),
        None => None,
    }
}

/// The text after the first `marker`, without one leading `'\n'`.
fn after_marker_exec(d: &[char], marker: &[char]) -> (res: Option<Vec<char>>)
    ensures
        match res {
            Some(a) => after_marker(d@, marker@) == Some(a@),
            None => after_marker(d@, marker@) is None,
        },
{
    let n: usize = d.len();
    match find_exec(d, marker) {
        None => None,
        Some(i) => {
            assert(i + marker@.len() <= n);
            let start = i + marker.len();
            if start < d.len() && d[start] == '\n' {
                let a = sub_chars(d, start + 1, d.len());
                proof {
                    assert(a@ =~= d@.skip(start as int).drop_first());
                }
                Some(a)
            } else {
                let a = sub_chars(d, start, d.len());
                proof {
                    assert(a@ =~= d@.skip(start as int));
                }
                Some(a)
            }
        },
    }
}

/// The earlier of the two monster-part markers.
pub fn monster_description_marker_index(description: &[char]) -> (res: Option<usize>)
    ensures
        match res {
            Some(i) => monster_marker_index(description@) == Some(i as int) && i <= description@.len(),
            None => monster_marker_index(description@) is None,
        },
{
    let effect = find_exec(description, &chars_of("【怪兽效果】"));
    let text = find_exec(description, &chars_of("【怪兽描述】"));
    match (effect, text) {
        (Some(a), Some(b)) => Some(if a <= b { a } else { b }),
        (Some(a), None) => Some(a),
        (None, Some(b)) => Some(b),
        (None, None) => None,
    }
}

/// Normalizes an OT pendulum description (see `ot_pendulum_description`).
pub fn normalize_pendulum_description(description: &str, card_type: &[String]) -> (res: Option<Option<String>>)
    ensures
        match res {
            Some(Some(p)) => ot_pendulum_description(description@, labels_view(card_type@)) == Some(Some(p@)),
            Some(None) => ot_pendulum_description(description@, labels_view(card_type@)) == Some(None::<Seq<char>>),
            None => ot_pendulum_description(description@, labels_view(card_type@)) is None,
        },
{
    if !has_type(card_type, "灵摆") {
        return Some(None);
    }
    let d = normalize_newline_chars(&chars_of(description));
    let newline = chars_of("\n");
    proof {
        reveal_strlit("\n");
        assert(newline@ =~= seq!['\n']);
    }
    let n: usize = d.len();
    let rest = match find_exec(&d, &newline) {
        None => return None,
        Some(i) => {
            assert(i + 1 <= n);
            sub_chars(&d, i + 1, n)
        },
    };
    proof {
        assert(rest@ =~= d@.skip(find(d@, seq!['\n']).unwrap() + 1));
    }
    let marker_index = match monster_description_marker_index(&rest) {
        None => return None,
        Some(i) => i,
    };
    let mut end = marker_index;
    if end > 0 && rest[end - 1] == '\n' {
        end -= 1;
    }
    let p = sub_chars(&rest, 0, end);
    proof {
        let q = rest@.take(marker_index as int);
        if marker_index > 0 && rest@[marker_index - 1] == '\n' {
            assert(p@ =~= q.drop_last());
        } else {
            assert(p@ =~= q);
        }
    }
    Some(Some(string_from_chars(&p)))
}

/// The attack of an OT card: present for monsters only.
pub fn normalize_atk(raw_atk: i64, card_type: &[String]) -> (res: Option<Option<i64>>)
    ensures
        res == ot_atk(raw_atk, labels_view(card_type@)),
{
    if !has_type(card_type, "怪兽") {
        return Some(None);
    }
    let atk = if raw_atk == -2 { -1 } else { raw_atk };
    if atk >= -1 { Some(Some(atk)) } else { None }
}

/// The defence of an OT card: present for monsters other than link monsters.
pub fn normalize_def(raw_def: i64, card_type: &[String]) -> (res: Option<Option<i64>>)
    ensures
        res == ot_def(raw_def, labels_view(card_type@)),
{
    if !has_type(card_type, "怪兽") || has_type(card_type, "连接") {
        return Some(None);
    }
    let defense = if raw_def == -2 { -1 } else { raw_def };
    if defense >= -1 { Some(Some(defense)) } else { None }
}

/// The low byte of a packed level column.
pub fn low_level_byte(raw_level: i64) -> (res: Option<i64>)
    ensures
        res == low_byte(raw_level),
{
    if raw_level >= 0 { Some(raw_level & 0xff) } else { None }
}

/// The level of an OT card: present for monsters other than Xyz and link
/// monsters, and from 0 to 13.
pub fn normalize_level(raw_level: i64, card_type: &[String]) -> (res: Option<Option<i64>>)
    ensures
        res == ot_level(raw_level, labels_view(card_type@)),
{
    if !has_type(card_type, "怪兽") || has_type(card_type, "超量") || has_type(card_type, "连接") {
        return Some(None);
    }
    let level = match low_level_byte(raw_level) {
        Some(v) => v,
        None => return None,
    };
    if 0 <= level && level <= 13 { Some(Some(level)) } else { None }
}

/// The rank of an OT card: present for Xyz monsters, and from 0 to 13.
pub fn normalize_rank(raw_level: i64, card_type: &[String]) -> (res: Option<Option<i64>>)
    ensures
        res == ot_rank(raw_level, labels_view(card_type@)),
{
    if !has_type(card_type, "怪兽") || !has_type(card_type, "超量") {
        return Some(None);
    }
    let rank = match low_level_byte(raw_level) {
        Some(v) => v,
        None => return None,
    };
    if 0 <= rank && rank <= 13 { Some(Some(rank)) } else { None }
}

/// The pendulum scale of an OT card: present for pendulum monsters; the
/// left scale (bits 24..32) and the right scale (bits 16..24) must agree
/// and lie from 0 to 13.
pub fn normalize_pendulum_scale(raw_level: i64, card_type: &[String]) -> (res: Option<Option<i64>>)
    ensures
        res == ot_pendulum_scale(raw_level, labels_view(card_type@)),
{
    if !has_type(card_type, "怪兽") || !has_type(card_type, "灵摆") {
        return Some(None);
    }
    if raw_level < 0 {
        return None;
    }
    let rscale = (raw_level >> 16u64) & 0xff;
    let lscale = (raw_level >> 24u64) & 0xff;
    if rscale != lscale || !(0 <= rscale && rscale <= 13) {
        return None;
    }
    Some(Some(rscale))
}

/// The link rating of an OT card: present for link monsters, and from 1 to 8.
pub fn normalize_link_value(raw_level: i64, card_type: &[String]) -> (res: Option<Option<i64>>)
    ensures
        res == ot_link_value(raw_level, labels_view(card_type@)),
{
    if !has_type(card_type, "怪兽") || !has_type(card_type, "连接") {
        return Some(None);
    }
    let link_value = match low_level_byte(raw_level) {
        Some(v) => v,
        None => return None,
    };
    if 1 <= link_value && link_value <= 8 { Some(Some(link_value)) } else { None }
}

/// The union of all link-marker bits.
pub fn known_link_marker_mask(flags: &[LinkMarkerFlag]) -> (res: i64)
    ensures
        res == link_marker_mask(flags@),
{
    let mut mask: i64 = 0;
    let mut i: usize = 0;
    while i < flags.len()
        invariant
            0 <= i <= flags@.len(),
            mask == link_marker_mask(flags@.take(i as int)),
        decreases flags@.len() - i,
    {
        proof {
            assert(flags@.take(i + 1).drop_last() =~= flags@.take(i as int));
        }
        mask = mask | flags[i].mask;
        i += 1;
    }
    proof {
        assert(flags@.take(flags@.len() as int) =~= flags@);
    }
    mask
}

/// The link markers of an OT card: for link monsters, the positions whose
/// bit is set in the raw defence column, which must hold only known marker
/// bits and at least one.
pub fn normalize_link_marker(raw_def: i64, card_type: &[String], flags: &[LinkMarkerFlag]) -> (res: Option<Option<Vec<i64>>>)
    ensures
        match res {
            Some(Some(markers)) => ot_link_markers(raw_def, labels_view(card_type@), flags@) == Some(Some(markers@)),
            Some(None) => ot_link_markers(raw_def, labels_view(card_type@), flags@) == Some(None::<Seq<i64>>),
            None => ot_link_markers(raw_def, labels_view(card_type@), flags@) is None,
        },
{
    if !has_type(card_type, "怪兽") || !has_type(card_type, "连接") {
        return Some(None);
    }
    if raw_def < 0 || raw_def & !known_link_marker_mask(flags) != 0 {
        return None;
    }
    let mut markers: Vec<i64> = Vec::new();
    let mut i: usize = 0;
    while i < flags.len()
        invariant
            0 <= i <= flags@.len(),
            markers@ == marker_positions(flags@.take(i as int), raw_def),
        decreases flags@.len() - i,
    {
        proof {
            assert(flags@.take(i + 1).drop_last() =~= flags@.take(i as int));
        }
        if raw_def & flags[i].mask != 0 {
            markers.push(flags[i].output_position);
        }
        i += 1;
    }
    proof {
        assert(flags@.take(flags@.len() as int) =~= flags@);
    }
    if markers.len() == 0 {
        None
    } else {
        Some(Some(markers))
    }
}

} // verus!
