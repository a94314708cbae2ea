//! Card records: type classification, field normalization and forbidden lists.
pub mod images;
pub mod mappings;
pub mod ot;
pub mod rd;
pub mod rejection;
pub mod restrictions;
pub mod text;

use vstd::prelude::*;

use crate::cards::mappings::TypeFlag;
use crate::chars::{chars_eq, chars_of};

verus! {

/// The primary kind of a card.
#[derive(Debug, Clone, Copy, PartialEq, Eq, Structural)]
pub enum CardKind {
    Monster,
    Spell,
    Trap,
}

/// The kind that an output type name stands for.
pub open spec fn card_kind_of(name: Seq<char>) -> Option<CardKind> {
    if name == "怪兽"@ {
        Some(CardKind::Monster)
    } else if name == "魔法"@ {
        Some(CardKind::Spell)
    } else if name == "陷阱"@ {
        Some(CardKind::Trap)
    } else {
        None
    }
}

impl CardKind {
    /// The kind that an output type name stands for.
    pub fn from_output_name(name: &str) -> (res: Option<CardKind>)
        ensures
            res == card_kind_of(name@),
    {
        let name = chars_of(name);
        if chars_eq(&name, &chars_of("怪兽")) {
            Some(CardKind::Monster)
        } else if chars_eq(&name, &chars_of("魔法")) {
            Some(CardKind::Spell)
        } else if chars_eq(&name, &chars_of("陷阱")) {
            Some(CardKind::Trap)
        } else {
            None
        }
    }
}

/// The views of a list of strings.
pub open spec fn labels_view(v: Seq<String>) -> Seq<Seq<char>> {
    Seq::new(v.len(), |i: int| v[i]@)
}

/// Appending a string appends its view.
pub proof fn lemma_labels_view_push(v: Seq<String>, s: String)
    ensures
        labels_view(v.push(s)) == labels_view(v).push(s@),
        labels_view(v).len() == v.len(),
{
    assert(labels_view(v.push(s)) =~= labels_view(v).push(s@));
}

/// `labels` holds `expected`.
pub open spec fn has_label(labels: Seq<Seq<char>>, expected: Seq<char>) -> bool {
    exists|i: int| 0 <= i < labels.len() && labels[i] == expected
}

/// Whether a card's type list holds the given type name.
pub fn has_type(card_type: &[String], expected: &str) -> (res: bool)
    ensures
        res == has_label(labels_view(card_type@), expected@),
{
    let wanted = chars_of(expected);
    let mut i: usize = 0;
    while i < card_type.len()
        invariant
            0 <= i <= card_type@.len(),
            wanted@ == expected@,
            forall|k: int| 0 <= k < i ==> card_type@[k]@ != expected@,
        decreases card_type@.len() - i,
    {
        if chars_eq(&chars_of(card_type[i].as_str()), &wanted) {
            proof {
                let lv = labels_view(card_type@);
                assert(lv[i as int] == card_type@[i as int]@);
                assert(0 <= i < lv.len() && lv[i as int] == expected@);
                assert(has_label(lv, expected@));
            }
            return true;
        }
        i += 1;
    }
    proof {
        if has_label(labels_view(card_type@), expected@) {
            let k = choose|k: int| 0 <= k < labels_view(card_type@).len() && labels_view(card_type@)[k] == expected@;
            assert(card_type@[k]@ == expected@);
        }
    }
    false
}

/// The union of the masks of `flags` with `init`.
pub open spec fn or_masks(flags: Seq<TypeFlag>, init: i64) -> i64
    decreases flags.len(),
{
    if flags.len() == 0 {
        init
    } else {
        or_masks(flags.drop_last(), init) | flags.last().mask
    }
}

/// The flags, in order, whose bit is set in `type_flags`.
pub open spec fn matched_flags(flags: Seq<TypeFlag>, type_flags: i64) -> Seq<TypeFlag>
    decreases flags.len(),
{
    if flags.len() == 0 {
        seq![]
    } else {
        let p = matched_flags(flags.drop_last(), type_flags);
        if type_flags & flags.last().mask != 0 {
            p.push(flags.last())
        } else {
            p
        }
    }
}

/// The names of the flags, in order, whose bit is set in `type_flags`.
pub open spec fn matched_names(flags: Seq<TypeFlag>, type_flags: i64) -> Seq<Seq<char>> {
    Seq::new(
        matched_flags(flags, type_flags).len(),
        |i: int| matched_flags(flags, type_flags)[i].output_name@,
    )
}

/// The single primary type among the set bits: `None` when no primary bit
/// is set, when two are, or when the one set names no kind.
pub open spec fn single_primary(flags: Seq<TypeFlag>, type_flags: i64) -> Option<(CardKind, Seq<char>)> {
    let hits = matched_flags(flags, type_flags);
    if hits.len() == 1 {
        match card_kind_of(hits[0].output_name@) {
            Some(kind) => Some((kind, hits[0].output_name@)),
            None => None,
        }
    } else {
        None
    }
}

/// The name of the first flag that stands for `kind`.
pub open spec fn first_label_for(flags: Seq<TypeFlag>, kind: CardKind) -> Option<Seq<char>>
    decreases flags.len(),
{
    if flags.len() == 0 {
        None
    } else if card_kind_of(flags[0].output_name@) == Some(kind) {
        Some(flags[0].output_name@)
    } else {
        first_label_for(flags.drop_first(), kind)
    }
}

/// Matching distributes over concatenation.
pub proof fn lemma_matched_flags_append(a: Seq<TypeFlag>, b: Seq<TypeFlag>, type_flags: i64)
    ensures
        matched_flags(a + b, type_flags) == matched_flags(a, type_flags) + matched_flags(
            b,
            type_flags,
        ),
    decreases b.len(),
{
    if b.len() == 0 {
        assert(a + b =~= a);
        assert(matched_flags(a, type_flags) + matched_flags(b, type_flags) =~= matched_flags(a, type_flags));
    } else {
        lemma_matched_flags_append(a, b.drop_last(), type_flags);
        assert((a + b).drop_last() =~= a + b.drop_last());
        assert((a + b).last() == b.last());
        if type_flags & b.last().mask != 0 {
            assert(matched_flags(a, type_flags) + matched_flags(b, type_flags) =~= (matched_flags(a, type_flags)
                + matched_flags(b.drop_last(), type_flags)).push(b.last()));
        }
    }
}

/// The matches among the first `i` flags begin the matches among all flags.
pub proof fn lemma_matched_flags_prefix(flags: Seq<TypeFlag>, type_flags: i64, i: int)
    requires
        0 <= i <= flags.len(),
    ensures
        matched_flags(flags, type_flags) == matched_flags(flags.take(i), type_flags)
            + matched_flags(flags.skip(i), type_flags),
{
    assert(flags.take(i) + flags.skip(i) =~= flags);
    lemma_matched_flags_append(flags.take(i), flags.skip(i), type_flags);
}

/// The union of all masks, started from `init`.
pub fn or_masks_exec(flags: &[TypeFlag], init: i64) -> (res: i64)
    ensures
        res == or_masks(flags@, init),
{
    let mut mask = init;
    let mut i: usize = 0;
    while i < flags.len()
        invariant
            0 <= i <= flags@.len(),
            mask == or_masks(flags@.take(i as int), init),
        decreases flags@.len() - i,
    {
        proof {
            assert(flags@.take(i + 1).drop_last() =~= flags@.take(i as int));
        }
        mask = mask | flags[i].mask;
        i += 1;
    }
    proof {
        assert(flags@.take(flags@.len() as int) =~= flags@);
    }
    mask
}

/// The names of the flags whose bit is set, in flag order.
pub fn matched_flag_names(flags: &[TypeFlag], type_flags: i64) -> (res: Vec<String>)
    ensures
        labels_view(res@) == matched_names(flags@, type_flags),
{
    let mut names: Vec<String> = Vec::new();
    let mut i: usize = 0;
    while i < flags.len()
        invariant
            0 <= i <= flags@.len(),
            labels_view(names@) == matched_names(flags@.take(i as int), type_flags),
        decreases flags@.len() - i,
    {
        let ghost before = names@;
        proof {
            assert(flags@.take(i + 1).drop_last() =~= flags@.take(i as int));
        }
        if type_flags & flags[i].mask != 0 {
            let name = flags[i].output_name.clone();
            names.push(name);
            proof {
                let m0 = matched_flags(flags@.take(i as int), type_flags);
                let m1 = matched_flags(flags@.take(i + 1), type_flags);
                assert(flags@.take(i + 1).last() == flags@[i as int]);
                assert(m1 == m0.push(flags@[i as int]));
                assert(names@ == before.push(name));
                assert(name@ == flags@[i as int].output_name@);
                assert(labels_view(before).len() == before.len());
                assert(matched_names(flags@.take(i as int), type_flags).len() == m0.len());
                assert(labels_view(names@).len() == m1.len());
                assert forall|k: int| 0 <= k < m1.len() implies labels_view(names@)[k] == m1[k].output_name@ by {
                    if k < m0.len() {
                        assert(labels_view(before)[k] == m0[k].output_name@);
                    }
                }
                assert(labels_view(names@) =~= matched_names(flags@.take(i + 1), type_flags));
            }
        } else {
            proof {
                assert(labels_view(names@) =~= matched_names(flags@.take(i + 1), type_flags));
            }
        }
        i += 1;
    }
    proof {
        assert(flags@.take(flags@.len() as int) =~= flags@);
    }
    names
}

/// The single primary type among the set bits (see `single_primary`).
pub fn single_primary_exec(flags: &[TypeFlag], type_flags: i64) -> (res: Option<(CardKind, String)>)
    ensures
        match res {
            Some((kind, label)) => single_primary(flags@, type_flags) == Some((kind, label@)),
            None => single_primary(flags@, type_flags) is None,
        },
{
    let mut primary: Option<(CardKind, String)> = None;
    let mut i: usize = 0;
    while i < flags.len()
        invariant
            0 <= i <= flags@.len(),
            ({
                let hits = matched_flags(flags@.take(i as int), type_flags);
                &&& hits.len() <= 1
                &&& match primary {
                    Some((kind, label)) => hits.len() == 1 && card_kind_of(hits[0].output_name@)
                        == Some(kind) && label@ == hits[0].output_name@,
                    None => hits.len() == 0,
                }
            }),
        decreases flags@.len() - i,
    {
        proof {
            assert(flags@.take(i + 1).drop_last() =~= flags@.take(i as int));
            lemma_matched_flags_prefix(flags@, type_flags, i + 1);
        }
        if type_flags & flags[i].mask == 0 {
            i += 1;
            continue;
        }
        let card_type = match CardKind::from_output_name(flags[i].output_name.as_str()) {
            Some(kind) => kind,
            None => {
                proof {
                    let hits = matched_flags(flags@.take(i + 1), type_flags);
                    assert(hits.last() == flags@[i as int]);
                    let all = matched_flags(flags@, type_flags);
                    assert(all[hits.len() - 1] == hits[hits.len() - 1]);
                    if all.len() == 1 {
                        assert(hits.len() == 1);
                    }
                }
                return None;
            },
        };
        if primary.is_some() {
            proof {
                let hits = matched_flags(flags@.take(i + 1), type_flags);
                assert(hits.len() == 2);
            }
            return None;
        }
        primary = Some((card_type, flags[i].output_name.clone()));
        i += 1;
    }
    proof {
        assert(flags@.take(flags@.len() as int) =~= flags@);
    }
    primary
}

/// The name of the first flag that stands for `kind`.
pub fn first_label_for_exec(flags: &[TypeFlag], kind: CardKind) -> (res: Option<String>)
    ensures
        match res {
            Some(label) => first_label_for(flags@, kind) == Some(label@),
            None => first_label_for(flags@, kind) is None,
        },
{
    let mut i: usize = 0;
    proof {
        assert(flags@.skip(0) =~= flags@);
    }
    while i < flags.len()
        invariant
            0 <= i <= flags@.len(),
            first_label_for(flags@, kind) == first_label_for(flags@.skip(i as int), kind),
        decreases flags@.len() - i,
    {
        proof {
            assert(flags@.skip(i as int).drop_first() =~= flags@.skip(i + 1));
        }
        if CardKind::from_output_name(flags[i].output_name.as_str()) == Some(kind) {
            return Some(flags[i].output_name.clone());
        }
        i += 1;
    }
    None
}

} // verus!

verus! {

/// Why a database row did not become a card.
#[derive(Debug, Clone, Copy, PartialEq, Eq, Structural)]
pub enum CardRejection {
    NonPositiveId,
    MissingName,
    BlankName,
    MissingDescription,
    UnsupportedAttribute,
    NegativeAlias,
    UnsupportedType,
    InvalidDescription,
    InvalidPendulumDescription,
    InvalidAtk,
    InvalidDef,
    InvalidLevel,
    InvalidRank,
    InvalidPendulumScale,
    InvalidLinkValue,
    InvalidLinkMarkers,
    InvalidMaximum,
    InvalidMaximumAtk,
}

/// The views of an optional string.
pub open spec fn opt_string_view(o: Option<String>) -> Option<Seq<char>> {
    match o {
        Some(s) => Some(s@),
        None => None,
    }
}

/// The views of an optional list of integers.
pub open spec fn opt_vec_view(o: Option<Vec<i64>>) -> Option<Seq<i64>> {
    match o {
        Some(v) => Some(v@),
        None => None,
    }
}

/// Whether a name is empty or whitespace only.
pub fn is_blank(name: &str) -> (res: bool)
    ensures
        res == (crate::chars::trim(name@).len() == 0),
{
    crate::chars::trim_exec(&chars_of(name)).len() == 0
}

} // verus!

verus! {

/// How many cards of one forbidden list have each restriction: forbidden
/// (0), limited (1), semi-limited (2) and unlimited (3).
#[derive(Debug)]
pub struct ForbiddenListSummary {
    pub label: String,
    pub forbidden: usize,
    pub limited: usize,
    pub semi_limited: usize,
    pub unlimited: usize,
}

/// How many of `values` are `v`.
pub open spec fn count_of(values: Seq<i64>, v: i64) -> nat
    decreases values.len(),
{
    if values.len() == 0 {
        0
    } else {
        count_of(values.drop_last(), v) + if values.last() == v { 1nat } else { 0nat }
    }
}

pub proof fn lemma_count_of_bound(values: Seq<i64>, v: i64)
    ensures
        count_of(values, v) <= values.len(),
    decreases values.len(),
{
    if values.len() > 0 {
        lemma_count_of_bound(values.drop_last(), v);
    }
}

/// Counts the restrictions of one forbidden list.
pub fn summarize_forbidden_list(label: &str, values: &[i64]) -> (res: ForbiddenListSummary)
    ensures
        res.label@ == label@,
        res.forbidden == count_of(values@, 0),
        res.limited == count_of(values@, 1),
        res.semi_limited == count_of(values@, 2),
        res.unlimited == count_of(values@, 3),
{
    let mut counts: [usize; 4] = [0, 0, 0, 0];
    let mut i: usize = 0;
    while i < values.len()
        invariant
            0 <= i <= values@.len(),
            counts@.len() == 4,
            counts@[0] == count_of(values@.take(i as int), 0),
            counts@[1] == count_of(values@.take(i as int), 1),
            counts@[2] == count_of(values@.take(i as int), 2),
            counts@[3] == count_of(values@.take(i as int), 3),
        decreases values@.len() - i,
    {
        proof {
            assert(values@.take(i + 1).drop_last() =~= values@.take(i as int));
            lemma_count_of_bound(values@.take(i as int), 0);
            lemma_count_of_bound(values@.take(i as int), 1);
            lemma_count_of_bound(values@.take(i as int), 2);
            lemma_count_of_bound(values@.take(i as int), 3);
        }
        let v = values[i];
        if 0 <= v && v <= 3 {
            let k = v as usize;
            counts.set(k, counts[k] + 1);
        }
        i += 1;
    }
    proof {
        assert(values@.take(values@.len() as int) =~= values@);
    }
    ForbiddenListSummary {
        label: crate::chars::string_from_chars(&chars_of(label)),
        forbidden: counts[0],
        limited: counts[1],
        semi_limited: counts[2],
        unlimited: counts[3],
    }
}

/// How the forbidden-list counts of a report treat alias cards: counted
/// (`ignore_aliases` false, the default) or left out.
#[derive(Debug, Clone, Copy, PartialEq, Eq, Structural)]
pub struct LfStatisticsOptions {
    pub ignore_aliases: bool,
}

impl Default for LfStatisticsOptions {
    fn default() -> (res: Self)
        ensures
            !res.ignore_aliases,
    {
        LfStatisticsOptions { ignore_aliases: false }
    }
}

/// What a run wrote for one environment.
#[derive(Debug)]
pub struct DatasetReport {
    pub environment: crate::environment::Environment,
    pub path: String,
    pub cards_written: usize,
    pub cards_skipped: usize,
    pub lf_statistics_options: LfStatisticsOptions,
    pub lf_summaries: Vec<ForbiddenListSummary>,
    pub image_summary: crate::cards::images::ImageCheckSummary,
    pub image_failures: Vec<crate::cards::images::ImageCheckFailure>,
}

} // verus!
