//! RD attributes, legend flag and card types from raw database codes.
use vstd::prelude::*;

use crate::cards::mappings::{
    attribute_value, map_attribute_value, map_race_name, race_name, RdFieldMappings, TypeFlag,
};
use crate::cards::{
    labels_view, lemma_labels_view_push, or_masks, or_masks_exec, single_primary,
    single_primary_exec, CardKind,
};

verus! {

/// Every type bit that some RD type name stands for, and the legend bit.
pub open spec fn rd_known_type_mask(m: RdFieldMappings) -> i64 {
    or_masks(m.subtype_flags@, or_masks(m.primary_type_flags@, m.legend_type_mask))
}

/// A ritual monster does not also list the fusion subtype.
pub open spec fn rd_suppressed(m: RdFieldMappings, type_flags: i64, kind: CardKind, flag: TypeFlag) -> bool {
    kind == CardKind::Monster && type_flags & m.ritual_type_mask != 0 && flag.mask == m.fusion_type_mask
}

/// The names of the subtypes among `flags` whose bit is set, in order,
/// without the fusion subtype of a ritual monster.
pub open spec fn rd_subtype_names(m: RdFieldMappings, flags: Seq<TypeFlag>, type_flags: i64, kind: CardKind) -> Seq<Seq<char>>
    decreases flags.len(),
{
    if flags.len() == 0 {
        seq![]
    } else {
        let p = rd_subtype_names(m, flags.drop_last(), type_flags, kind);
        let f = flags.last();
        if !rd_suppressed(m, type_flags, kind, f) && type_flags & f.mask != 0 {
            p.push(f.output_name@)
        } else {
            p
        }
    }
}

/// The RD type list of a card: its primary type name, for a monster its
/// race, then its subtype names from the subtype table's order. A negative
/// or unknown bit, a missing or ambiguous primary type, and a monster whose
/// race code is unknown have no type list.
pub open spec fn rd_card_types(m: RdFieldMappings, type_flags: i64, race_code: i64) -> Option<Seq<Seq<char>>> {
    if type_flags < 0 || type_flags & !rd_known_type_mask(m) != 0 {
        None
    } else {
        match single_primary(m.primary_type_flags@, type_flags) {
            None => None,
            Some((kind, label)) => {
                let subtypes = rd_subtype_names(m, m.subtype_flags@, type_flags, kind);
                if kind == CardKind::Monster {
                    match race_name(m.race_codes@, race_code) {
                        Some(race) => Some(seq![label, race] + subtypes),
                        None => None,
                    }
                } else {
                    Some(seq![label] + subtypes)
                }
            },
        }
    }
}

/// The attribute value for a raw attribute code.
pub fn map_attribute(mappings: &RdFieldMappings, attribute_code: i64) -> (res: Option<i64>)
    ensures
        res == attribute_value(mappings.attribute_codes@, attribute_code),
{
    map_attribute_value(&mappings.attribute_codes, attribute_code)
}

/// Whether the legend bit is set.
pub fn is_legend(mappings: &RdFieldMappings, type_flags: i64) -> (res: bool)
    ensures
        res == (type_flags & mappings.legend_type_mask != 0),
{
    type_flags & mappings.legend_type_mask != 0
}

/// The race name for a raw race code.
pub fn map_race(mappings: &RdFieldMappings, race_code: i64) -> (res: Option<String>)
    ensures
        match res {
            Some(name) => race_name(mappings.race_codes@, race_code) == Some(name@),
            None => race_name(mappings.race_codes@, race_code) is None,
        },
{
    map_race_name(&mappings.race_codes, race_code)
}

/// Every type bit that some type name stands for, and the legend bit.
pub fn known_type_mask(mappings: &RdFieldMappings) -> (res: i64)
    ensures
        res == rd_known_type_mask(*mappings),
{
    let primary = or_masks_exec(&mappings.primary_type_flags, mappings.legend_type_mask);
    or_masks_exec(&mappings.subtype_flags, primary)
}

/// The single primary type among the set bits.
pub fn primary_type(mappings: &RdFieldMappings, type_flags: i64) -> (res: Option<(CardKind, String)>)
    ensures
        match res {
            Some((kind, label)) => single_primary(mappings.primary_type_flags@, type_flags) == Some((kind, label@)),
            None => single_primary(mappings.primary_type_flags@, type_flags) is None,
        },
{
    single_primary_exec(&mappings.primary_type_flags, type_flags)
}

/// The subtype names whose bit is set, in subtype-table order, without the
/// fusion subtype of a ritual monster.
pub fn matched_subtype_flags(mappings: &RdFieldMappings, type_flags: i64, primary: CardKind) -> (res: Vec<String>)
    ensures
        labels_view(res@) == rd_subtype_names(*mappings, mappings.subtype_flags@, type_flags, primary),
{
    let flags = &mappings.subtype_flags;
    let mut names: Vec<String> = Vec::new();
    let mut i: usize = 0;
    while i < flags.len()
        invariant
            0 <= i <= flags@.len(),
            flags == &mappings.subtype_flags,
            labels_view(names@) == rd_subtype_names(*mappings, flags@.take(i as int), type_flags, primary),
        decreases flags@.len() - i,
    {
        let ghost before = names@;
        proof {
            assert(flags@.take(i + 1).drop_last() =~= flags@.take(i as int));
            assert(flags@.take(i + 1).last() == flags@[i as int]);
        }
        let flag = &flags[i];
        let suppressed = primary == CardKind::Monster && type_flags & mappings.ritual_type_mask != 0
            && flag.mask == mappings.fusion_type_mask;
        if !suppressed && type_flags & flag.mask != 0 {
            let name = flag.output_name.clone();
            names.push(name);
            proof {
                lemma_labels_view_push(before, name);
            }
        }
        i += 1;
    }
    proof {
        assert(flags@.take(flags@.len() as int) =~= flags@);
    }
    names
}

/// The RD type list of a card (see `rd_card_types`).
pub fn map_card_types(mappings: &RdFieldMappings, type_flags: i64, race_code: i64) -> (res: Option<Vec<String>>)
    ensures
        match res {
            Some(types) => rd_card_types(*mappings, type_flags, race_code) == Some(labels_view(types@)),
            None => rd_card_types(*mappings, type_flags, race_code) is None,
        },
{
    if type_flags < 0 {
        return None;
    }
    if type_flags & !known_type_mask(mappings) != 0 {
        return None;
    }
    let (primary, primary_label) = match primary_type(mappings, type_flags) {
        Some(p) => p,
        None => return None,
    };
    let mut card_type: Vec<String> = Vec::new();
    card_type.push(primary_label);
    if primary == CardKind::Monster {
        match map_race(mappings, race_code) {
            Some(race) => card_type.push(race),
            None => return None,
        }
    }
    let subtype_flags = matched_subtype_flags(mappings, type_flags, primary);
    let ghost head = labels_view(card_type@);
    proof {
        lemma_labels_view_push(seq![], primary_label);
    }
    let mut i: usize = 0;
    while i < subtype_flags.len()
        invariant
            0 <= i <= subtype_flags@.len(),
            labels_view(card_type@) == head + labels_view(subtype_flags@).take(i as int),
        decreases subtype_flags@.len() - i,
    {
        let ghost before = card_type@;
        let name = subtype_flags[i].clone();
        card_type.push(name);
        i += 1;
        proof {
            lemma_labels_view_push(before, name);
            assert(labels_view(subtype_flags@)[i - 1] == name@);
            assert(labels_view(card_type@) =~= head + labels_view(subtype_flags@).take(i as int));
        }
    }
    proof {
        assert(labels_view(subtype_flags@).take(subtype_flags@.len() as int) =~= labels_view(subtype_flags@));
        if primary == CardKind::Monster {
            match race_name(mappings.race_codes@, race_code) {
                Some(r) => assert(head =~= seq![primary_label@, r]),
                None => {},
            }
        } else {
            assert(head =~= seq![primary_label@]);
        }
    }
    Some(card_type)
}

} // verus!

verus! {

/// The RD type list of a card starts with its primary type's name; a
/// monster's list then gives its race name (a monster whose race code maps
/// to no race has no list); the subtype names come last.
pub proof fn lemma_rd_type_list_shape(m: RdFieldMappings, type_flags: i64, race_code: i64, types: Seq<Seq<char>>, kind: CardKind, label: Seq<char>)
    requires
        rd_card_types(m, type_flags, race_code) == Some(types),
        single_primary(m.primary_type_flags@, type_flags) == Some((kind, label)),
    ensures
        types.len() >= 1,
        types[0] == label,
        kind == CardKind::Monster ==> (race_name(m.race_codes@, race_code) matches Some(race) && types.len() >= 2
            && types[1] == race && types.skip(2) == rd_subtype_names(m, m.subtype_flags@, type_flags, kind)),
        kind != CardKind::Monster ==> types.skip(1) == rd_subtype_names(m, m.subtype_flags@, type_flags, kind),
{
    let subtypes = rd_subtype_names(m, m.subtype_flags@, type_flags, kind);
    if kind == CardKind::Monster {
        let race = race_name(m.race_codes@, race_code).unwrap();
        assert(types == seq![label, race] + subtypes);
        assert(types.skip(2) =~= subtypes);
    } else {
        assert(types == seq![label] + subtypes);
        assert(types.skip(1) =~= subtypes);
    }
}

} // verus!
