//! OT attributes and card types from raw database codes.
use vstd::prelude::*;

use crate::cards::mappings::{
    attribute_value, map_attribute_value, map_race_name, race_name, OtFieldMappings,
};
use crate::cards::{
    card_kind_of, first_label_for, first_label_for_exec, has_label, has_type, labels_view, lemma_labels_view_push,
    matched_flag_names, matched_names, or_masks, or_masks_exec, single_primary,
    single_primary_exec, CardKind,
};

verus! {

/// Every type bit that some OT type name stands for.
pub open spec fn ot_known_type_mask(m: OtFieldMappings) -> i64 {
    or_masks(m.subtype_flags@, or_masks(m.primary_type_flags@, 0))
}

/// The OT primary type: the single primary bit that is set; with no primary
/// bit, a monster when the inferred-monster bit and at least two subtype
/// bits are set.
pub open spec fn ot_primary_type(m: OtFieldMappings, type_flags: i64) -> Option<(CardKind, Seq<char>)> {
    let hits = crate::cards::matched_flags(m.primary_type_flags@, type_flags);
    if hits.len() == 0 {
        if type_flags & m.inferred_monster_type_mask != 0 && matched_names(
            m.subtype_flags@,
            type_flags,
        ).len() > 1 {
            match first_label_for(m.primary_type_flags@, CardKind::Monster) {
                Some(label) => Some((CardKind::Monster, label)),
                None => None,
            }
        } else {
            None
        }
    } else {
        single_primary(m.primary_type_flags@, type_flags)
    }
}

/// The OT type list of a card: its primary type name, for a monster its
/// race when the race code is known, then its subtype names from the
/// subtype table's order. A negative or unknown bit, a missing or ambiguous
/// primary type, and a monster whose only subtype is `衍生物` (token) have
/// no type list.
pub open spec fn ot_card_types(m: OtFieldMappings, type_flags: i64, race_code: i64) -> Option<Seq<Seq<char>>> {
    if type_flags < 0 || type_flags & !ot_known_type_mask(m) != 0 {
        None
    } else {
        match ot_primary_type(m, type_flags) {
            None => None,
            Some((kind, label)) => {
                let subtypes = matched_names(m.subtype_flags@, type_flags);
                if kind == CardKind::Monster && subtypes.len() == 1 && has_label(subtypes, "衍生物"@) {
                    None
                } else {
                    let head = if kind == CardKind::Monster {
                        match race_name(m.race_codes@, race_code) {
                            Some(race) => seq![label, race],
                            None => seq![label],
                        }
                    } else {
                        seq![label]
                    };
                    Some(head + subtypes)
                }
            },
        }
    }
}

/// The attribute value for a raw attribute code.
pub fn map_attribute(mappings: &OtFieldMappings, attribute_code: i64) -> (res: Option<i64>)
    ensures
        res == attribute_value(mappings.attribute_codes@, attribute_code),
{
    map_attribute_value(&mappings.attribute_codes, attribute_code)
}

/// The race name for a raw race code.
pub fn map_race(mappings: &OtFieldMappings, race_code: i64) -> (res: Option<String>)
    ensures
        match res {
            Some(name) => race_name(mappings.race_codes@, race_code) == Some(name@),
            None => race_name(mappings.race_codes@, race_code) is None,
        },
{
    map_race_name(&mappings.race_codes, race_code)
}

/// Every type bit that some type name stands for.
pub fn known_type_mask(mappings: &OtFieldMappings) -> (res: i64)
    ensures
        res == ot_known_type_mask(*mappings),
{
    let primary = or_masks_exec(&mappings.primary_type_flags, 0);
    or_masks_exec(&mappings.subtype_flags, primary)
}

/// The name of the first primary type that stands for `kind`.
pub fn primary_label(mappings: &OtFieldMappings, kind: CardKind) -> (res: Option<String>)
    ensures
        match res {
            Some(label) => first_label_for(mappings.primary_type_flags@, kind) == Some(label@),
            None => first_label_for(mappings.primary_type_flags@, kind) is None,
        },
{
    first_label_for_exec(&mappings.primary_type_flags, kind)
}

/// The subtype names whose bit is set, in subtype-table order.
pub fn matched_subtype_flags(mappings: &OtFieldMappings, type_flags: i64) -> (res: Vec<String>)
    ensures
        labels_view(res@) == matched_names(mappings.subtype_flags@, type_flags),
{
    matched_flag_names(&mappings.subtype_flags, type_flags)
}

/// The primary type of a card (see `ot_primary_type`).
pub fn primary_type(mappings: &OtFieldMappings, type_flags: i64) -> (res: Option<(CardKind, String)>)
    ensures
        match res {
            Some((kind, label)) => ot_primary_type(*mappings, type_flags) == Some((kind, label@)),
            None => ot_primary_type(*mappings, type_flags) is None,
        },
{
    let primary = single_primary_exec(&mappings.primary_type_flags, type_flags);
    let hits = matched_flag_names(&mappings.primary_type_flags, type_flags);
    if hits.len() > 0 {
        proof {
            assert(labels_view(hits@).len() == hits@.len());
        }
        return primary;
    }
    proof {
        assert(labels_view(hits@).len() == hits@.len());
    }
    if type_flags & mappings.inferred_monster_type_mask != 0
        && matched_subtype_flags(mappings, type_flags).len() > 1 {
        match primary_label(mappings, CardKind::Monster) {
            Some(label) => Some((CardKind::Monster, label)),
            None => None,
        }
    } else {
        None
    }
}

/// The OT type list of a card (see `ot_card_types`).
pub fn map_card_types(mappings: &OtFieldMappings, type_flags: i64, race_code: i64) -> (res: Option<Vec<String>>)
    ensures
        match res {
            Some(types) => ot_card_types(*mappings, type_flags, race_code) == Some(labels_view(types@)),
            None => ot_card_types(*mappings, type_flags, race_code) is None,
        },
{
    if type_flags < 0 {
        return None;
    }
    if type_flags & !known_type_mask(mappings) != 0 {
        return None;
    }
    let (primary, primary_label) = match primary_type(mappings, type_flags) {
        Some(p) => p,
        None => return None,
    };
    let subtype_flags = matched_subtype_flags(mappings, type_flags);
    proof {
        assert(labels_view(subtype_flags@).len() == subtype_flags@.len());
    }
    if primary == CardKind::Monster && subtype_flags.len() == 1 && has_type(&subtype_flags, "衍生物") {
        return None;
    }
    let mut card_type: Vec<String> = Vec::new();
    card_type.push(primary_label);
    if primary == CardKind::Monster {
        match map_race(mappings, race_code) {
            Some(race) => card_type.push(race),
            None => {},
        }
    }
    let ghost head = labels_view(card_type@);
    let mut i: usize = 0;
    while i < subtype_flags.len()
        invariant
            0 <= i <= subtype_flags@.len(),
            labels_view(card_type@) == head + labels_view(subtype_flags@).take(i as int),
        decreases subtype_flags@.len() - i,
    {
        let ghost before = card_type@;
        let name = subtype_flags[i].clone();
        card_type.push(name);
        i += 1;
        proof {
            lemma_labels_view_push(before, name);
            assert(labels_view(subtype_flags@)[i - 1] == name@);
            assert(labels_view(card_type@) =~= head + labels_view(subtype_flags@).take(i as int));
        }
    }
    proof {
        assert(labels_view(subtype_flags@).take(subtype_flags@.len() as int) =~= labels_view(subtype_flags@));
        let expected = ot_card_types(*mappings, type_flags, race_code);
        if primary == CardKind::Monster {
            match race_name(mappings.race_codes@, race_code) {
                Some(r) => assert(head =~= seq![primary_label@, r]),
                None => assert(head =~= seq![primary_label@]),
            }
        } else {
            assert(head =~= seq![primary_label@]);
        }
    }
    Some(card_type)
}

} // verus!

verus! {

/// The OT type list of a card starts with its primary type's name; a
/// monster's list then gives its race name when its race code maps to
/// one, whatever its subtypes; the subtype names, in the subtype table's
/// order, come last.
pub proof fn lemma_ot_type_list_shape(m: OtFieldMappings, type_flags: i64, race_code: i64, types: Seq<Seq<char>>, kind: CardKind, label: Seq<char>)
    requires
        ot_card_types(m, type_flags, race_code) == Some(types),
        ot_primary_type(m, type_flags) == Some((kind, label)),
    ensures
        types.len() >= 1,
        types[0] == label,
        kind == CardKind::Monster ==> match race_name(m.race_codes@, race_code) {
            Some(race) => types.len() >= 2 && types[1] == race && types.skip(2) == matched_names(m.subtype_flags@, type_flags),
            None => types.skip(1) == matched_names(m.subtype_flags@, type_flags),
        },
        kind != CardKind::Monster ==> types.skip(1) == matched_names(m.subtype_flags@, type_flags),
{
    let subtypes = matched_names(m.subtype_flags@, type_flags);
    if kind == CardKind::Monster {
        match race_name(m.race_codes@, race_code) {
            Some(race) => {
                assert(types == seq![label, race] + subtypes);
                assert(types.skip(2) =~= subtypes);
            },
            None => {
                assert(types == seq![label] + subtypes);
                assert(types.skip(1) =~= subtypes);
            },
        }
    } else {
        assert(types == seq![label] + subtypes);
        assert(types.skip(1) =~= subtypes);
    }
}

/// A card has an OT type list exactly when its flags are non-negative with
/// no unknown bit, its primary type is found, and it is not a monster whose
/// only subtype is `衍生物` (token).
pub proof fn lemma_ot_type_list_exists(m: OtFieldMappings, type_flags: i64, race_code: i64)
    ensures
        ot_card_types(m, type_flags, race_code) is Some <==> (type_flags >= 0 && type_flags & !ot_known_type_mask(m) == 0
            && match ot_primary_type(m, type_flags) {
            Some((kind, _)) => !(kind == CardKind::Monster && matched_names(m.subtype_flags@, type_flags).len() == 1
                && has_label(matched_names(m.subtype_flags@, type_flags), "衍生物"@)),
            None => false,
        }),
{
}

} // verus!
