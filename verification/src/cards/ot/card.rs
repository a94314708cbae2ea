//! OT card records built from database rows.
use vstd::prelude::*;

use crate::cards::mappings::{attribute_value, OtFieldMappings};
use crate::cards::ot::classification::{map_attribute, map_card_types, ot_card_types};
use crate::cards::ot::normalization::{
    normalize_atk, normalize_def, normalize_description, normalize_level, normalize_link_marker,
    normalize_link_value, normalize_pendulum_description, normalize_pendulum_scale,
    normalize_rank, ot_atk, ot_def, ot_description, ot_level, ot_link_markers, ot_link_value,
    ot_pendulum_description, ot_pendulum_scale, ot_rank,
};
use crate::cards::ot::restrictions::ForbiddenLists;
use crate::cards::restrictions::restriction_of;
use crate::cards::{is_blank, labels_view, opt_string_view, opt_vec_view, CardRejection};
use crate::chars::trim;

verus! {

/// One row of the OT card database, as read.
#[derive(Debug, Clone)]
pub struct DatabaseRow {
    pub id: i64,
    pub name: Option<String>,
    pub description: Option<String>,
    pub attribute_code: i64,
    pub alias: i64,
    pub type_flags: i64,
    pub race_code: i64,
    pub atk: i64,
    pub defense: i64,
    pub level: i64,
}

/// A normalized OT card.
#[derive(Debug)]
pub struct Card {
    pub id: i64,
    pub name: String,
    pub attribute: i64,
    pub image: i64,
    pub description: String,
    pub pendulum_description: Option<String>,
    pub alias: i64,
    pub card_type: Vec<String>,
    pub restrictions: Vec<i64>,
    pub atk: Option<i64>,
    pub def: Option<i64>,
    pub level: Option<i64>,
    pub rank: Option<i64>,
    pub pendulum_scale: Option<i64>,
    pub link_value: Option<i64>,
    pub link_markers: Option<Vec<i64>>,
}

/// The first check that a row fails, in the order the fields are read: the
/// ID must be positive, the name present and not blank, the description
/// present, the attribute known, the alias not negative, the type bits
/// known, and then each derived field valid for the card's types.
pub open spec fn ot_rejection(row: DatabaseRow, m: OtFieldMappings) -> Option<CardRejection> {
    if row.id <= 0 {
        Some(CardRejection::NonPositiveId)
    } else if row.name is None {
        Some(CardRejection::MissingName)
    } else if trim(row.name.unwrap()@).len() == 0 {
        Some(CardRejection::BlankName)
    } else if row.description is None {
        Some(CardRejection::MissingDescription)
    } else if attribute_value(m.attribute_codes@, row.attribute_code) is None {
        Some(CardRejection::UnsupportedAttribute)
    } else if row.alias < 0 {
        Some(CardRejection::NegativeAlias)
    } else {
        match ot_card_types(m, row.type_flags, row.race_code) {
            None => Some(CardRejection::UnsupportedType),
            Some(types) => {
                let d = row.description.unwrap()@;
                if ot_description(d, types) is None {
                    Some(CardRejection::InvalidDescription)
                } else if ot_pendulum_description(d, types) is None {
                    Some(CardRejection::InvalidPendulumDescription)
                } else if ot_atk(row.atk, types) is None {
                    Some(CardRejection::InvalidAtk)
                } else if ot_def(row.defense, types) is None {
                    Some(CardRejection::InvalidDef)
                } else if ot_level(row.level, types) is None {
                    Some(CardRejection::InvalidLevel)
                } else if ot_rank(row.level, types) is None {
                    Some(CardRejection::InvalidRank)
                } else if ot_pendulum_scale(row.level, types) is None {
                    Some(CardRejection::InvalidPendulumScale)
                } else if ot_link_value(row.level, types) is None {
                    Some(CardRejection::InvalidLinkValue)
                } else if ot_link_markers(row.defense, types, m.link_marker_flags@) is None {
                    Some(CardRejection::InvalidLinkMarkers)
                } else {
                    None
                }
            },
        }
    }
}

impl Card {
    /// The card with the given image ID.
    pub fn with_image(self, image: i64) -> (res: Card)
        ensures
            res == (Card { image, ..self }),
    {
        Card { image, ..self }
    }
}

/// Builds an OT card from a database row, or says which check it fails
/// (see `ot_rejection`). The card's image is its own ID.
pub fn build_card(row: DatabaseRow, forbidden_lists: &ForbiddenLists, mappings: &OtFieldMappings) -> (res: Result<Card, CardRejection>)
    ensures
        match res {
            Err(r) => ot_rejection(row, *mappings) == Some(r),
            Ok(card) => {
                let types = ot_card_types(*mappings, row.type_flags, row.race_code).unwrap();
                let d = row.description.unwrap()@;
                &&& ot_rejection(row, *mappings) is None
                &&& card.id == row.id
                &&& card.name@ == row.name.unwrap()@
                &&& Some(card.attribute) == attribute_value(mappings.attribute_codes@, row.attribute_code)
                &&& card.image == row.id
                &&& Some(card.description@) == ot_description(d, types)
                &&& Some(opt_string_view(card.pendulum_description)) == ot_pendulum_description(d, types)
                &&& card.alias == row.alias
                &&& labels_view(card.card_type@) == types
                &&& card.restrictions@ == seq![
                    restriction_of(forbidden_lists.ocg_view(), row.id, row.alias),
                    restriction_of(forbidden_lists.tcg_view(), row.id, row.alias),
                ]
                &&& Some(card.atk) == ot_atk(row.atk, types)
                &&& Some(card.def) == ot_def(row.defense, types)
                &&& Some(card.level) == ot_level(row.level, types)
                &&& Some(card.rank) == ot_rank(row.level, types)
                &&& Some(card.pendulum_scale) == ot_pendulum_scale(row.level, types)
                &&& Some(card.link_value) == ot_link_value(row.level, types)
                &&& Some(opt_vec_view(card.link_markers)) == ot_link_markers(row.defense, types, mappings.link_marker_flags@)
            },
        },
{
    if row.id <= 0 {
        return Err(CardRejection::NonPositiveId);
    }
    let name = match row.name {
        Some(name) => name,
        None => return Err(CardRejection::MissingName),
    };
    if is_blank(name.as_str()) {
        return Err(CardRejection::BlankName);
    }
    let raw_description = match row.description {
        Some(d) => d,
        None => return Err(CardRejection::MissingDescription),
    };
    let attribute = match map_attribute(mappings, row.attribute_code) {
        Some(a) => a,
        None => return Err(CardRejection::UnsupportedAttribute),
    };
    if row.alias < 0 {
        return Err(CardRejection::NegativeAlias);
    }
    let card_type = match map_card_types(mappings, row.type_flags, row.race_code) {
        Some(t) => t,
        None => return Err(CardRejection::UnsupportedType),
    };
    let description = match normalize_description(raw_description.as_str(), &card_type) {
        Some(d) => d,
        None => return Err(CardRejection::InvalidDescription),
    };
    let pendulum_description = match normalize_pendulum_description(raw_description.as_str(), &card_type) {
        Some(p) => p,
        None => return Err(CardRejection::InvalidPendulumDescription),
    };
    let atk = match normalize_atk(row.atk, &card_type) {
        Some(v) => v,
        None => return Err(CardRejection::InvalidAtk),
    };
    let def = match normalize_def(row.defense, &card_type) {
        Some(v) => v,
        None => return Err(CardRejection::InvalidDef),
    };
    let level = match normalize_level(row.level, &card_type) {
        Some(v) => v,
        None => return Err(CardRejection::InvalidLevel),
    };
    let rank = match normalize_rank(row.level, &card_type) {
        Some(v) => v,
        None => return Err(CardRejection::InvalidRank),
    };
    let pendulum_scale = match normalize_pendulum_scale(row.level, &card_type) {
        Some(v) => v,
        None => return Err(CardRejection::InvalidPendulumScale),
    };
    let link_value = match normalize_link_value(row.level, &card_type) {
        Some(v) => v,
        None => return Err(CardRejection::InvalidLinkValue),
    };
    let link_markers = match normalize_link_marker(row.defense, &card_type, &mappings.link_marker_flags) {
        Some(v) => v,
        None => return Err(CardRejection::InvalidLinkMarkers),
    };
    let restrictions = forbidden_lists.for_card(row.id, row.alias);
    Ok(Card {
        id: row.id,
        name,
        attribute,
        image: row.id,
        description,
        pendulum_description,
        alias: row.alias,
        card_type,
        restrictions,
        atk,
        def,
        level,
        rank,
        pendulum_scale,
        link_value,
        link_markers,
    })
}


/// Settles a built card once its image is resolved: kept with that image,
/// or counted as skipped when it has none.
pub fn settle_card(collection: &mut crate::cards::rejection::CardCollection<Card>, card: Card, image: Option<i64>)
    requires
        old(collection).skipped < usize::MAX,
    ensures
        match image {
            Some(i) => final(collection).cards@ == old(collection).cards@.push(Card { image: i, ..card })
                && final(collection).skipped == old(collection).skipped,
            None => final(collection).cards@ == old(collection).cards@ && final(collection).skipped
                == old(collection).skipped + 1,
        },
{
    match image {
        Some(i) => collection.keep(card.with_image(i)),
        None => collection.skip(),
    }
}

/// The OCG restrictions of the cards, in order.
pub open spec fn ocg_values(cards: Seq<Card>) -> Seq<i64> {
    Seq::new(cards.len(), |i: int| if cards[i].restrictions@.len() > 0 { cards[i].restrictions@[0] } else { 3 })
}

/// The TCG restrictions of the cards, in order.
pub open spec fn tcg_values(cards: Seq<Card>) -> Seq<i64> {
    Seq::new(cards.len(), |i: int| if cards[i].restrictions@.len() > 1 { cards[i].restrictions@[1] } else { 3 })
}

/// The counts of the OCG list and of the TCG list over the written cards:
/// each written card counts once, by the value it carries in the dataset
/// (the `lf` field, in which its alias's entry is already considered).
/// Alias cards count like any other, as the report's `LF aliases included`
/// line says of the default statistics options.
pub fn lf_summaries(cards: &[Card]) -> (res: Vec<crate::cards::ForbiddenListSummary>)
    ensures
        res@.len() == 2,
        res@[0].label@ == "OCG"@,
        res@[0].forbidden == crate::cards::count_of(ocg_values(cards@), 0),
        res@[0].limited == crate::cards::count_of(ocg_values(cards@), 1),
        res@[0].semi_limited == crate::cards::count_of(ocg_values(cards@), 2),
        res@[0].unlimited == crate::cards::count_of(ocg_values(cards@), 3),
        res@[1].label@ == "TCG"@,
        res@[1].forbidden == crate::cards::count_of(tcg_values(cards@), 0),
        res@[1].limited == crate::cards::count_of(tcg_values(cards@), 1),
        res@[1].semi_limited == crate::cards::count_of(tcg_values(cards@), 2),
        res@[1].unlimited == crate::cards::count_of(tcg_values(cards@), 3),
{
    let mut ocg: Vec<i64> = Vec::new();
    let mut tcg: Vec<i64> = Vec::new();
    let mut i: usize = 0;
    while i < cards.len()
        invariant
            0 <= i <= cards@.len(),
            ocg@ == ocg_values(cards@).take(i as int),
            tcg@ == tcg_values(cards@).take(i as int),
        decreases cards@.len() - i,
    {
        let r = &cards[i].restrictions;
        ocg.push(if r.len() > 0 { r[0] } else { 3 });
        tcg.push(if r.len() > 1 { r[1] } else { 3 });
        i += 1;
        proof {
            assert(ocg@ =~= ocg_values(cards@).take(i as int));
            assert(tcg@ =~= tcg_values(cards@).take(i as int));
        }
    }
    proof {
        assert(ocg_values(cards@).take(cards@.len() as int) =~= ocg_values(cards@));
        assert(tcg_values(cards@).take(cards@.len() as int) =~= tcg_values(cards@));
    }
    let mut res: Vec<crate::cards::ForbiddenListSummary> = Vec::new();
    res.push(crate::cards::summarize_forbidden_list("OCG", ocg.as_slice()));
    res.push(crate::cards::summarize_forbidden_list("TCG", tcg.as_slice()));
    res
}

/// No cards, no counts: every column of both lists is 0.
pub proof fn lemma_lf_counts_start_empty(v: i64)
    ensures
        crate::cards::count_of(ocg_values(Seq::<Card>::empty()), v) == 0,
        crate::cards::count_of(tcg_values(Seq::<Card>::empty()), v) == 0,
{
    assert(ocg_values(Seq::<Card>::empty()) =~= Seq::<i64>::empty());
    assert(tcg_values(Seq::<Card>::empty()) =~= Seq::<i64>::empty());
}

/// One more card whose `lf` is `[ocg, tcg]` adds one to the OCG list's
/// column for its first value and one to the TCG list's column for its
/// second, and nothing to any other column.
pub proof fn lemma_lf_counts_add_card(cards: Seq<Card>, card: Card, v: i64)
    requires
        card.restrictions@.len() >= 2,
    ensures
        crate::cards::count_of(ocg_values(cards.push(card)), v) == crate::cards::count_of(ocg_values(cards), v)
            + if card.restrictions@[0] == v { 1nat } else { 0nat },
        crate::cards::count_of(tcg_values(cards.push(card)), v) == crate::cards::count_of(tcg_values(cards), v)
            + if card.restrictions@[1] == v { 1nat } else { 0nat },
{
    let o = ocg_values(cards.push(card));
    let t = tcg_values(cards.push(card));
    assert(o.drop_last() =~= ocg_values(cards));
    assert(t.drop_last() =~= tcg_values(cards));
    assert(o.last() == card.restrictions@[0]);
    assert(t.last() == card.restrictions@[1]);
}
} // verus!
