//! RD card records built from database rows.
use vstd::prelude::*;

use crate::cards::mappings::{attribute_value, RdFieldMappings};
use crate::cards::rd::classification::{is_legend, map_attribute, map_card_types, rd_card_types};
use crate::cards::rd::normalization::{
    maximum_attack, monster_value, normalize_description, normalize_maximum,
    normalize_maximum_atk, rd_description, rd_maximum,
};
use crate::cards::rd::restrictions::ForbiddenList;
use crate::cards::restrictions::restriction_of;
use crate::cards::{has_label, is_blank, labels_view, CardRejection};
use crate::chars::trim;

verus! {

/// One row of the RD card database, as read.
#[derive(Debug, Clone)]
pub struct DatabaseRow {
    pub id: i64,
    pub name: Option<String>,
    pub description: Option<String>,
    pub attribute_code: i64,
    pub type_flags: i64,
    pub race_code: i64,
    pub alias: i64,
    pub atk: i64,
    pub defense: i64,
    pub level: i64,
}

/// A normalized RD card.
#[derive(Debug)]
pub struct Card {
    pub id: i64,
    pub name: String,
    pub attribute: i64,
    pub image: i64,
    pub description: String,
    pub legend: bool,
    pub card_type: Vec<String>,
    pub restriction: i64,
    pub alias: i64,
    pub atk: Option<i64>,
    pub def: Option<i64>,
    pub level: Option<i64>,
    pub maximum: Option<i64>,
    pub maximum_atk: Option<i64>,
}

/// The maximum attack of a card at the given maximum position.
pub open spec fn rd_maximum_atk(maximum: Option<i64>, raw: Seq<char>) -> Option<Option<i64>> {
    if maximum != Some(1i64) {
        Some(None)
    } else {
        match maximum_attack(raw) {
            Some(a) => Some(Some(a)),
            None => None,
        }
    }
}

/// A monster's stat, absent for other cards.
pub open spec fn rd_stat(value: i64, types: Seq<Seq<char>>) -> Option<i64> {
    if has_label(types, "怪兽"@) { Some(value) } else { None }
}

/// The first check that a row fails, in the order the fields are read: the
/// ID must be positive, the name present and not blank, the description
/// present, the attribute known, the alias not negative, the type bits and
/// race known, the maximum position clear and, at position 1, the maximum
/// attack stated.
pub open spec fn rd_rejection(row: DatabaseRow, m: RdFieldMappings) -> Option<CardRejection> {
    if row.id <= 0 {
        Some(CardRejection::NonPositiveId)
    } else if row.name is None {
        Some(CardRejection::MissingName)
    } else if trim(row.name.unwrap()@).len() == 0 {
        Some(CardRejection::BlankName)
    } else if row.description is None {
        Some(CardRejection::MissingDescription)
    } else if attribute_value(m.attribute_codes@, row.attribute_code) is None {
        Some(CardRejection::UnsupportedAttribute)
    } else if row.alias < 0 {
        Some(CardRejection::NegativeAlias)
    } else {
        match rd_card_types(m, row.type_flags, row.race_code) {
            None => Some(CardRejection::UnsupportedType),
            Some(types) => {
                let d = row.description.unwrap()@;
                match rd_maximum(m.maximum_position_markers@, row.name.unwrap()@, types, d) {
                    None => Some(CardRejection::InvalidMaximum),
                    Some(maximum) => if rd_maximum_atk(maximum, d) is None {
                        Some(CardRejection::InvalidMaximumAtk)
                    } else {
                        None
                    },
                }
            },
        }
    }
}

impl Card {
    /// The card with the given image ID.
    pub fn with_image(self, image: i64) -> (res: Card)
        ensures
            res == (Card { image, ..self }),
    {
        Card { image, ..self }
    }
}

/// Builds an RD card from a database row, or says which check it fails
/// (see `rd_rejection`). The card's image is its own ID.
pub fn build_card(row: DatabaseRow, forbidden_list: &ForbiddenList, mappings: &RdFieldMappings) -> (res: Result<Card, CardRejection>)
    ensures
        match res {
            Err(r) => rd_rejection(row, *mappings) == Some(r),
            Ok(card) => {
                let types = rd_card_types(*mappings, row.type_flags, row.race_code).unwrap();
                let d = row.description.unwrap()@;
                let maximum = rd_maximum(mappings.maximum_position_markers@, row.name.unwrap()@, types, d).unwrap();
                &&& rd_rejection(row, *mappings) is None
                &&& card.id == row.id
                &&& card.name@ == row.name.unwrap()@
                &&& Some(card.attribute) == attribute_value(mappings.attribute_codes@, row.attribute_code)
                &&& card.image == row.id
                &&& card.description@ == rd_description(d)
                &&& card.legend == (row.type_flags & mappings.legend_type_mask != 0)
                &&& labels_view(card.card_type@) == types
                &&& card.restriction == restriction_of(forbidden_list.entries_view(), row.id, row.alias)
                &&& card.alias == row.alias
                &&& card.atk == rd_stat(row.atk, types)
                &&& card.def == rd_stat(row.defense, types)
                &&& card.level == rd_stat(row.level, types)
                &&& card.maximum == maximum
                &&& Some(card.maximum_atk) == rd_maximum_atk(maximum, d)
            },
        },
{
    if row.id <= 0 {
        return Err(CardRejection::NonPositiveId);
    }
    let name = match row.name {
        Some(name) => name,
        None => return Err(CardRejection::MissingName),
    };
    if is_blank(name.as_str()) {
        return Err(CardRejection::BlankName);
    }
    let raw_description = match row.description {
        Some(d) => d,
        None => return Err(CardRejection::MissingDescription),
    };
    let description = normalize_description(raw_description.as_str());
    let attribute = match map_attribute(mappings, row.attribute_code) {
        Some(a) => a,
        None => return Err(CardRejection::UnsupportedAttribute),
    };
    if row.alias < 0 {
        return Err(CardRejection::NegativeAlias);
    }
    let card_type = match map_card_types(mappings, row.type_flags, row.race_code) {
        Some(t) => t,
        None => return Err(CardRejection::UnsupportedType),
    };
    let atk = monster_value(row.atk, &card_type);
    let defense = monster_value(row.defense, &card_type);
    let level = monster_value(row.level, &card_type);
    let maximum = match normalize_maximum(
        name.as_str(),
        &card_type,
        raw_description.as_str(),
        &mappings.maximum_position_markers,
    ) {
        Some(m) => m,
        None => return Err(CardRejection::InvalidMaximum),
    };
    let maximum_atk = match normalize_maximum_atk(maximum, raw_description.as_str()) {
        Some(a) => a,
        None => return Err(CardRejection::InvalidMaximumAtk),
    };
    Ok(Card {
        id: row.id,
        name,
        attribute,
        image: row.id,
        description,
        legend: is_legend(mappings, row.type_flags),
        card_type,
        restriction: forbidden_list.for_card(row.id, row.alias),
        alias: row.alias,
        atk,
        def: defense,
        level,
        maximum,
        maximum_atk,
    })
}


/// Settles a built card once its image is resolved: kept with that image,
/// or counted as skipped when it has none.
pub fn settle_card(collection: &mut crate::cards::rejection::CardCollection<Card>, card: Card, image: Option<i64>)
    requires
        old(collection).skipped < usize::MAX,
    ensures
        match image {
            Some(i) => final(collection).cards@ == old(collection).cards@.push(Card { image: i, ..card })
                && final(collection).skipped == old(collection).skipped,
            None => final(collection).cards@ == old(collection).cards@ && final(collection).skipped
                == old(collection).skipped + 1,
        },
{
    match image {
        Some(i) => collection.keep(card.with_image(i)),
        None => collection.skip(),
    }
}

/// The restrictions of the cards, in order.
pub open spec fn restriction_values(cards: Seq<Card>) -> Seq<i64> {
    Seq::new(cards.len(), |i: int| cards[i].restriction)
}

/// The counts of the RD list over the written cards: each written card
/// counts once, by the value it carries in the dataset (the `lf` field, in
/// which its alias's entry is already considered). Alias cards count like
/// any other, as the report's `LF aliases included` line says of the
/// default statistics options.
pub fn lf_summaries(cards: &[Card]) -> (res: Vec<crate::cards::ForbiddenListSummary>)
    ensures
        res@.len() == 1,
        res@[0].label@ == "RD"@,
        res@[0].forbidden == crate::cards::count_of(restriction_values(cards@), 0),
        res@[0].limited == crate::cards::count_of(restriction_values(cards@), 1),
        res@[0].semi_limited == crate::cards::count_of(restriction_values(cards@), 2),
        res@[0].unlimited == crate::cards::count_of(restriction_values(cards@), 3),
{
    let mut values: Vec<i64> = Vec::new();
    let mut i: usize = 0;
    while i < cards.len()
        invariant
            0 <= i <= cards@.len(),
            values@ == restriction_values(cards@).take(i as int),
        decreases cards@.len() - i,
    {
        values.push(cards[i].restriction);
        i += 1;
        proof {
            assert(values@ =~= restriction_values(cards@).take(i as int));
        }
    }
    proof {
        assert(restriction_values(cards@).take(cards@.len() as int) =~= restriction_values(cards@));
    }
    let mut res: Vec<crate::cards::ForbiddenListSummary> = Vec::new();
    res.push(crate::cards::summarize_forbidden_list("RD", values.as_slice()));
    res
}

/// No cards, no counts: every column of the list is 0.
pub proof fn lemma_lf_counts_start_empty(v: i64)
    ensures
        crate::cards::count_of(restriction_values(Seq::<Card>::empty()), v) == 0,
{
    assert(restriction_values(Seq::<Card>::empty()) =~= Seq::<i64>::empty());
}

/// One more card adds one to the column for its `lf` value and nothing to
/// any other column.
pub proof fn lemma_lf_counts_add_card(cards: Seq<Card>, card: Card, v: i64)
    ensures
        crate::cards::count_of(restriction_values(cards.push(card)), v) == crate::cards::count_of(
            restriction_values(cards),
            v,
        ) + if card.restriction == v { 1nat } else { 0nat },
{
    let r = restriction_values(cards.push(card));
    assert(r.drop_last() =~= restriction_values(cards));
    assert(r.last() == card.restriction);
}
} // verus!
