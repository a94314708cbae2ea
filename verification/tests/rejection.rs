use ygo_cards::cards::ot::card::DatabaseRow as OtRow;
use ygo_cards::cards::rd::card::DatabaseRow as RdRow;
use ygo_cards::cards::rejection::{debug_list_of, ot_rejection_reason, rd_rejection_reason};
use ygo_cards::cards::CardRejection;

fn ot_row() -> OtRow {
    OtRow {
        id: 46986414,
        name: Some(String::from("Dark Magician")),
        description: Some(String::from("The ultimate wizard.")),
        attribute_code: 0x20,
        alias: 0,
        type_flags: 0x11,
        race_code: 0x2,
        atk: 2500,
        defense: -7,
        level: 7,
    }
}

fn rd_row() -> RdRow {
    RdRow {
        id: 120105001,
        name: Some(String::from("七星道魔术师")),
        description: Some(String::from("【条件】\n无")),
        attribute_code: 0x20,
        type_flags: 0x11,
        race_code: 0x2,
        alias: 0,
        atk: 2100,
        defense: 1500,
        level: 7,
    }
}

#[test]
fn writes_a_list_from_the_debug_text_of_its_items() {
    assert_eq!(debug_list_of(&[]), "[]");
    assert_eq!(debug_list_of(&[String::from("\"怪兽\"")]), "[\"怪兽\"]");
    assert_eq!(
        debug_list_of(&[String::from("\"怪兽\""), String::from("\"效果\"")]),
        format!("{:?}", vec!["怪兽", "效果"])
    );
}

#[test]
fn ot_rejection_reasons_name_the_value_and_the_types() {
    let row = ot_row();
    assert_eq!(
        ot_rejection_reason(&row, CardRejection::InvalidDef, "[\"怪兽\"]"),
        "invalid DEF value=-7 for card_type=[\"怪兽\"]"
    );
    assert_eq!(
        ot_rejection_reason(&row, CardRejection::InvalidLinkMarkers, "[]"),
        "invalid link marker bitmask=-7 (0xfffffffffffffff9) for card_type=[]"
    );
    assert_eq!(
        ot_rejection_reason(&row, CardRejection::UnsupportedAttribute, "ignored"),
        "unsupported attribute value=32 (0x20)"
    );
    assert_eq!(ot_rejection_reason(&row, CardRejection::NonPositiveId, "ignored"), "ID must be positive");
}

#[test]
fn rd_rejection_reasons_name_the_maximum_or_the_types() {
    let row = rd_row();
    assert_eq!(
        rd_rejection_reason(&row, CardRejection::InvalidMaximum, "[\"怪兽\"]", None),
        "maximum position could not be normalized for card_type=[\"怪兽\"]"
    );
    assert_eq!(
        rd_rejection_reason(&row, CardRejection::InvalidMaximumAtk, "ignored", Some(1)),
        "maximum ATK could not be parsed; maximum_position=Some(1)"
    );
    assert_eq!(
        rd_rejection_reason(&row, CardRejection::InvalidMaximumAtk, "ignored", None),
        "maximum ATK could not be parsed; maximum_position=None"
    );
    assert_eq!(
        rd_rejection_reason(&row, CardRejection::NegativeAlias, "ignored", None),
        "alias must be non-negative; alias=0"
    );
}
