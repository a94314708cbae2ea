use std::collections::HashMap;

use ygo_cards::cards::images::ImageCheckSummary;
use ygo_cards::cards::mappings::{
    invalid_integer_message, map_attribute_value, map_race_name, parse_integer, AttributeCodeMapping,
    LinkMarkerFlag, MaximumPositionMapping, OtFieldMappings, RaceCodeMapping, RdFieldMappings,
    TypeFlag,
};
use ygo_cards::cards::ot::classification as ot_classification;
use ygo_cards::cards::ot::normalization as ot_normalization;
use ygo_cards::cards::ot::restrictions::{parse_forbidden_lists, ForbiddenListsError};
use ygo_cards::cards::rd::card::{build_card as rd_build_card, DatabaseRow as RdRow};
use ygo_cards::cards::rd::classification as rd_classification;
use ygo_cards::cards::rd::normalization as rd_normalization;
use ygo_cards::cards::rd::restrictions::{parse_forbidden_list, ForbiddenList};
use ygo_cards::cards::restrictions::{parse_restriction, restriction_for};
use ygo_cards::cards::text::{normalize_newlines, strip_effect_text_note_lines};
use ygo_cards::cards::{summarize_forbidden_list, CardKind, CardRejection};

fn labels(values: &[&str]) -> Vec<String> {
    values.iter().map(|value| String::from(*value)).collect()
}

fn some_labels(values: &[&str]) -> Option<Vec<String>> {
    Some(labels(values))
}

fn flags(entries: &[(i64, &str)]) -> Vec<TypeFlag> {
    entries
        .iter()
        .map(|(mask, name)| TypeFlag { mask: *mask, output_name: String::from(*name) })
        .collect()
}

fn attributes(entries: &[(i64, i64)]) -> Vec<AttributeCodeMapping> {
    entries
        .iter()
        .map(|(raw_code, output_value)| AttributeCodeMapping { raw_code: *raw_code, output_value: *output_value })
        .collect()
}

fn races(entries: &[(i64, &str)]) -> Vec<RaceCodeMapping> {
    entries
        .iter()
        .map(|(raw_code, name)| RaceCodeMapping { raw_code: *raw_code, output_name: String::from(*name) })
        .collect()
}

fn ot_races() -> Vec<(i64, &'static str)> {
    vec![
    (0x1, "战士族"),
    (0x2, "魔法师族"),
    (0x4, "天使族"),
    (0x8, "恶魔族"),
    (0x10, "不死族"),
    (0x20, "机械族"),
    (0x40, "水族"),
    (0x80, "炎族"),
    (0x100, "岩石族"),
    (0x200, "鸟兽族"),
    (0x400, "植物族"),
    (0x800, "昆虫族"),
    (0x1000, "雷族"),
    (0x2000, "龙族"),
    (0x4000, "兽族"),
    (0x8000, "兽战士族"),
    (0x10000, "恐龙族"),
    (0x20000, "鱼族"),
    (0x40000, "海龙族"),
    (0x80000, "爬虫类族"),
    (0x100000, "念动力族"),
    (0x200000, "幻神兽族"),
    (0x400000, "创造神族"),
    (0x800000, "幻龙族"),
    (0x1000000, "电子界族"),
    (0x2000000, "幻想魔族"),
    ]
}

fn ot_mappings() -> OtFieldMappings {
    OtFieldMappings {
        attribute_codes: attributes(&[
            (0x00, 0),
            (0x40, 0),
            (0x10, 1),
            (0x20, 2),
            (0x08, 3),
            (0x01, 4),
            (0x04, 5),
            (0x02, 6),
        ]),
        primary_type_flags: flags(&[(0x1, "怪兽"), (0x2, "魔法"), (0x4, "陷阱")]),
        subtype_flags: flags(&[
            (0x4000000, "连接"),
            (0x2000000, "特殊召唤"),
            (0x1000000, "灵摆"),
            (0x800000, "超量"),
            (0x400000, "卡通"),
            (0x200000, "反转"),
            (0x100000, "反击"),
            (0x80000, "场地"),
            (0x40000, "装备"),
            (0x20000, "永续"),
            (0x10000, "速攻"),
            (0x4000, "衍生物"),
            (0x2000, "同调"),
            (0x1000, "调整"),
            (0x800, "二重"),
            (0x400, "同盟"),
            (0x200, "灵魂"),
            (0x100, "陷阱怪兽"),
            (0x80, "仪式"),
            (0x40, "融合"),
            (0x20, "效果"),
            (0x10, "通常"),
        ]),
        race_codes: races(&ot_races()),
        link_marker_flags: [(0x40, 0), (0x80, 1), (0x100, 2), (0x20, 3), (0x4, 4), (0x2, 5), (0x1, 6), (0x8, 7)]
            .iter()
            .map(|(mask, position)| LinkMarkerFlag { mask: *mask, output_position: *position })
            .collect(),
        inferred_monster_type_mask: 0x4000,
    }
}

fn rd_mappings() -> RdFieldMappings {
    let mut race_table: Vec<(i64, &str)> = ot_races();
    race_table.push((0x20000000, "天界战士族"));
    race_table.push((0x40000000, "银河族"));
    race_table.push((0x80000000, "电子人族"));
    race_table.push((-0x80000000, "电子人族"));
    RdFieldMappings {
        attribute_codes: attributes(&[
            (0x00, 0),
            (0x10, 0),
            (0x20, 1),
            (0x08, 2),
            (0x01, 3),
            (0x04, 4),
            (0x02, 5),
        ]),
        legend_type_mask: 0x8,
        fusion_type_mask: 0x40,
        ritual_type_mask: 0x80,
        primary_type_flags: flags(&[(0x1, "怪兽"), (0x2, "魔法"), (0x4, "陷阱")]),
        subtype_flags: flags(&[
            (0x80000, "场地"),
            (0x40000, "装备"),
            (0x20000, "永续"),
            (0x10000, "速攻"),
            (0x8000, "极大"),
            (0x400, "同盟"),
            (0x80, "仪式"),
            (0x40, "融合"),
            (0x20, "效果"),
            (0x10, "通常"),
        ]),
        race_codes: races(&race_table),
        maximum_position_markers: vec![
            MaximumPositionMapping { position: 0, markers: labels(&["［L］", "[L]"]) },
            MaximumPositionMapping { position: 1, markers: labels(&["［M］", "[M]"]) },
            MaximumPositionMapping { position: 2, markers: labels(&["［R］", "[R]"]) },
        ],
    }
}

// ---------------------------------------------------------------------------
// Field mappings
// ---------------------------------------------------------------------------

#[test]
fn parses_hexadecimal_and_decimal_integers() {
    assert_eq!(parse_integer("0x40").unwrap(), 64);
    assert_eq!(parse_integer("-0x80000000").unwrap(), -2_147_483_648);
    assert_eq!(parse_integer("128").unwrap(), 128);
    assert!(parse_integer("").is_err());
    assert!(parse_integer("0xzz").is_err());
}

#[test]
fn parses_hex_and_decimal_mask_values() {
    assert_eq!(parse_integer("0x40").unwrap(), 64);
    assert_eq!(parse_integer("-0x80000000").unwrap(), -2147483648);
    assert_eq!(parse_integer("128").unwrap(), 128);
    assert!(parse_integer("").is_err());
    assert!(parse_integer("0xzz").is_err());
}

#[test]
fn integer_literals_report_why_they_fail() {
    assert_eq!(parse_integer("   "), Err(String::from("empty integer value")));
    assert_eq!(
        parse_integer("0x"),
        Err(String::from("invalid hexadecimal integer \"0x\": cannot parse integer from empty string"))
    );
    assert_eq!(
        parse_integer(" 12a "),
        Err(String::from("invalid decimal integer \"12a\": invalid digit found in string"))
    );
    assert_eq!(
        parse_integer("99999999999999999999"),
        Err(String::from(
            "invalid decimal integer \"99999999999999999999\": number too large to fit in target type"
        ))
    );
    assert_eq!(parse_integer(" 0X1f "), Ok(31));
    assert_eq!(parse_integer("-7"), Ok(-7));
}

#[test]
fn invalid_integer_messages_quote_the_literal_and_the_reason() {
    assert_eq!(
        invalid_integer_message(true, "\"0xzz\"", "invalid digit found in string"),
        "invalid hexadecimal integer \"0xzz\": invalid digit found in string"
    );
    assert_eq!(invalid_integer_message(false, "\"x\"", "why"), "invalid decimal integer \"x\": why");
}

#[test]
fn loads_field_mapping_configs() {
    let ot = ot_mappings();
    assert_eq!(map_attribute_value(&ot.attribute_codes, 0x40), Some(0));
    assert_eq!(map_race_name(&ot.race_codes, 0x2000), Some(String::from("龙族")));

    let rd = rd_mappings();
    assert_eq!(rd.legend_type_mask, 0x8);
    assert_eq!(map_race_name(&rd.race_codes, -0x80000000), Some(String::from("电子人族")));
}

#[test]
fn loads_mask_configs() {
    let ot = ot_mappings();
    assert_eq!(map_attribute_value(&ot.attribute_codes, 0x40), Some(0));
    assert_eq!(map_race_name(&ot.race_codes, 0x2000), Some(String::from("龙族")));

    let rd = rd_mappings();
    assert_eq!(rd.legend_type_mask, 0x8);
    assert_eq!(map_race_name(&rd.race_codes, -0x80000000), Some(String::from("电子人族")));
}

#[test]
fn reads_output_names_as_card_kinds() {
    assert_eq!(CardKind::from_output_name("怪兽"), Some(CardKind::Monster));
    assert_eq!(CardKind::from_output_name("魔法"), Some(CardKind::Spell));
    assert_eq!(CardKind::from_output_name("陷阱"), Some(CardKind::Trap));
    assert_eq!(CardKind::from_output_name("通常"), None);
}

// ---------------------------------------------------------------------------
// OT classification
// ---------------------------------------------------------------------------

fn ot_normalizes_attribute_codes() {
    let m = ot_mappings();
    assert_eq!(ot_classification::map_attribute(&m, 0x00), Some(0));
    assert_eq!(ot_classification::map_attribute(&m, 0x40), Some(0));
    assert_eq!(ot_classification::map_attribute(&m, 0x10), Some(1));
    assert_eq!(ot_classification::map_attribute(&m, 0x20), Some(2));
    assert_eq!(ot_classification::map_attribute(&m, 0x08), Some(3));
    assert_eq!(ot_classification::map_attribute(&m, 0x01), Some(4));
    assert_eq!(ot_classification::map_attribute(&m, 0x04), Some(5));
    assert_eq!(ot_classification::map_attribute(&m, 0x02), Some(6));
    assert_eq!(ot_classification::map_attribute(&m, 0x30), None);
}

fn ot_parses_type_bits_after_primary_from_high_to_low() {
    let m = ot_mappings();
    assert_eq!(ot_classification::map_card_types(&m, 0x2, 0), some_labels(&["魔法"]));
    assert_eq!(ot_classification::map_card_types(&m, 0x10002, 0), some_labels(&["魔法", "速攻"]));
    assert_eq!(ot_classification::map_card_types(&m, 0x100004, 0), some_labels(&["陷阱", "反击"]));
    assert_eq!(
        ot_classification::map_card_types(&m, 0x2101, 0x20),
        some_labels(&["怪兽", "机械族", "同调", "陷阱怪兽"])
    );
    assert_eq!(
        ot_classification::map_card_types(&m, 0x4011, 0x8),
        some_labels(&["怪兽", "恶魔族", "衍生物", "通常"])
    );
}

fn ot_rejects_invalid_type_bits() {
    let m = ot_mappings();
    assert_eq!(ot_classification::map_card_types(&m, 0, 0), None);
    assert_eq!(ot_classification::map_card_types(&m, 0x3, 0), None);
    assert_eq!(ot_classification::map_card_types(&m, 0x8000001, 0x1), None);
    assert_eq!(ot_classification::map_card_types(&m, 0x4000, 0x8), None);
    assert_eq!(
        ot_classification::map_card_types(&m, 0x4011, 0),
        some_labels(&["怪兽", "衍生物", "通常"])
    );
}

fn ot_normalizes_monster_races() {
    let m = ot_mappings();
    assert_eq!(ot_classification::map_race(&m, 0x1), Some(String::from("战士族")));
    assert_eq!(ot_classification::map_race(&m, 0x2000), Some(String::from("龙族")));
    assert_eq!(ot_classification::map_race(&m, 0x2000000), Some(String::from("幻想魔族")));
    assert_eq!(ot_classification::map_race(&m, 0), None);
}

#[test]
fn classification_normalizes_attribute_codes() {
    ot_normalizes_attribute_codes();
}

#[test]
fn classification_parses_type_bits_after_primary_from_high_to_low() {
    ot_parses_type_bits_after_primary_from_high_to_low();
}

#[test]
fn classification_rejects_invalid_type_bits() {
    ot_rejects_invalid_type_bits();
}

#[test]
fn classification_normalizes_monster_races() {
    ot_normalizes_monster_races();
}

#[test]
fn types_normalizes_attribute_codes() {
    ot_normalizes_attribute_codes();
}

#[test]
fn types_parses_type_bits_after_primary_from_high_to_low() {
    ot_parses_type_bits_after_primary_from_high_to_low();
}

#[test]
fn types_rejects_invalid_type_bits() {
    ot_rejects_invalid_type_bits();
}

#[test]
fn types_normalizes_monster_races() {
    ot_normalizes_monster_races();
}

// ---------------------------------------------------------------------------
// OT normalization
// ---------------------------------------------------------------------------

#[test]
fn normalization_normalizes_descriptions() {
    assert_eq!(
        ot_normalization::normalize_description("line 1\r\n\r\nline 2", &labels(&["魔法"])).unwrap(),
        "line 1\nline 2"
    );
    assert_eq!(
        ot_normalization::normalize_description("（注：暂时无法正常使用）\r\n这个卡名的卡在1回合只能发动1张。", &labels(&["魔法"]))
            .unwrap(),
        "这个卡名的卡在1回合只能发动1张。"
    );
    assert_eq!(
        ot_normalization::normalize_description("【灵摆效果】P\r\n【怪兽效果】\r\nM\r\n\r\nE", &labels(&["怪兽", "灵摆"])).unwrap(),
        "M\nE"
    );
    assert_eq!(
        ot_normalization::normalize_description("【灵摆效果】P\r\n【怪兽描述】\r\nM\r\nE", &labels(&["怪兽", "灵摆"])).unwrap(),
        "M\nE"
    );
    assert_eq!(ot_normalization::normalize_description("missing marker", &labels(&["怪兽", "灵摆"])), None);
}

#[test]
fn normalizes_pendulum_descriptions() {
    assert_eq!(ot_normalization::normalize_pendulum_description("plain", &labels(&["魔法"])).unwrap(), None);
    assert_eq!(
        ot_normalization::normalize_pendulum_description("首行\r\nP1\r\n\r\nP2\r\n【怪兽效果】\r\nM", &labels(&["怪兽", "灵摆"]))
            .unwrap(),
        Some(String::from("P1\nP2"))
    );
    assert_eq!(
        ot_normalization::normalize_pendulum_description("首行\r\nP1\r\n【怪兽描述】\r\nM", &labels(&["怪兽", "灵摆"])).unwrap(),
        Some(String::from("P1"))
    );
    assert_eq!(
        ot_normalization::normalize_pendulum_description("首行\r\nmissing marker", &labels(&["怪兽", "灵摆"])),
        None
    );
}

#[test]
fn normalizes_monster_atk() {
    assert_eq!(ot_normalization::normalize_atk(3000, &labels(&["怪兽"])), Some(Some(3000)));
    assert_eq!(ot_normalization::normalize_atk(-2, &labels(&["怪兽"])), Some(Some(-1)));
    assert_eq!(ot_normalization::normalize_atk(-1, &labels(&["怪兽"])), Some(Some(-1)));
    assert_eq!(ot_normalization::normalize_atk(-3, &labels(&["怪兽"])), None);
    assert_eq!(ot_normalization::normalize_atk(0, &labels(&["魔法"])), Some(None));
}

#[test]
fn normalizes_monster_def_and_link_value() {
    assert_eq!(ot_normalization::normalize_def(2500, &labels(&["怪兽"])), Some(Some(2500)));
    assert_eq!(ot_normalization::normalize_def(-2, &labels(&["怪兽"])), Some(Some(-1)));
    assert_eq!(ot_normalization::normalize_def(-1, &labels(&["怪兽"])), Some(Some(-1)));
    assert_eq!(ot_normalization::normalize_def(-3, &labels(&["怪兽"])), None);
    assert_eq!(ot_normalization::normalize_def(0, &labels(&["魔法"])), Some(None));
    assert_eq!(ot_normalization::normalize_def(-2, &labels(&["怪兽", "连接"])), Some(None));

    assert_eq!(ot_normalization::normalize_link_value(0x04000004, &labels(&["怪兽", "连接"])), Some(Some(4)));
    assert_eq!(ot_normalization::normalize_link_value(0, &labels(&["怪兽", "连接"])), None);
    assert_eq!(ot_normalization::normalize_link_value(9, &labels(&["怪兽", "连接"])), None);
    assert_eq!(ot_normalization::normalize_link_value(4, &labels(&["怪兽"])), Some(None));
    assert_eq!(ot_normalization::normalize_link_value(4, &labels(&["魔法"])), Some(None));
}

#[test]
fn normalizes_monster_level_rank_and_pendulum_scale() {
    assert_eq!(ot_normalization::normalize_level(8, &labels(&["怪兽"])), Some(Some(8)));
    assert_eq!(ot_normalization::normalize_level(0x0d000008, &labels(&["怪兽"])), Some(Some(8)));
    assert_eq!(ot_normalization::normalize_level(14, &labels(&["怪兽"])), None);
    assert_eq!(ot_normalization::normalize_level(-1, &labels(&["怪兽"])), None);
    assert_eq!(ot_normalization::normalize_level(4, &labels(&["怪兽", "超量"])), Some(None));
    assert_eq!(ot_normalization::normalize_level(4, &labels(&["怪兽", "连接"])), Some(None));
    assert_eq!(ot_normalization::normalize_level(4, &labels(&["魔法"])), Some(None));

    assert_eq!(ot_normalization::normalize_rank(4, &labels(&["怪兽", "超量"])), Some(Some(4)));
    assert_eq!(ot_normalization::normalize_rank(14, &labels(&["怪兽", "超量"])), None);
    assert_eq!(ot_normalization::normalize_rank(4, &labels(&["怪兽"])), Some(None));

    let pendulum_level = (8 << 24) | (8 << 16) | 4;
    assert_eq!(ot_normalization::normalize_pendulum_scale(pendulum_level, &labels(&["怪兽", "灵摆"])), Some(Some(8)));
    assert_eq!(ot_normalization::normalize_pendulum_scale((7 << 24) | (8 << 16) | 4, &labels(&["怪兽", "灵摆"])), None);
    assert_eq!(ot_normalization::normalize_pendulum_scale((14 << 24) | (14 << 16) | 4, &labels(&["怪兽", "灵摆"])), None);
    assert_eq!(ot_normalization::normalize_pendulum_scale(4, &labels(&["怪兽"])), Some(None));
}

#[test]
fn normalizes_link_markers() {
    let m = ot_mappings();
    let f = &m.link_marker_flags;
    assert_eq!(ot_normalization::normalize_link_marker(0xaa, &labels(&["怪兽", "连接"]), f), Some(Some(vec![1, 3, 5, 7])));
    assert_eq!(ot_normalization::normalize_link_marker(0x141, &labels(&["怪兽", "连接"]), f), Some(Some(vec![0, 2, 6])));
    assert_eq!(ot_normalization::normalize_link_marker(0, &labels(&["怪兽", "连接"]), f), None);
    assert_eq!(ot_normalization::normalize_link_marker(0x200, &labels(&["怪兽", "连接"]), f), None);
    assert_eq!(ot_normalization::normalize_link_marker(0xaa, &labels(&["怪兽"]), f), Some(None));
    assert_eq!(ot_normalization::normalize_link_marker(0xaa, &labels(&["魔法"]), f), Some(None));
}

// ---------------------------------------------------------------------------
// Forbidden lists
// ---------------------------------------------------------------------------

fn ot_list() -> &'static str {
    "
            #[2026.4][2026.5 TCG]
            !2026.4
            #forbidden
            11111111 0 --A
            #limit
            22222222 1 --B
            !2026.5 TCG
            #semi limit
            22222222 2 --B
            33333333 0 --C
            !2026.1
            11111111 3 --old
            "
}

fn check_latest_ocg_and_tcg_lists() {
    let lists = parse_forbidden_lists(ot_list()).unwrap();

    assert_eq!(lists.for_card(11111111, 0), vec![0, 3]);
    assert_eq!(lists.for_card(22222222, 0), vec![1, 2]);
    assert_eq!(lists.for_card(33333333, 0), vec![3, 0]);
    assert_eq!(lists.for_card(44444444, 0), vec![3, 3]);
    assert_eq!(lists.for_card(55555555, 11111111), vec![0, 3]);
}

#[test]
fn limits_parses_latest_ocg_and_tcg_lists() {
    check_latest_ocg_and_tcg_lists();
}

#[test]
fn restrictions_parses_latest_ocg_and_tcg_lists() {
    check_latest_ocg_and_tcg_lists();
}

#[test]
fn refuses_files_without_both_lists() {
    assert_eq!(parse_forbidden_lists("!2026.5 TCG\n1 0").err(), Some(ForbiddenListsError::MissingOcg));
    assert_eq!(parse_forbidden_lists("!2026.4\n1 0").err(), Some(ForbiddenListsError::MissingTcg));
    assert_eq!(ForbiddenListsError::MissingOcg.message(), "missing latest OCG forbidden list");
    assert_eq!(ForbiddenListsError::MissingTcg.message(), "missing latest TCG forbidden list");
}

#[test]
fn parses_lf_entry_lines() {
    assert_eq!(parse_restriction("08903700 0 --儀式魔人リリーサー"), Some((8903700, 0)));
    assert_eq!(parse_restriction("5318639 1 --旋风"), Some((5318639, 1)));
    assert_eq!(parse_restriction("#limit"), None);
    assert_eq!(parse_restriction("12345678 4 --invalid"), None);
}

#[test]
fn parses_forbidden_list_restrictions() {
    let list = parse_forbidden_list(
        "
            #[RD]
            !RD
            #Legend
            $legend_monster 1
            111111111 $legend_monster 1 --legend
            222222222 1 --legend placeholder
            #Forbidden
            333333333 0 --forbidden
            #Limit
            444444444 1 --limit
            #Semi-Limit
            555555555 2 --semi
            #Other
            666666666 0 --ignored
            ",
    );

    assert_eq!(list.for_card(111111111, 0), 3);
    assert_eq!(list.for_card(222222222, 0), 3);
    assert_eq!(list.for_card(333333333, 0), 0);
    assert_eq!(list.for_card(444444444, 0), 1);
    assert_eq!(list.for_card(555555555, 0), 2);
    assert_eq!(list.for_card(666666666, 0), 3);
    assert_eq!(list.for_card(777777777, 333333333), 0);
}

fn check_restriction_lines_ot() {
    assert_eq!(parse_restriction("08903700 0 --儀式魔人リリーサー"), Some((8903700, 0)));
    assert_eq!(parse_restriction("5318639 1 --旋风"), Some((5318639, 1)));
    assert_eq!(parse_restriction("#limit"), None);
    assert_eq!(parse_restriction("12345678 4 --invalid"), None);
}

fn check_restriction_lines_rd() {
    assert_eq!(parse_restriction("120226013 0 -- 业火之结界像"), Some((120226013, 0)));
    assert_eq!(parse_restriction("120217035 2 -- 革新制壶陶艺家"), Some((120217035, 2)));
    assert_eq!(parse_restriction("120102002 $legend_monster 1 -- 时间魔术师"), None);
    assert_eq!(parse_restriction("120102002 4 --invalid"), None);
}

#[test]
fn restrictions_parses_restriction_lines() {
    check_restriction_lines_ot();
    check_restriction_lines_rd();
}

#[test]
fn parses_valid_entries_and_ignores_comments() {
    assert_eq!(parse_restriction("123 1 -- limited"), Some((123, 1)));
    assert_eq!(parse_restriction("456 3"), Some((456, 3)));
    assert_eq!(parse_restriction("123 4"), None);
    assert_eq!(parse_restriction("invalid"), None);
}

#[test]
fn resolves_direct_alias_and_default_limits() {
    let entries = HashMap::from([(10, 1), (20, 2)]);

    assert_eq!(restriction_for(&entries, 10, 0), 1);
    assert_eq!(restriction_for(&entries, 11, 20), 2);
    assert_eq!(restriction_for(&entries, 11, 0), 3);
}

#[test]
fn every_parsed_count_is_between_zero_and_three() {
    let lists = parse_forbidden_lists(ot_list()).unwrap();
    for id in [11111111, 22222222, 33333333, 44444444] {
        for value in lists.for_card(id, 0) {
            assert!((0..=3).contains(&value));
        }
    }
    let rd = parse_forbidden_list("#forbidden\n1 0\n2 7\n#limit\n3 1");
    assert_eq!(rd.for_card(2, 0), 3);
    assert_eq!(rd.for_card(3, 0), 1);
}

#[test]
fn counts_the_restrictions_of_a_list() {
    let summary = summarize_forbidden_list("OCG", &[0, 1, 1, 2, 3, 3, 3, 9]);
    assert_eq!(summary.label, "OCG");
    assert_eq!(summary.forbidden, 1);
    assert_eq!(summary.limited, 2);
    assert_eq!(summary.semi_limited, 1);
    assert_eq!(summary.unlimited, 3);
}

// ---------------------------------------------------------------------------
// Card text
// ---------------------------------------------------------------------------

#[test]
fn normalizes_newlines() {
    assert_eq!(normalize_newlines("a\r\nb"), "a\nb");
    assert_eq!(normalize_newlines("a\r\r\n\r\nb"), "a\nb");
    assert_eq!(normalize_newlines("a\n\n\nb"), "a\nb");
}

#[test]
fn normalizing_twice_changes_nothing() {
    for text in ["a\r\n\r\nb\r", "\n\n", "x\ry\r\nz", ""] {
        let once = normalize_newlines(text);
        assert_eq!(normalize_newlines(&once), once);
        assert!(!once.contains('\r'));
        assert!(!once.contains("\n\n"));
    }
}

#[test]
fn strips_standalone_effect_note_lines() {
    assert_eq!(strip_effect_text_note_lines("（注：暂时无法正常使用）\r\n正文"), "正文");
    assert_eq!(strip_effect_text_note_lines("正文\r\n（限制类效果可在基本分处查看）"), "正文");
    assert_eq!(strip_effect_text_note_lines("正文\r\n（状态类效果可在基本分处查看）\r\n"), "正文");
    assert_eq!(strip_effect_text_note_lines("正文\r\n（限制类和状态类效果可在基本分处查看）"), "正文");
    assert_eq!(strip_effect_text_note_lines("上\r\n（注：有bug)\r\n下"), "上\n下");
    assert_eq!(strip_effect_text_note_lines("正文（注：这里是正文的一部分）"), "正文（注：这里是正文的一部分）");
}

// ---------------------------------------------------------------------------
// RD classification and normalization
// ---------------------------------------------------------------------------

fn rd_detects_legend_type_bit() {
    let m = rd_mappings();
    assert!(rd_classification::is_legend(&m, 0x8));
    assert!(rd_classification::is_legend(&m, 0x29));
    assert!(!rd_classification::is_legend(&m, 0x21));
}

fn rd_normalizes_attribute_codes() {
    let m = rd_mappings();
    assert_eq!(rd_classification::map_attribute(&m, 0x00), Some(0));
    assert_eq!(rd_classification::map_attribute(&m, 0x10), Some(0));
    assert_eq!(rd_classification::map_attribute(&m, 0x20), Some(1));
    assert_eq!(rd_classification::map_attribute(&m, 0x08), Some(2));
    assert_eq!(rd_classification::map_attribute(&m, 0x01), Some(3));
    assert_eq!(rd_classification::map_attribute(&m, 0x04), Some(4));
    assert_eq!(rd_classification::map_attribute(&m, 0x02), Some(5));
    assert_eq!(rd_classification::map_attribute(&m, 0x40), None);
}

fn rd_parses_type_bits(with_union: bool) {
    let m = rd_mappings();
    let t = |flags: i64, race: i64| rd_classification::map_card_types(&m, flags, race);
    assert_eq!(t(0x2, 0), some_labels(&["魔法"]));
    assert_eq!(t(0x80002, 0), some_labels(&["魔法", "场地"]));
    assert_eq!(t(0x40002, 0), some_labels(&["魔法", "装备"]));
    assert_eq!(t(0x82, 0), some_labels(&["魔法", "仪式"]));
    assert_eq!(t(0xc, 0), some_labels(&["陷阱"]));
    assert_eq!(t(0x29, 0x2), some_labels(&["怪兽", "魔法师族", "效果"]));
    assert_eq!(t(0x61, 0x2000), some_labels(&["怪兽", "龙族", "融合", "效果"]));
    assert_eq!(t(0xc1, 0x1), some_labels(&["怪兽", "战士族", "仪式"]));
    assert_eq!(t(0xe1, 0x20000000), some_labels(&["怪兽", "天界战士族", "仪式", "效果"]));
    assert_eq!(t(0x8021, 0x40000000), some_labels(&["怪兽", "银河族", "极大", "效果"]));
    if with_union {
        assert_eq!(t(0x421, 0x1), some_labels(&["怪兽", "战士族", "同盟", "效果"]));
    }
}

fn rd_rejects_invalid_type_bits() {
    let m = rd_mappings();
    assert_eq!(rd_classification::map_card_types(&m, 0, 0), None);
    assert_eq!(rd_classification::map_card_types(&m, 0x3, 0), None);
    assert_eq!(rd_classification::map_card_types(&m, 0x1000001, 0x1), None);
    assert_eq!(rd_classification::map_card_types(&m, 0x1, 0), None);
}

fn rd_normalizes_monster_races() {
    let m = rd_mappings();
    assert_eq!(rd_classification::map_race(&m, 0x1), Some(String::from("战士族")));
    assert_eq!(rd_classification::map_race(&m, 0x2000), Some(String::from("龙族")));
    assert_eq!(rd_classification::map_race(&m, 0x40000000), Some(String::from("银河族")));
    assert_eq!(rd_classification::map_race(&m, 0x80000000), Some(String::from("电子人族")));
    assert_eq!(rd_classification::map_race(&m, -0x80000000), Some(String::from("电子人族")));
    assert_eq!(rd_classification::map_race(&m, 0), None);
}

#[test]
fn classification_detects_legend_type_bit() {
    rd_detects_legend_type_bit();
}

#[test]
fn types_detects_legend_type_bit() {
    rd_detects_legend_type_bit();
}

#[test]
fn rd_classification_normalizes_attribute_codes() {
    rd_normalizes_attribute_codes();
}

#[test]
fn rd_types_normalizes_attribute_codes() {
    rd_normalizes_attribute_codes();
}

#[test]
fn rd_classification_parses_type_bits_after_primary_from_high_to_low() {
    rd_parses_type_bits(true);
}

#[test]
fn rd_types_parses_type_bits_after_primary_from_high_to_low() {
    rd_parses_type_bits(false);
}

#[test]
fn rd_classification_rejects_invalid_type_bits() {
    rd_rejects_invalid_type_bits();
}

#[test]
fn rd_types_rejects_invalid_type_bits() {
    rd_rejects_invalid_type_bits();
}

#[test]
fn rd_classification_normalizes_monster_races() {
    rd_normalizes_monster_races();
}

#[test]
fn rd_types_normalizes_monster_races() {
    rd_normalizes_monster_races();
}

#[test]
fn rd_normalization_normalizes_descriptions() {
    assert_eq!(rd_normalization::normalize_description("RD/ECG1-JP008 <传说卡> 【水族】\r\n正文\r\n第二行"), String::from("正文\n第二行"));
    assert_eq!(rd_normalization::normalize_description("RD/RLP2-JP001 【银河族】\r\n【条件】\r\n\r\n内容"), String::from("【条件】\n内容"));
    assert_eq!(
        rd_normalization::normalize_description("RD/MAX1-JP002\r\n极大攻击 3500\r\n可以和其他卡集齐作极大召唤。\r\n\r\n【条件】"),
        String::from("可以和其他卡集齐作极大召唤。\n【条件】")
    );
    assert_eq!(
        rd_normalization::normalize_description("RD/TEST-JP001\r\n【条件】\r\n无\r\n（状态类效果可在基本分处查看）\r\n"),
        String::from("【条件】\n无")
    );
    assert_eq!(
        rd_normalization::normalize_description("RD/TEST-JP004\r\n【效果】\r\n正文\r\n（限制类和状态类效果可在基本分处查看）"),
        String::from("【效果】\n正文")
    );
    assert_eq!(
        rd_normalization::normalize_description("RD/TEST-JP002\r\n【条件】\r\n无\r\n（注：有bug，可以当2只上级盖放)"),
        String::from("【条件】\n无")
    );
    assert_eq!(rd_normalization::normalize_description("第一行\r\n第二行"), String::from("第一行\n第二行"));
    assert_eq!(rd_normalization::normalize_description("RD/ST01-JP002\r\r\n\r\n【效果】"), String::from("【效果】"));
    assert_eq!(rd_normalization::normalize_description("RD/ONLY"), String::new());
    assert_eq!(rd_normalization::normalize_description("RD/EMPTY\r\n  "), String::new());
    assert_eq!(
        rd_normalization::normalize_description("RD/TEST-JP003\r\n【效果】\r\n正文\r\n（特殊调整：特殊召唤的怪兽不用给对方确认）"),
        String::from("【效果】\n正文")
    );
    assert_eq!(
        rd_normalization::normalize_description("正文（特殊调整：这是正文的一部分）"),
        String::from("正文（特殊调整：这是正文的一部分）")
    );
}

#[test]
fn keeps_stats_for_monsters_only() {
    assert_eq!(rd_normalization::monster_value(2100, &labels(&["怪兽", "效果"])), Some(2100));
    assert_eq!(rd_normalization::monster_value(0, &labels(&["魔法"])), None);
    assert_eq!(rd_normalization::monster_value(0, &labels(&["陷阱"])), None);
}

#[test]
fn normalizes_maximum_positions() {
    let m = rd_mappings();
    let e = &m.maximum_position_markers;
    assert_eq!(rd_normalization::normalize_maximum("超魔机神 大霸道王［L］", &labels(&["怪兽", "极大"]), "desc", e), Some(Some(0)));
    assert_eq!(rd_normalization::normalize_maximum("超魔机神 大霸道王[M]", &labels(&["怪兽", "极大"]), "desc", e), Some(Some(1)));
    assert_eq!(rd_normalization::normalize_maximum("超魔机神 大霸道王［R］", &labels(&["怪兽", "极大"]), "desc", e), Some(Some(2)));
    assert_eq!(
        rd_normalization::normalize_maximum("超魔机神 大霸道王", &labels(&["怪兽", "极大"]), "RD/MAX1-JP002\r\n极大攻击 3500\r\n正文", e),
        Some(Some(1))
    );
    assert_eq!(
        rd_normalization::normalize_maximum(
            "外宇宙 安琪利瓦天愿",
            &labels(&["怪兽", "极大"]),
            "RD/ORP3-JP061\r\n手卡的这张卡的卡名变成「破界王帝 外宇宙界愿［L］」。",
            e
        ),
        Some(None)
    );
    assert_eq!(rd_normalization::normalize_maximum("普通魔法[L]", &labels(&["魔法"]), "RD/X\r\n极大攻击 3500", e), Some(None));
    assert_eq!(rd_normalization::normalize_maximum("异常［L］［R］", &labels(&["怪兽", "极大"]), "desc", e), None);
}

#[test]
fn normalizes_maximum_atk() {
    assert_eq!(rd_normalization::normalize_maximum_atk(Some(1), "RD/MAX1-JP002\r\n极大攻击 3500\r\n正文"), Some(Some(3500)));
    assert_eq!(rd_normalization::normalize_maximum_atk(Some(1), "RD/MAX1-JP002\r\n极大攻击力 4000\r\n正文"), Some(Some(4000)));
    assert_eq!(rd_normalization::normalize_maximum_atk(Some(0), "RD/MAX1-JP001\r\n极大攻击 3500"), Some(None));
    assert_eq!(rd_normalization::normalize_maximum_atk(Some(1), "RD/MAX1-JP002\r\n正文"), None);
}

// ---------------------------------------------------------------------------
// RD cards
// ---------------------------------------------------------------------------

fn rd_row(id: i64, name: Option<&str>, description: Option<&str>, attribute_code: i64, type_flags: i64, alias: i64) -> RdRow {
    RdRow {
        id,
        name: name.map(String::from),
        description: description.map(String::from),
        attribute_code,
        type_flags,
        race_code: 0,
        alias,
        atk: 0,
        defense: 0,
        level: 0,
    }
}

#[test]
fn rejects_invalid_rows() {
    let forbidden_list = ForbiddenList::default();
    let m = rd_mappings();

    assert!(rd_build_card(rd_row(0, None, None, 0, 0, 0), &forbidden_list, &m).is_err());
    assert!(rd_build_card(rd_row(120100001, None, None, 0, 0, 0), &forbidden_list, &m).is_err());
    assert!(rd_build_card(rd_row(120100001, Some("  "), None, 0, 0, 0), &forbidden_list, &m).is_err());
    assert!(rd_build_card(
        rd_row(120100001, Some("大道魔法-爆发"), Some("RD/SJMP-JP001\r\n【条件】"), 0x40, 0, 0),
        &forbidden_list,
        &m
    )
    .is_err());
    assert!(rd_build_card(
        rd_row(120100001, Some("大道魔法-爆发"), Some("RD/SJMP-JP001\r\n【条件】"), 0, 0, -1),
        &forbidden_list,
        &m
    )
    .is_err());
    assert!(rd_build_card(rd_row(120100001, Some("大道魔法-爆发"), None, 0, 0x2, 0), &forbidden_list, &m).is_err());
}

#[test]
fn names_why_rows_are_rejected() {
    let forbidden_list = ForbiddenList::default();
    let m = rd_mappings();
    let reason = |row: RdRow| rd_build_card(row, &forbidden_list, &m).err();

    assert_eq!(reason(rd_row(0, None, None, 0, 0, 0)), Some(CardRejection::NonPositiveId));
    assert_eq!(reason(rd_row(1, None, None, 0, 0, 0)), Some(CardRejection::MissingName));
    assert_eq!(reason(rd_row(1, Some(" "), None, 0, 0, 0)), Some(CardRejection::BlankName));
    assert_eq!(reason(rd_row(1, Some("a"), None, 0, 0x2, 0)), Some(CardRejection::MissingDescription));
    assert_eq!(reason(rd_row(1, Some("a"), Some("d"), 0x40, 0x2, 0)), Some(CardRejection::UnsupportedAttribute));
    assert_eq!(reason(rd_row(1, Some("a"), Some("d"), 0, 0x2, -1)), Some(CardRejection::NegativeAlias));
    assert_eq!(reason(rd_row(1, Some("a"), Some("d"), 0, 0x3, 0)), Some(CardRejection::UnsupportedType));
}

#[test]
fn keeps_empty_descriptions() {
    let forbidden_list = ForbiddenList::default();
    let m = rd_mappings();
    let card = rd_build_card(
        RdRow {
            id: 120287001,
            name: Some(String::from("杰拉")),
            description: Some(String::from("RD/AP01-JP001")),
            attribute_code: 0x20,
            type_flags: 0x21,
            race_code: 0x8,
            alias: 0,
            atk: 2800,
            defense: 2300,
            level: 8,
        },
        &forbidden_list,
        &m,
    )
    .unwrap();

    assert_eq!(card.description, "");
    assert_eq!(card.image, 120287001);
    assert_eq!(card.atk, Some(2800));
    assert_eq!(card.restriction, 3);
}

// ---------------------------------------------------------------------------
// Image totals
// ---------------------------------------------------------------------------

#[test]
fn sums_image_summaries() {
    let total = ImageCheckSummary::sum(&[
        ImageCheckSummary {
            enabled: true,
            skip_failures: true,
            cards_checked: 2,
            primary_found: 1,
            missing: 1,
            cards_skipped: 1,
            ..ImageCheckSummary::default()
        },
        ImageCheckSummary {
            alias_found: 1,
            unique_urls_found: 1,
            unique_urls_missing: 2,
            network_errors: 1,
            cache_hits: 1,
            ..ImageCheckSummary::default()
        },
    ]);

    assert!(total.enabled);
    assert!(total.skip_failures);
    assert_eq!(total.cards_checked, 2);
    assert_eq!(total.successful_cards(), 2);
    assert_eq!(total.missing, 1);
    assert_eq!(total.cards_skipped, 1);
    assert_eq!(total.unique_urls_found, 1);
    assert_eq!(total.unique_urls_missing, 2);
    assert_eq!(total.network_errors, 1);
    assert_eq!(total.cache_hits, 1);
}

#[test]
fn summing_does_not_depend_on_order() {
    let a = ImageCheckSummary { cards_checked: 3, primary_found: 2, missing: 1, ..ImageCheckSummary::default() };
    let b = ImageCheckSummary { enabled: true, alias_found: 4, cache_hits: 5, ..ImageCheckSummary::default() };
    assert_eq!(ImageCheckSummary::sum(&[a, b]), ImageCheckSummary::sum(&[b, a]));
    let mut c = a;
    c.add_assign(ImageCheckSummary::default());
    assert_eq!(c, a);
}
