use ygo_cards::environment::Environment;
use ygo_cards::latest::{
    compare_with_latest, find_added_cards, latest_fetch_status, needs_release_reference,
    release_reference, release_tag_from_path, CardSummary, FetchStatus, LatestCardsFetch,
    LatestComparisonStatus,
};

fn card(id: i64, name: &str, card_type: &[&str]) -> CardSummary {
    CardSummary { id, name: name.to_string(), card_type: card_type.iter().map(|value| value.to_string()).collect() }
}

fn ids(cards: &[CardSummary]) -> Vec<i64> {
    cards.iter().map(|c| c.id).collect()
}

#[test]
fn finds_added_cards_by_id() {
    let current_cards = vec![card(1, "Existing", &["魔法"]), card(2, "New", &["怪兽", "龙族", "通常"])];
    let previous_cards = vec![card(1, "Old Name", &["陷阱"])];

    let added = find_added_cards(&current_cards, &previous_cards);
    assert_eq!(added.len(), 1);
    assert_eq!(added[0].id, 2);
    assert_eq!(added[0].name, "New");
    assert_eq!(added[0].card_type, vec!["怪兽", "龙族", "通常"]);
}

#[test]
fn keeps_the_order_of_the_current_cards() {
    let current = vec![card(5, "E", &[]), card(3, "C", &[]), card(9, "I", &[]), card(4, "D", &[])];
    let previous = vec![card(9, "I", &[]), card(7, "G", &[])];
    assert_eq!(ids(&find_added_cards(&current, &previous)), vec![5, 3, 4]);
    assert!(find_added_cards(&current, &current).is_empty());
}

#[test]
fn extracts_release_tag_from_resolved_github_path() {
    assert_eq!(release_tag_from_path("/arshtyi/ygo-cards/releases/tag/0.0.2"), Some(String::from("0.0.2")));
    assert_eq!(release_tag_from_path("/arshtyi/ygo-cards/releases/latest"), None);
    assert_eq!(release_tag_from_path("/releases/tag/"), None);
}

#[test]
fn compares_with_the_latest_cards() {
    let current = vec![card(1, "A", &[]), card(2, "B", &[])];
    let (report, warning) = compare_with_latest(
        Environment::Ot,
        "https://example.test/ot.json",
        &current,
        LatestCardsFetch::Cards(vec![card(1, "A", &[])]),
    );
    assert!(warning.is_none());
    assert_eq!(report.current_cards, 2);
    assert!(matches!(report.status, LatestComparisonStatus::Compared { previous_cards: 1 }));
    assert_eq!(ids(&report.added_cards), vec![2]);
    assert!(needs_release_reference(&[report]));
}

#[test]
fn warns_when_the_latest_file_is_missing_or_unreadable() {
    let current = vec![card(1, "A", &[])];
    let (report, warning) = compare_with_latest(Environment::Rd, "https://x/rd.json", &current, LatestCardsFetch::NotFound);
    assert!(matches!(report.status, LatestComparisonStatus::NotFound));
    let warning = warning.unwrap();
    assert_eq!(warning.code(), "release.comparison-skipped");
    assert_eq!(warning.reason_text(), Some("HTTP 404 Not Found"));
    assert_eq!(warning.suggestion_text(), Some("This is expected before the first published release"));
    assert!(!needs_release_reference(&[report]));

    let (report, warning) = compare_with_latest(
        Environment::Rd,
        "https://x/rd.json",
        &current,
        LatestCardsFetch::Unavailable(String::from("HTTP 500 Internal Server Error")),
    );
    assert!(report.added_cards.is_empty());
    assert_eq!(warning.unwrap().reason_text(), Some("HTTP 500 Internal Server Error"));
}

#[test]
fn reads_the_status_of_the_latest_file() {
    assert!(matches!(latest_fetch_status(200), FetchStatus::Proceed));
    assert!(matches!(latest_fetch_status(404), FetchStatus::NotFound));
    match latest_fetch_status(503) {
        FetchStatus::Unavailable(reason) => assert_eq!(reason, "HTTP 503 Service Unavailable"),
        _ => panic!("expected the file to be unavailable"),
    }
}

#[test]
fn resolves_the_latest_release_page() {
    let release = release_reference(
        "https://github.com/arshtyi/ygo-cards/releases/latest",
        200,
        "/arshtyi/ygo-cards/releases/tag/0.0.2",
        "https://github.com/arshtyi/ygo-cards/releases/tag/0.0.2?x=1",
        "https://github.com/arshtyi/ygo-cards/releases/tag/0.0.2",
    )
    .unwrap();
    assert_eq!(release.tag, "0.0.2");
    assert_eq!(release.url, "https://github.com/arshtyi/ygo-cards/releases/tag/0.0.2");

    let warning = release_reference("https://l", 200, "/elsewhere", "https://e/elsewhere", "https://e/elsewhere").unwrap_err();
    assert_eq!(warning.code(), "release.reference-unavailable");
    assert_eq!(warning.reason_text(), Some("redirect resolved to an unexpected URL: https://e/elsewhere"));

    let warning = release_reference("https://l", 404, "", "", "").unwrap_err();
    assert_eq!(warning.reason_text(), Some("HTTP 404 Not Found"));
}
