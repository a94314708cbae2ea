use ygo_cards::cards::images::{FailedImageCheck, ImageCheckFailure, ImageCheckSummary};
use ygo_cards::cards::{DatasetReport, ForbiddenListSummary, LfStatisticsOptions};
use ygo_cards::diagnostics::{Diagnostic, DiagnosticSnapshot};
use ygo_cards::environment::Environment;
use ygo_cards::latest::{CardSummary, LatestComparisonReport, LatestComparisonStatus};
use ygo_cards::report::console::{
    build_complete_text, diagnostic_summary_text, error_report_text, format_error_chain,
    render_summary_report, render_write_report,
};
use ygo_cards::report::markdown::{append_latest_comparison_report, build_summary_report};
use ygo_cards::report::{card_type_display, escape_markdown_cell, image_failure_action, ReportTotals};

fn card(id: i64, name: &str, card_type: &[&str]) -> CardSummary {
    CardSummary { id, name: name.to_string(), card_type: card_type.iter().map(|value| value.to_string()).collect() }
}

fn strings(values: &[&str]) -> Vec<String> {
    values.iter().map(|value| value.to_string()).collect()
}

fn check_type_display() {
    assert_eq!(card_type_display(&strings(&["怪兽", "龙族", "通常"])), "怪兽/龙族/通常");
    assert_eq!(card_type_display(&[]), "-");
}

#[test]
fn report_formats_card_types_with_slashes() {
    check_type_display();
}

#[test]
fn markdown_formats_card_types_with_slashes() {
    check_type_display();
}

fn comparison_text() -> String {
    let mut report: Vec<char> = Vec::new();
    append_latest_comparison_report(
        &mut report,
        &[LatestComparisonReport {
            environment: Environment::Ot,
            latest_url: String::from("https://github.com/arshtyi/ygo-cards/releases/latest/download/ot.json"),
            current_cards: 2,
            status: LatestComparisonStatus::Compared { previous_cards: 1 },
            added_cards: vec![card(2, "New|Card", &["怪兽", "龙族", "通常"])],
        }],
    );
    report.into_iter().collect()
}

#[test]
fn report_appends_added_cards_to_latest_comparison_report() {
    let report = comparison_text();

    assert!(report.contains("## New Cards Since Latest Release"));
    assert!(report.contains("| New cards | 1 |"));
    assert!(report.contains("| 2 | New\\|Card | 怪兽/龙族/通常 |"));
}

#[test]
fn markdown_appends_added_cards_to_latest_comparison_report() {
    let report = comparison_text();

    assert!(report.contains("## New Cards Since Latest Release"));
    assert!(report.contains("| New cards | 1 |"));
    assert!(report.contains("<summary>New card details (1)</summary>"));
    assert!(report.contains("| 2 | New\\|Card | 怪兽/龙族/通常 |"));
    assert_eq!(report.matches("<details>").count(), 1);
    assert_eq!(report.matches("</details>").count(), 1);
}

#[test]
fn reports_comparisons_that_could_not_be_made() {
    let mut report: Vec<char> = Vec::new();
    append_latest_comparison_report(
        &mut report,
        &[
            LatestComparisonReport {
                environment: Environment::Ot,
                latest_url: String::from("u1"),
                current_cards: 3,
                status: LatestComparisonStatus::NotFound,
                added_cards: Vec::new(),
            },
            LatestComparisonReport {
                environment: Environment::Rd,
                latest_url: String::from("u2"),
                current_cards: 3,
                status: LatestComparisonStatus::Unavailable(String::from("bad | json")),
                added_cards: Vec::new(),
            },
        ],
    );
    let text: String = report.into_iter().collect();
    assert_eq!(
        text,
        "## New Cards Since Latest Release\n\n### OT\n\nCompared against [u1](u1).\n\n\
         Previous latest file was not found; comparison skipped.\n\n### RD\n\nCompared against [u2](u2).\n\n\
         Previous latest file could not be compared: bad \\| json.\n\n"
    );
}

fn failure(card_skipped: bool) -> ImageCheckFailure {
    ImageCheckFailure {
        environment: Environment::Ot,
        id: 1,
        name: String::from("Missing | Image"),
        alias: 2,
        primary: FailedImageCheck {
            image_id: 1,
            url: String::from("https://example.test/1.jpg"),
            reason: String::from("HTTP 404 Not Found"),
        },
        alias_check: Some(FailedImageCheck {
            image_id: 2,
            url: String::from("https://example.test/2.jpg"),
            reason: String::from("request | timed out"),
        }),
        card_skipped,
    }
}

fn dataset(skip: bool) -> DatasetReport {
    DatasetReport {
        environment: Environment::Ot,
        path: String::from("output/ot.json"),
        cards_written: if skip { 9 } else { 10 },
        cards_skipped: if skip { 1 } else { 0 },
        lf_statistics_options: LfStatisticsOptions::default(),
        lf_summaries: Vec::new(),
        image_summary: ImageCheckSummary {
            enabled: true,
            skip_failures: skip,
            cards_checked: 10,
            primary_found: 9,
            missing: 1,
            cards_skipped: if skip { 1 } else { 0 },
            ..ImageCheckSummary::default()
        },
        image_failures: vec![failure(skip)],
    }
}

#[test]
fn reports_image_failure_policy_and_skipped_count() {
    let report = build_summary_report(&[dataset(true)], &[]);

    assert!(report.contains("| On image failure | skip card |"));
    assert!(report.contains("| On failure | skip card |"));
    assert!(report.contains("| Cards skipped after image failure | 1 |"));

    let report = build_summary_report(&[dataset(false)], &[]);

    assert!(report.contains("| On image failure | keep card with image = 0 |"));
    assert!(report.contains("| Cards skipped after image failure | 0 |"));
}

#[test]
fn reports_detailed_image_failures_and_policy() {
    let report = build_summary_report(&[dataset(true)], &[]);

    assert!(report.contains("| On image failure | skip card |"));
    assert!(report.contains("| On failure | skip card |"));
    assert!(report.contains("| Cards skipped after image failure | 1 |"));
    assert!(report.contains("| Build log | `output/build.log` |"));
    assert!(report.contains("<summary>Image statistics</summary>"));
    assert!(report.contains("<summary>Detailed image totals</summary>"));
    assert!(report.contains("<summary>Failed image cards (1)</summary>"));
    assert!(report.contains("<summary>Failed image candidate checks (2)</summary>"));
    assert!(report.contains("| OT | 1 | 2 | Missing \\| Image | skipped |"));
    assert!(report.contains("| OT | 1 | primary | 1 | https://example.test/1.jpg | HTTP 404 Not Found |"));
    assert!(report.contains("| OT | 1 | alias | 2 | https://example.test/2.jpg | request \\| timed out |"));
    assert_eq!(report.matches("<details>").count(), 4);
    assert_eq!(report.matches("</details>").count(), 4);

    let report = build_summary_report(&[dataset(false)], &[]);

    assert!(report.contains("| On image failure | keep card with image = 0 |"));
    assert!(report.contains("| Cards skipped after image failure | 0 |"));
    assert!(report.contains("| OT | 1 | 2 | Missing \\| Image | kept with image = 0 |"));
}

#[test]
fn reports_runs_without_image_checks() {
    let report = DatasetReport {
        environment: Environment::Rd,
        path: String::from("output/rd.json"),
        cards_written: 1234,
        cards_skipped: 0,
        lf_statistics_options: LfStatisticsOptions::default(),
        lf_summaries: vec![ForbiddenListSummary {
            label: String::from("RD"),
            forbidden: 1,
            limited: 2,
            semi_limited: 3,
            unlimited: 4,
        }],
        image_summary: ImageCheckSummary::default(),
        image_failures: Vec::new(),
    };
    let text = build_summary_report(&[report], &[]);
    assert!(text.starts_with("# ygo-cards Build Report\n\n## Overview\n\n"));
    assert!(text.contains("| Cards written | 1234 |"));
    assert!(text.contains("| Image check | disabled |"));
    assert!(text.contains("## RD\n\n"));
    assert!(text.contains("| RD | 1 | 2 | 3 | 4 |"));
    assert!(!text.contains("## Image Totals"));
    assert!(!text.contains("<details>"));
    assert!(text.ends_with("## New Cards Since Latest Release\n\n"));
}

#[test]
fn renders_dataset_as_scannable_sections() {
    let report = DatasetReport {
        environment: Environment::Ot,
        path: String::from("output/ot.json"),
        cards_written: 14_947,
        cards_skipped: 1,
        lf_statistics_options: LfStatisticsOptions::default(),
        lf_summaries: Vec::new(),
        image_summary: ImageCheckSummary {
            enabled: true,
            cards_checked: 11,
            primary_found: 9,
            alias_found: 1,
            missing: 1,
            cards_skipped: 1,
            unique_urls_found: 10,
            unique_urls_missing: 1,
            cache_hits: 2,
            network_errors: 1,
            skip_failures: true,
        },
        image_failures: Vec::new(),
    };

    let output = render_write_report(&report);

    assert!(output.starts_with("OT dataset\n"));
    assert!(output.contains("Cards            14,947 written, 1 skipped"));
    assert!(output.contains("Resolved       10 of 11 cards"));
    assert!(output.contains("Failure policy skip card (1 network error)"));
    assert!(!output.contains("success="));
    assert!(output.contains("\n  LF aliases       included\n"));
    assert!(!output.ends_with('\n'));
}

#[test]
fn renders_forbidden_list_counts_in_columns() {
    let report = DatasetReport {
        environment: Environment::Ot,
        path: String::from("output/ot.json"),
        cards_written: 2,
        cards_skipped: 0,
        lf_statistics_options: LfStatisticsOptions::default(),
        lf_summaries: vec![
            ForbiddenListSummary { label: String::from("OCG"), forbidden: 90, limited: 1, semi_limited: 0, unlimited: 12345 },
            ForbiddenListSummary { label: String::from("TCG+"), forbidden: 0, limited: 0, semi_limited: 0, unlimited: 0 },
        ],
        image_summary: ImageCheckSummary::default(),
        image_failures: Vec::new(),
    };
    let output = render_write_report(&report);
    assert_eq!(
        output,
        "OT dataset\n  Output           output/ot.json\n  Cards            2 written, 0 skipped\n  \
         LF aliases       included\n  \
         Forbidden lists (forbidden / limited / semi-limited / unlimited)\n    \
         OCG      90 /     1 /     0 / 12,345\n    TCG+      0 /     0 /     0 /     0"
    );
}

#[test]
fn renders_the_build_summary() {
    let comparisons = vec![
        LatestComparisonReport {
            environment: Environment::Ot,
            latest_url: String::from("u"),
            current_cards: 1500,
            status: LatestComparisonStatus::Compared { previous_cards: 1499 },
            added_cards: vec![card(1, "A", &[])],
        },
        LatestComparisonReport {
            environment: Environment::Rd,
            latest_url: String::from("u"),
            current_cards: 3,
            status: LatestComparisonStatus::NotFound,
            added_cards: Vec::new(),
        },
    ];
    let output = render_summary_report(&[dataset(true)], &comparisons);
    assert_eq!(
        output,
        "Build summary\n  Cards            9 written, 1 skipped\n  Images           9 resolved, 1 failed, 0 network errors\n  \
         New since latest\n    OT  1 new (1,499 -> 1,500 cards)\n    RD  unavailable (no previous release)"
    );
}

#[test]
fn totals_reports() {
    let totals = ReportTotals::from_reports(&[dataset(true), dataset(false)]);
    assert_eq!(totals.cards_written, 19);
    assert_eq!(totals.cards_skipped, 1);
    assert_eq!(totals.image_failures, 2);
    assert_eq!(totals.images.cards_checked, 20);
    assert!(totals.images.skip_failures);
    assert_eq!(image_failure_action(totals.images), "skip card");
}

#[test]
fn escapes_markdown_cells() {
    assert_eq!(escape_markdown_cell("a|b\\c\nd"), "a\\|b\\\\c<br>d");
    assert_eq!(escape_markdown_cell(""), "");
}

#[test]
fn formats_error_chains_on_separate_lines() {
    let formatted = format_error_chain(&strings(&["failed to load fixture", "No such file or directory (os error 2)"]));

    assert!(formatted.starts_with("failed to load fixture\ncaused by: "));
    assert!(formatted.contains("No such file or directory"));
    assert_eq!(format_error_chain(&[]), "unknown error");
}

#[test]
fn shows_errors_with_numbered_causes() {
    let text = error_report_text("Build failed", &strings(&["outer", "middle", "inner"]), Some("output/build.log"));
    assert_eq!(
        text,
        "\nBuild failed\n  Error: outer\n  Caused by:\n    1. middle\n    2. inner\n  Diagnostics: output/build.log\n"
    );
    assert_eq!(error_report_text("T", &strings(&["only"]), None), "\nT\n  Error: only\n");
}

#[test]
fn summarizes_a_finished_build() {
    let clean = DiagnosticSnapshot::from_records(Vec::new());
    assert_eq!(diagnostic_summary_text(&clean), "clean");
    let mixed = DiagnosticSnapshot::from_records(vec![
        Diagnostic::warning("a", "A"),
        Diagnostic::error("b", "B"),
        Diagnostic::error("c", "C"),
    ]);
    assert_eq!(diagnostic_summary_text(&mixed), "1 warning, 2 errors");
    assert_eq!(
        build_complete_text("output/report.md", "output/build.log", "clean"),
        "\nBuild complete\n  Report       output/report.md\n  Diagnostics  output/build.log (clean)"
    );
}

#[test]
fn dataset_block_says_whether_lf_counts_ignore_aliases() {
    let mut report = dataset(false);
    report.lf_statistics_options = LfStatisticsOptions { ignore_aliases: true };
    let output = render_write_report(&report);
    assert!(output.contains("written, 0 skipped\n  LF aliases       ignored\n"));
}

#[test]
fn forbidden_list_labels_are_aligned_by_their_length_in_bytes() {
    let mut report = dataset(false);
    report.lf_summaries = vec![
        ForbiddenListSummary { label: String::from("OCG"), forbidden: 0, limited: 0, semi_limited: 0, unlimited: 1 },
        ForbiddenListSummary { label: String::from("禁止"), forbidden: 0, limited: 0, semi_limited: 0, unlimited: 1 },
    ];
    let output = render_write_report(&report);
    assert!(output.contains("\n    OCG         0 /     0 /     0 /     1\n"));
    assert!(output.contains("\n    禁止          0 /     0 /     0 /     1\n"));
}
