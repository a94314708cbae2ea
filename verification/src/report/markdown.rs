//! The Markdown build report: an overview of the run, a section per
//! environment with its forbidden-list counts and image checks, the image
//! totals, and the cards that are new since the latest release.
use vstd::prelude::*;

use crate::cards::images::{failures_view, total, FailedCheckView, FailedImageCheck, ImageCheckFailure, ImageCheckFailureView, ImageCheckSummary};
use crate::cards::{DatasetReport, ForbiddenListSummary};
use crate::chars::{chars_of, push_chars, push_str, string_from_chars};
use crate::environment::environment_label;
use crate::formatting::{decimal, push_decimal, signed_decimal, signed_decimal_chars};
use crate::latest::{
    summaries_view, CardSummary, CardSummaryView, ComparisonStatusView, LatestComparisonReport,
    LatestComparisonStatus,
};
use crate::report::{
    begin_collapsed, begin_collapsed_text, card_type_display, end_collapsed, end_collapsed_text,
    escape_cell, failure_action_text, image_failure_action, push_escaped, summaries_of, totals_fit,
    type_display, ReportTotals,
};

verus! {

/// The rows of the image statistics table.
pub open spec fn stats_rows(s: ImageCheckSummary, failed: nat) -> Seq<char> {
    "| Successful cards | "@ + decimal((s.primary_found + s.alias_found) as nat) + " |\n| Failed cards | "@
        + decimal(failed) + " |\n| On failure | "@ + failure_action_text(s)
        + " |\n| Cards skipped after image failure | "@ + decimal(s.cards_skipped as nat)
        + " |\n| Primary hits | "@ + decimal(s.primary_found as nat) + " |\n| Alias hits | "@ + decimal(
        s.alias_found as nat,
    ) + " |\n| Checked cards | "@ + decimal(s.cards_checked as nat) + " |\n| Unique URLs found | "@
        + decimal(s.unique_urls_found as nat) + " |\n| Unique URLs missing | "@ + decimal(
        s.unique_urls_missing as nat,
    ) + " |\n| Cache hits | "@ + decimal(s.cache_hits as nat) + " |\n| Network errors | "@ + decimal(
        s.network_errors as nat,
    ) + " |\n"@
}

/// Appends the rows of the image statistics table.
fn push_stats_rows(out: &mut Vec<char>, s: ImageCheckSummary, failed: usize)
    requires
        s.primary_found + s.alias_found <= usize::MAX,
    ensures
        final(out)@ == old(out)@ + stats_rows(s, failed as nat),
{
    let mut piece = chars_of("| Successful cards | ");
    push_decimal(&mut piece, s.successful_cards());
    push_str(&mut piece, " |\n| Failed cards | ");
    push_decimal(&mut piece, failed);
    push_str(&mut piece, " |\n| On failure | ");
    push_str(&mut piece, image_failure_action(s));
    push_str(&mut piece, " |\n| Cards skipped after image failure | ");
    push_decimal(&mut piece, s.cards_skipped);
    push_str(&mut piece, " |\n| Primary hits | ");
    push_decimal(&mut piece, s.primary_found);
    push_str(&mut piece, " |\n| Alias hits | ");
    push_decimal(&mut piece, s.alias_found);
    push_str(&mut piece, " |\n| Checked cards | ");
    push_decimal(&mut piece, s.cards_checked);
    push_str(&mut piece, " |\n| Unique URLs found | ");
    push_decimal(&mut piece, s.unique_urls_found);
    push_str(&mut piece, " |\n| Unique URLs missing | ");
    push_decimal(&mut piece, s.unique_urls_missing);
    push_str(&mut piece, " |\n| Cache hits | ");
    push_decimal(&mut piece, s.cache_hits);
    push_str(&mut piece, " |\n| Network errors | ");
    push_decimal(&mut piece, s.network_errors);
    push_str(&mut piece, " |\n");
    push_chars(out, &piece);
}

/// The overview at the top of the report.
pub open spec fn overview_text(t: ReportTotals) -> Seq<char> {
    "# ygo-cards Build Report\n\n"@ + "## Overview\n\n"@ + "| Metric | Value |\n"@ + "| --- | ---: |\n"@
        + "| Cards written | "@ + decimal(t.cards_written as nat) + " |\n"@ + "| Cards skipped | "@
        + decimal(t.cards_skipped as nat) + " |\n"@ + "| Build log | `"@
        + crate::diagnostics::BUILD_LOG_PATH@ + "` |\n"@ + "| Image check | "@ + (if t.images.enabled {
        "enabled"@
    } else {
        "disabled"@
    }) + " |\n"@ + (if t.images.enabled {
        "| On image failure | "@ + failure_action_text(t.images)
            + " |\n| Cards skipped after image failure | "@ + decimal(t.images.cards_skipped as nat)
            + " |\n"@
    } else {
        seq![]
    }) + "\n"@
}

fn push_overview(out: &mut Vec<char>, t: ReportTotals)
    ensures
        final(out)@ == old(out)@ + overview_text(t),
{
    let mut piece = chars_of("# ygo-cards Build Report\n\n");
    push_str(&mut piece, "## Overview\n\n");
    push_str(&mut piece, "| Metric | Value |\n");
    push_str(&mut piece, "| --- | ---: |\n");
    push_str(&mut piece, "| Cards written | ");
    push_decimal(&mut piece, t.cards_written);
    push_str(&mut piece, " |\n");
    push_str(&mut piece, "| Cards skipped | ");
    push_decimal(&mut piece, t.cards_skipped);
    push_str(&mut piece, " |\n");
    push_str(&mut piece, "| Build log | `");
    push_str(&mut piece, crate::diagnostics::BUILD_LOG_PATH);
    push_str(&mut piece, "` |\n");
    push_str(&mut piece, "| Image check | ");
    push_str(&mut piece, if t.images.enabled { "enabled" } else { "disabled" });
    push_str(&mut piece, " |\n");
    let ghost before_policy = piece@;
    let mut policy = chars_of("");
    if t.images.enabled {
        policy = chars_of("| On image failure | ");
        push_str(&mut policy, image_failure_action(t.images));
        push_str(&mut policy, " |\n| Cards skipped after image failure | ");
        push_decimal(&mut policy, t.images.cards_skipped);
        push_str(&mut policy, " |\n");
    }
    proof {
        reveal_strlit("");
    }
    push_chars(&mut piece, &policy);
    push_str(&mut piece, "\n");
    proof {
        assert(policy@ =~= (if t.images.enabled {
            "| On image failure | "@ + failure_action_text(t.images)
                + " |\n| Cards skipped after image failure | "@ + decimal(t.images.cards_skipped as nat)
                + " |\n"@
        } else {
            seq![]
        }));
    }
    push_chars(out, &piece);
}

/// The rows of a forbidden-list table.
pub open spec fn lf_rows(sums: Seq<ForbiddenListSummary>) -> Seq<char>
    decreases sums.len(),
{
    if sums.len() == 0 {
        seq![]
    } else {
        let s = sums.last();
        lf_rows(sums.drop_last()) + ("| "@ + s.label@ + " | "@ + decimal(s.forbidden as nat) + " | "@
            + decimal(s.limited as nat) + " | "@ + decimal(s.semi_limited as nat) + " | "@ + decimal(
            s.unlimited as nat,
        ) + " |\n"@)
    }
}

fn push_lf_rows(out: &mut Vec<char>, sums: &[ForbiddenListSummary])
    ensures
        final(out)@ == old(out)@ + lf_rows(sums@),
{
    let ghost start = out@;
    let mut i: usize = 0;
    proof {
        assert(sums@.take(0) =~= Seq::<ForbiddenListSummary>::empty());
        assert(out@ =~= start + lf_rows(sums@.take(0)));
    }
    while i < sums.len()
        invariant
            0 <= i <= sums@.len(),
            out@ == start + lf_rows(sums@.take(i as int)),
        decreases sums@.len() - i,
    {
        let s = &sums[i];
        let mut piece = chars_of("| ");
        push_str(&mut piece, s.label.as_str());
        push_str(&mut piece, " | ");
        push_decimal(&mut piece, s.forbidden);
        push_str(&mut piece, " | ");
        push_decimal(&mut piece, s.limited);
        push_str(&mut piece, " | ");
        push_decimal(&mut piece, s.semi_limited);
        push_str(&mut piece, " | ");
        push_decimal(&mut piece, s.unlimited);
        push_str(&mut piece, " |\n");
        let ghost before = out@;
        push_chars(out, &piece);
        proof {
            assert(sums@.take(i + 1).drop_last() =~= sums@.take(i as int));
            assert(sums@.take(i + 1).last() == sums@[i as int]);
            assert(out@ =~= start + lf_rows(sums@.take(i + 1)));
        }
        i += 1;
    }
    proof {
        assert(sums@.take(sums@.len() as int) =~= sums@);
    }
}

/// How a failed card is handled, as the failure table says it.
pub open spec fn failed_card_action_text(card_skipped: bool) -> Seq<char> {
    if card_skipped {
        "skipped"@
    } else {
        "kept with image = 0"@
    }
}

/// How a failed card is handled.
pub fn failed_card_action(card_skipped: bool) -> (res: &'static str)
    ensures
        res@ == failed_card_action_text(card_skipped),
{
    if card_skipped {
        "skipped"
    } else {
        "kept with image = 0"
    }
}

/// The row of a failed card.
pub open spec fn failure_row(f: ImageCheckFailureView) -> Seq<char> {
    "| "@ + environment_label(f.environment) + " | "@ + signed_decimal(f.id as int) + " | "@
        + signed_decimal(f.alias as int) + " | "@ + escape_cell(f.name) + " | "@
        + failed_card_action_text(f.card_skipped) + " |\n"@
}

/// The rows of the failed cards.
pub open spec fn failure_rows(fs: Seq<ImageCheckFailureView>) -> Seq<char>
    decreases fs.len(),
{
    if fs.len() == 0 {
        seq![]
    } else {
        failure_rows(fs.drop_last()) + failure_row(fs.last())
    }
}

/// The row of a failed candidate check of a card.
pub open spec fn check_row(f: ImageCheckFailureView, candidate: Seq<char>, c: FailedCheckView) -> Seq<char> {
    "| "@ + environment_label(f.environment) + " | "@ + signed_decimal(f.id as int) + " | "@ + candidate
        + " | "@ + signed_decimal(c.image_id as int) + " | "@ + escape_cell(c.url) + " | "@
        + escape_cell(c.reason) + " |\n"@
}

/// The rows of a card's failed candidate checks: its own ID, then its
/// alias when that was checked.
pub open spec fn card_check_rows(f: ImageCheckFailureView) -> Seq<char> {
    check_row(f, "primary"@, f.primary) + match f.alias_check {
        Some(a) => check_row(f, "alias"@, a),
        None => seq![],
    }
}

/// The rows of all failed candidate checks.
pub open spec fn check_rows(fs: Seq<ImageCheckFailureView>) -> Seq<char>
    decreases fs.len(),
{
    if fs.len() == 0 {
        seq![]
    } else {
        check_rows(fs.drop_last()) + card_check_rows(fs.last())
    }
}

/// How many candidate checks failed.
pub open spec fn failed_check_count(fs: Seq<ImageCheckFailureView>) -> nat
    decreases fs.len(),
{
    if fs.len() == 0 {
        0
    } else {
        failed_check_count(fs.drop_last()) + 1 + if fs.last().alias_check is Some { 1nat } else { 0nat }
    }
}

pub proof fn lemma_failed_check_count_bound(fs: Seq<ImageCheckFailureView>)
    ensures
        failed_check_count(fs) <= 2 * fs.len(),
    decreases fs.len(),
{
    if fs.len() > 0 {
        lemma_failed_check_count_bound(fs.drop_last());
    }
}

/// The failed-image section of an environment: nothing when no card
/// failed, else the failed cards and the failed candidate checks, each in
/// a collapsed section.
pub open spec fn failures_section(fs: Seq<ImageCheckFailureView>) -> Seq<char> {
    if fs.len() == 0 {
        seq![]
    } else {
        "#### Image Failures\n\n"@ + begin_collapsed_text(
            "Failed image cards ("@ + decimal(fs.len()) + ")"@,
        ) + "| Environment | Card ID | Alias | Name | Action |\n"@
            + "| --- | ---: | ---: | --- | --- |\n"@ + failure_rows(fs) + end_collapsed_text()
            + begin_collapsed_text(
            "Failed image candidate checks ("@ + decimal(failed_check_count(fs)) + ")"@,
        ) + "| Environment | Card ID | Candidate | Image ID | URL | Failure reason |\n"@
            + "| --- | ---: | --- | ---: | --- | --- |\n"@ + check_rows(fs) + end_collapsed_text()
    }
}

fn append_failed_image_check(out: &mut Vec<char>, f: &ImageCheckFailure, candidate: &str, c: &FailedImageCheck)
    ensures
        final(out)@ == old(out)@ + check_row(f@, candidate@, c@),
{
    let mut piece = chars_of("| ");
    push_str(&mut piece, f.environment.label());
    push_str(&mut piece, " | ");
    push_chars(&mut piece, &signed_decimal_chars(f.id));
    push_str(&mut piece, " | ");
    push_str(&mut piece, candidate);
    push_str(&mut piece, " | ");
    push_chars(&mut piece, &signed_decimal_chars(c.image_id));
    push_str(&mut piece, " | ");
    push_escaped(&mut piece, c.url.as_str());
    push_str(&mut piece, " | ");
    push_escaped(&mut piece, c.reason.as_str());
    push_str(&mut piece, " |\n");
    push_chars(out, &piece);
}

fn append_image_failures(out: &mut Vec<char>, failures: &[ImageCheckFailure])
    requires
        2 * failures@.len() <= usize::MAX,
    ensures
        final(out)@ == old(out)@ + failures_section(failures_view(failures@)),
{
    let ghost fs = failures_view(failures@);
    if failures.len() == 0 {
        proof {
            assert(old(out)@ + failures_section(fs) =~= old(out)@);
        }
        return;
    }
    let mut piece = chars_of("#### Image Failures\n\n");
    let mut title = chars_of("Failed image cards (");
    push_decimal(&mut title, failures.len());
    push_str(&mut title, ")");
    begin_collapsed(&mut piece, &title);
    push_str(&mut piece, "| Environment | Card ID | Alias | Name | Action |\n");
    push_str(&mut piece, "| --- | ---: | ---: | --- | --- |\n");
    let ghost rows_start = piece@;
    let mut i: usize = 0;
    proof {
        assert(fs.take(0) =~= Seq::<ImageCheckFailureView>::empty());
        assert(piece@ =~= rows_start + failure_rows(fs.take(0)));
    }
    while i < failures.len()
        invariant
            0 <= i <= failures@.len(),
            fs == failures_view(failures@),
            piece@ == rows_start + failure_rows(fs.take(i as int)),
        decreases failures@.len() - i,
    {
        let f = &failures[i];
        let mut row = chars_of("| ");
        push_str(&mut row, f.environment.label());
        push_str(&mut row, " | ");
        push_chars(&mut row, &signed_decimal_chars(f.id));
        push_str(&mut row, " | ");
        push_chars(&mut row, &signed_decimal_chars(f.alias));
        push_str(&mut row, " | ");
        push_escaped(&mut row, f.name.as_str());
        push_str(&mut row, " | ");
        push_str(&mut row, failed_card_action(f.card_skipped));
        push_str(&mut row, " |\n");
        push_chars(&mut piece, &row);
        proof {
            assert(fs.take(i + 1).drop_last() =~= fs.take(i as int));
            assert(fs.take(i + 1).last() == f@);
            assert(piece@ =~= rows_start + failure_rows(fs.take(i + 1)));
        }
        i += 1;
    }
    proof {
        assert(fs.take(fs.len() as int) =~= fs);
    }
    end_collapsed(&mut piece);
    let mut checks_count: usize = 0;
    let mut k: usize = 0;
    proof {
        lemma_failed_check_count_bound(fs);
    }
    while k < failures.len()
        invariant
            0 <= k <= failures@.len(),
            fs == failures_view(failures@),
            2 * failures@.len() <= usize::MAX,
            checks_count == failed_check_count(fs.take(k as int)),
        decreases failures@.len() - k,
    {
        proof {
            assert(fs.take(k + 1).drop_last() =~= fs.take(k as int));
            lemma_failed_check_count_bound(fs.take(k + 1));
        }
        checks_count = checks_count + 1;
        if failures[k].alias_check.is_some() {
            checks_count = checks_count + 1;
        }
        k += 1;
    }
    proof {
        assert(fs.take(fs.len() as int) =~= fs);
    }
    let mut title2 = chars_of("Failed image candidate checks (");
    push_decimal(&mut title2, checks_count);
    push_str(&mut title2, ")");
    begin_collapsed(&mut piece, &title2);
    push_str(&mut piece, "| Environment | Card ID | Candidate | Image ID | URL | Failure reason |\n");
    push_str(&mut piece, "| --- | ---: | --- | ---: | --- | --- |\n");
    let ghost checks_start = piece@;
    let mut j: usize = 0;
    proof {
        assert(fs.take(0) =~= Seq::<ImageCheckFailureView>::empty());
        assert(piece@ =~= checks_start + check_rows(fs.take(0)));
    }
    while j < failures.len()
        invariant
            0 <= j <= failures@.len(),
            fs == failures_view(failures@),
            piece@ == checks_start + check_rows(fs.take(j as int)),
        decreases failures@.len() - j,
    {
        let f = &failures[j];
        let mut rows: Vec<char> = Vec::new();
        append_failed_image_check(&mut rows, f, "primary", &f.primary);
        match &f.alias_check {
            Some(a) => append_failed_image_check(&mut rows, f, "alias", a),
            None => {},
        }
        proof {
            assert(rows@ =~= card_check_rows(f@));
        }
        push_chars(&mut piece, &rows);
        proof {
            assert(fs.take(j + 1).drop_last() =~= fs.take(j as int));
            assert(fs.take(j + 1).last() == f@);
            assert(piece@ =~= checks_start + check_rows(fs.take(j + 1)));
        }
        j += 1;
    }
    proof {
        assert(fs.take(fs.len() as int) =~= fs);
    }
    end_collapsed(&mut piece);
    proof {
        assert(piece@ =~= failures_section(fs));
    }
    push_chars(out, &piece);
}


/// The image part of an environment's section: nothing when images were
/// not checked, else the statistics and the failures.
pub open spec fn environment_images(r: DatasetReport) -> Seq<char> {
    if r.image_summary.enabled {
        "### Images\n\n"@ + begin_collapsed_text("Image statistics"@) + "| Metric | Value |\n"@
            + "| --- | ---: |\n"@ + stats_rows(r.image_summary, r.image_failures@.len()) + end_collapsed_text()
            + failures_section(failures_view(r.image_failures@))
    } else {
        seq![]
    }
}

/// The section of one environment.
pub open spec fn environment_section(r: DatasetReport) -> Seq<char> {
    "## "@ + environment_label(r.environment) + "\n\n"@ + "| Metric | Value |\n"@ + "| --- | ---: |\n"@
        + "| Output | `"@ + r.path@ + "` |\n| Cards written | "@ + decimal(r.cards_written as nat)
        + " |\n| Cards skipped | "@ + decimal(r.cards_skipped as nat) + " |\n\n"@
        + "### Forbidden Lists\n\n"@ + "| List | Forbidden | Limit | Semi | Unlimited |\n"@
        + "| --- | ---: | ---: | ---: | ---: |\n"@ + lf_rows(r.lf_summaries@) + "\n"@
        + environment_images(r)
}

/// Whether a report can be rendered: its image counts and failures fit in
/// `usize`.
pub open spec fn report_renders(r: DatasetReport) -> bool {
    &&& r.image_summary.primary_found + r.image_summary.alias_found <= usize::MAX
    &&& 2 * r.image_failures@.len() <= usize::MAX
}

/// Appends the section of one environment.
pub fn append_environment_report(out: &mut Vec<char>, r: &DatasetReport)
    requires
        report_renders(*r),
    ensures
        final(out)@ == old(out)@ + environment_section(*r),
{
    let mut piece = chars_of("## ");
    push_str(&mut piece, r.environment.label());
    push_str(&mut piece, "\n\n");
    push_str(&mut piece, "| Metric | Value |\n");
    push_str(&mut piece, "| --- | ---: |\n");
    push_str(&mut piece, "| Output | `");
    push_str(&mut piece, r.path.as_str());
    push_str(&mut piece, "` |\n| Cards written | ");
    push_decimal(&mut piece, r.cards_written);
    push_str(&mut piece, " |\n| Cards skipped | ");
    push_decimal(&mut piece, r.cards_skipped);
    push_str(&mut piece, " |\n\n");
    push_str(&mut piece, "### Forbidden Lists\n\n");
    push_str(&mut piece, "| List | Forbidden | Limit | Semi | Unlimited |\n");
    push_str(&mut piece, "| --- | ---: | ---: | ---: | ---: |\n");
    push_lf_rows(&mut piece, r.lf_summaries.as_slice());
    push_str(&mut piece, "\n");
    let mut images: Vec<char> = Vec::new();
    if r.image_summary.enabled {
        images = chars_of("### Images\n\n");
        begin_collapsed(&mut images, &chars_of("Image statistics"));
        push_str(&mut images, "| Metric | Value |\n");
        push_str(&mut images, "| --- | ---: |\n");
        push_stats_rows(&mut images, r.image_summary, r.image_failures.len());
        end_collapsed(&mut images);
        append_image_failures(&mut images, r.image_failures.as_slice());
    }
    proof {
        assert(images@ =~= environment_images(*r));
    }
    push_chars(&mut piece, &images);
    push_chars(out, &piece);
}

/// The image totals of the run.
pub open spec fn image_totals_section(t: ReportTotals) -> Seq<char> {
    "## Image Totals\n\n"@ + begin_collapsed_text("Detailed image totals"@) + "| Metric | Value |\n"@
        + "| --- | ---: |\n"@ + stats_rows(t.images, t.image_failures as nat) + end_collapsed_text()
}

/// Appends the image totals of the run.
pub fn append_image_totals(out: &mut Vec<char>, t: ReportTotals)
    requires
        t.images.primary_found + t.images.alias_found <= usize::MAX,
    ensures
        final(out)@ == old(out)@ + image_totals_section(t),
{
    let mut piece = chars_of("## Image Totals\n\n");
    begin_collapsed(&mut piece, &chars_of("Detailed image totals"));
    push_str(&mut piece, "| Metric | Value |\n");
    push_str(&mut piece, "| --- | ---: |\n");
    push_stats_rows(&mut piece, t.images, t.image_failures);
    end_collapsed(&mut piece);
    push_chars(out, &piece);
}

/// The row of a new card.
pub open spec fn new_card_row(c: CardSummaryView) -> Seq<char> {
    "| "@ + signed_decimal(c.id as int) + " | "@ + escape_cell(c.name) + " | "@ + escape_cell(
        type_display(c.card_type),
    ) + " |\n"@
}

/// The rows of the new cards.
pub open spec fn new_card_rows(cs: Seq<CardSummaryView>) -> Seq<char>
    decreases cs.len(),
{
    if cs.len() == 0 {
        seq![]
    } else {
        new_card_rows(cs.drop_last()) + new_card_row(cs.last())
    }
}

/// What the comparison of one environment says about its status.
pub open spec fn comparison_status_text(c: LatestComparisonReport) -> Seq<char> {
    match c.status@ {
        ComparisonStatusView::Compared(previous) => {
            let n = c.added_cards@.len();
            "| Metric | Value |\n"@ + "| --- | ---: |\n"@ + "| Previous cards | "@ + decimal(previous as nat)
                + " |\n"@ + "| Current cards | "@ + decimal(c.current_cards as nat) + " |\n"@
                + "| New cards | "@ + decimal(n) + " |\n\n"@ + if n == 0 {
                "No new cards.\n\n"@
            } else {
                begin_collapsed_text("New card details ("@ + decimal(n) + ")"@) + "| ID | Name | Type |\n"@
                    + "| ---: | --- | --- |\n"@ + new_card_rows(summaries_view(c.added_cards@))
                    + end_collapsed_text()
            }
        },
        ComparisonStatusView::NotFound => "Previous latest file was not found; comparison skipped.\n\n"@,
        ComparisonStatusView::Unavailable(reason) => "Previous latest file could not be compared: "@
            + escape_cell(reason) + ".\n\n"@,
    }
}

/// The part of one environment in the comparison section.
pub open spec fn comparison_text(c: LatestComparisonReport) -> Seq<char> {
    "### "@ + environment_label(c.environment) + "\n\n"@ + "Compared against ["@ + c.latest_url@ + "]("@
        + c.latest_url@ + ").\n\n"@ + comparison_status_text(c)
}

/// The parts of the environments in the comparison section.
pub open spec fn comparisons_text(cs: Seq<LatestComparisonReport>) -> Seq<char>
    decreases cs.len(),
{
    if cs.len() == 0 {
        seq![]
    } else {
        comparisons_text(cs.drop_last()) + comparison_text(cs.last())
    }
}

/// The section of the cards that are new since the latest release.
pub open spec fn latest_section(cs: Seq<LatestComparisonReport>) -> Seq<char> {
    "## New Cards Since Latest Release\n\n"@ + comparisons_text(cs)
}

fn push_comparison(out: &mut Vec<char>, c: &LatestComparisonReport)
    ensures
        final(out)@ == old(out)@ + comparison_text(*c),
{
    let mut piece = chars_of("### ");
    push_str(&mut piece, c.environment.label());
    push_str(&mut piece, "\n\n");
    push_str(&mut piece, "Compared against [");
    push_str(&mut piece, c.latest_url.as_str());
    push_str(&mut piece, "](");
    push_str(&mut piece, c.latest_url.as_str());
    push_str(&mut piece, ").\n\n");
    let mut status: Vec<char> = Vec::new();
    match &c.status {
        LatestComparisonStatus::Compared { previous_cards } => {
            let n = c.added_cards.len();
            status = chars_of("| Metric | Value |\n");
            push_str(&mut status, "| --- | ---: |\n");
            push_str(&mut status, "| Previous cards | ");
            push_decimal(&mut status, *previous_cards);
            push_str(&mut status, " |\n");
            push_str(&mut status, "| Current cards | ");
            push_decimal(&mut status, c.current_cards);
            push_str(&mut status, " |\n");
            push_str(&mut status, "| New cards | ");
            push_decimal(&mut status, n);
            push_str(&mut status, " |\n\n");
            let mut details: Vec<char> = Vec::new();
            if n == 0 {
                details = chars_of("No new cards.\n\n");
            } else {
                let mut title = chars_of("New card details (");
                push_decimal(&mut title, n);
                push_str(&mut title, ")");
                begin_collapsed(&mut details, &title);
                push_str(&mut details, "| ID | Name | Type |\n");
                push_str(&mut details, "| ---: | --- | --- |\n");
                let ghost rows_start = details@;
                let ghost cs = summaries_view(c.added_cards@);
                let mut i: usize = 0;
                proof {
                    assert(cs.take(0) =~= Seq::<CardSummaryView>::empty());
                    assert(details@ =~= rows_start + new_card_rows(cs.take(0)));
                }
                while i < c.added_cards.len()
                    invariant
                        0 <= i <= c.added_cards@.len(),
                        cs == summaries_view(c.added_cards@),
                        details@ == rows_start + new_card_rows(cs.take(i as int)),
                    decreases c.added_cards@.len() - i,
                {
                    let card = &c.added_cards[i];
                    let mut row = chars_of("| ");
                    push_chars(&mut row, &signed_decimal_chars(card.id));
                    push_str(&mut row, " | ");
                    push_escaped(&mut row, card.name.as_str());
                    push_str(&mut row, " | ");
                    let types = card_type_display(card.card_type.as_slice());
                    push_escaped(&mut row, types.as_str());
                    push_str(&mut row, " |\n");
                    push_chars(&mut details, &row);
                    proof {
                        assert(cs.take(i + 1).drop_last() =~= cs.take(i as int));
                        assert(cs.take(i + 1).last() == card@);
                        assert(details@ =~= rows_start + new_card_rows(cs.take(i + 1)));
                    }
                    i += 1;
                }
                proof {
                    assert(cs.take(cs.len() as int) =~= cs);
                }
                end_collapsed(&mut details);
                proof {
                    assert(details@ =~= begin_collapsed_text("New card details ("@ + decimal(n as nat) + ")"@)
                        + "| ID | Name | Type |\n"@ + "| ---: | --- | --- |\n"@ + new_card_rows(cs)
                        + end_collapsed_text());
                }
            }
            push_chars(&mut status, &details);
        },
        LatestComparisonStatus::NotFound => {
            status = chars_of("Previous latest file was not found; comparison skipped.\n\n");
        },
        LatestComparisonStatus::Unavailable(reason) => {
            status = chars_of("Previous latest file could not be compared: ");
            push_escaped(&mut status, reason.as_str());
            push_str(&mut status, ".\n\n");
        },
    }
    proof {
        assert(status@ =~= comparison_status_text(*c));
    }
    push_chars(&mut piece, &status);
    push_chars(out, &piece);
}

/// Appends the section of the cards that are new since the latest
/// release.
pub fn append_latest_comparison_report(out: &mut Vec<char>, comparisons: &[LatestComparisonReport])
    ensures
        final(out)@ == old(out)@ + latest_section(comparisons@),
{
    let mut piece = chars_of("## New Cards Since Latest Release\n\n");
    let ghost start = piece@;
    let mut i: usize = 0;
    proof {
        assert(comparisons@.take(0) =~= Seq::<LatestComparisonReport>::empty());
        assert(piece@ =~= start + comparisons_text(comparisons@.take(0)));
    }
    while i < comparisons.len()
        invariant
            0 <= i <= comparisons@.len(),
            piece@ == start + comparisons_text(comparisons@.take(i as int)),
        decreases comparisons@.len() - i,
    {
        let ghost before = piece@;
        push_comparison(&mut piece, &comparisons[i]);
        proof {
            assert(comparisons@.take(i + 1).drop_last() =~= comparisons@.take(i as int));
            assert(comparisons@.take(i + 1).last() == comparisons@[i as int]);
            assert(piece@ =~= start + comparisons_text(comparisons@.take(i + 1)));
        }
        i += 1;
    }
    proof {
        assert(comparisons@.take(comparisons@.len() as int) =~= comparisons@);
    }
    push_chars(out, &piece);
}

/// The sections of the environments.
pub open spec fn environment_sections(r: Seq<DatasetReport>) -> Seq<char>
    decreases r.len(),
{
    if r.len() == 0 {
        seq![]
    } else {
        environment_sections(r.drop_last()) + environment_section(r.last())
    }
}

/// The build report: the overview, the section of each environment, the
/// image totals when images were checked, and the new cards since the
/// latest release.
pub open spec fn summary_report_text(reports: Seq<DatasetReport>, comparisons: Seq<LatestComparisonReport>, t: ReportTotals) -> Seq<char> {
    overview_text(t) + environment_sections(reports) + (if t.images.enabled {
        image_totals_section(t)
    } else {
        seq![]
    }) + latest_section(comparisons)
}

/// The build report opens with its title and overview, and closes with the
/// section of new cards since the latest release: whatever the reports,
/// nothing follows that section.
pub proof fn lemma_summary_report_bounds(
    reports: Seq<DatasetReport>,
    comparisons: Seq<LatestComparisonReport>,
    t: ReportTotals,
)
    ensures
        ({
            let text = summary_report_text(reports, comparisons, t);
            let title = "# ygo-cards Build Report\n\n"@;
            let last = latest_section(comparisons);
            &&& title.len() <= text.len()
            &&& text.subrange(0, title.len() as int) == title
            &&& text.subrange(0, overview_text(t).len() as int) == overview_text(t)
            &&& last.len() <= text.len()
            &&& text.subrange(text.len() - last.len(), text.len() as int) == last
        }),
{
    let text = summary_report_text(reports, comparisons, t);
    let title = "# ygo-cards Build Report\n\n"@;
    let o = overview_text(t);
    let last = latest_section(comparisons);
    let middle = environment_sections(reports) + (if t.images.enabled {
        image_totals_section(t)
    } else {
        seq![]
    });
    assert(text =~= o + middle + last);
    assert(o =~= title + o.subrange(title.len() as int, o.len() as int));
    assert(text.subrange(0, o.len() as int) =~= o);
    assert(text.subrange(0, title.len() as int) =~= title);
    assert(text.subrange(text.len() - last.len(), text.len() as int) =~= last);
}

/// The section of new cards begins with its heading, and has one part per
/// comparison, in the order of the comparisons, each opening with the
/// environment's heading.
pub proof fn lemma_latest_section_parts(comparisons: Seq<LatestComparisonReport>)
    ensures
        latest_section(comparisons) == "## New Cards Since Latest Release\n\n"@ + comparisons_text(comparisons),
        comparisons.len() > 0 ==> comparisons_text(comparisons) == comparisons_text(comparisons.drop_last())
            + comparison_text(comparisons.last()),
        forall|i: int| 0 <= i < comparisons.len() ==> ("### "@ + environment_label(comparisons[i].environment)).is_prefix_of(
            #[trigger] comparison_text(comparisons[i]),
        ),
{
    assert forall|i: int| 0 <= i < comparisons.len() implies ("### "@ + environment_label(comparisons[i].environment)).is_prefix_of(
        #[trigger] comparison_text(comparisons[i]),
    ) by {
        let c = comparisons[i];
        let head = "### "@ + environment_label(c.environment);
        assert(comparison_text(c) =~= head + comparison_text(c).subrange(head.len() as int, comparison_text(c).len() as int));
        assert(comparison_text(c).subrange(0, head.len() as int) =~= head);
    }
}

/// Whether the reports can be rendered: their totals and each report's
/// counts fit in `usize`.
pub open spec fn reports_render(reports: Seq<DatasetReport>) -> bool {
    &&& totals_fit(reports)
    &&& total(summaries_of(reports)).primary_found + total(summaries_of(reports)).alias_found
        <= usize::MAX
    &&& forall|i: int| 0 <= i < reports.len() ==> report_renders(#[trigger] reports[i])
}

/// The build report of a run.
pub fn build_summary_report(reports: &[DatasetReport], comparisons: &[LatestComparisonReport]) -> (res: String)
    requires
        reports_render(reports@),
    ensures
        res@ == summary_report_text(reports@, comparisons@, ReportTotals::from_reports_spec(reports@)),
{
    let totals = ReportTotals::from_reports(reports);
    let mut out: Vec<char> = Vec::new();
    push_overview(&mut out, totals);
    let ghost head = out@;
    let mut i: usize = 0;
    proof {
        assert(reports@.take(0) =~= Seq::<DatasetReport>::empty());
        assert(out@ =~= head + environment_sections(reports@.take(0)));
    }
    while i < reports.len()
        invariant
            0 <= i <= reports@.len(),
            reports_render(reports@),
            out@ == head + environment_sections(reports@.take(i as int)),
        decreases reports@.len() - i,
    {
        proof {
            assert(report_renders(reports@[i as int]));
        }
        append_environment_report(&mut out, &reports[i]);
        proof {
            assert(reports@.take(i + 1).drop_last() =~= reports@.take(i as int));
            assert(reports@.take(i + 1).last() == reports@[i as int]);
            assert(out@ =~= head + environment_sections(reports@.take(i + 1)));
        }
        i += 1;
    }
    proof {
        assert(reports@.take(reports@.len() as int) =~= reports@);
    }
    let ghost mid = out@;
    if totals.images.enabled {
        append_image_totals(&mut out, totals);
    }
    let ghost before_latest = out@;
    append_latest_comparison_report(&mut out, comparisons);
    proof {
        assert(out@ =~= summary_report_text(reports@, comparisons@, totals));
    }
    string_from_chars(&out)
}
} // verus!
