//! The terminal summaries of a run: one block per environment, and the
//! summary of the whole build.
use vstd::prelude::*;

use crate::cards::images::{total, ImageCheckSummary};
use crate::cards::{DatasetReport, ForbiddenListSummary};
use crate::chars::{chars_of, push_chars, push_str, string_from_chars, trim_end, trim_end_exec};
use crate::environment::environment_label;
use crate::formatting::{count_text, decimal, pad_left, pad_right, push_count, push_padded_left, push_padded_right};
use crate::latest::{ComparisonStatusView, LatestComparisonReport, LatestComparisonStatus};
use crate::report::{failure_action_text, image_failure_action, summaries_of, totals_fit, ReportTotals};

verus! {

/// The word for a count: the singular for one, the plural otherwise.
pub open spec fn word_for(count: nat, singular: Seq<char>, plural: Seq<char>) -> Seq<char> {
    if count == 1 {
        singular
    } else {
        plural
    }
}

/// The image block of an environment: nothing when images were not
/// checked.
pub open spec fn image_summary_text(s: ImageCheckSummary) -> Seq<char> {
    if !s.enabled {
        seq![]
    } else {
        "  Images\n"@ + "    "@ + pad_right("Resolved"@, 14) + " "@ + count_text((s.primary_found + s.alias_found) as nat)
            + " of "@ + count_text(s.cards_checked as nat) + " "@ + word_for(s.cards_checked as nat, "card"@, "cards"@)
            + "\n"@ + "    "@ + pad_right("Missing"@, 14) + " "@ + count_text(s.missing as nat) + " ("@ + count_text(
            s.cards_skipped as nat,
        ) + " "@ + word_for(s.cards_skipped as nat, "card"@, "cards"@) + " skipped)\n"@ + "    "@ + pad_right(
            "Matches"@,
            14,
        ) + " "@ + count_text(s.primary_found as nat) + " primary, "@ + count_text(s.alias_found as nat)
            + " alias\n"@ + "    "@ + pad_right("URL checks"@, 14) + " "@ + count_text(s.unique_urls_found as nat)
            + " found, "@ + count_text(s.unique_urls_missing as nat) + " missing, "@ + count_text(
            s.cache_hits as nat,
        ) + " cache hits\n"@ + "    "@ + pad_right("Failure policy"@, 14) + " "@ + failure_action_text(s) + " ("@
            + count_text(s.network_errors as nat) + " network "@ + word_for(s.network_errors as nat, "error"@, "errors"@)
            + ")\n"@
    }
}

/// Appends the image block of an environment.
pub fn append_image_summary(out: &mut Vec<char>, s: ImageCheckSummary)
    requires
        s.primary_found + s.alias_found <= usize::MAX,
    ensures
        final(out)@ == old(out)@ + image_summary_text(s),
{
    if !s.enabled {
        proof {
            assert(old(out)@ + image_summary_text(s) =~= old(out)@);
        }
        return;
    }
    let mut piece = chars_of("  Images\n");
    push_str(&mut piece, "    ");
    push_padded_right(&mut piece, &chars_of("Resolved"), 14);
    push_str(&mut piece, " ");
    push_count(&mut piece, s.successful_cards());
    push_str(&mut piece, " of ");
    push_count(&mut piece, s.cards_checked);
    push_str(&mut piece, " ");
    push_str(&mut piece, crate::formatting::plural(s.cards_checked, "card", "cards"));
    push_str(&mut piece, "\n");
    push_str(&mut piece, "    ");
    push_padded_right(&mut piece, &chars_of("Missing"), 14);
    push_str(&mut piece, " ");
    push_count(&mut piece, s.missing);
    push_str(&mut piece, " (");
    push_count(&mut piece, s.cards_skipped);
    push_str(&mut piece, " ");
    push_str(&mut piece, crate::formatting::plural(s.cards_skipped, "card", "cards"));
    push_str(&mut piece, " skipped)\n");
    push_str(&mut piece, "    ");
    push_padded_right(&mut piece, &chars_of("Matches"), 14);
    push_str(&mut piece, " ");
    push_count(&mut piece, s.primary_found);
    push_str(&mut piece, " primary, ");
    push_count(&mut piece, s.alias_found);
    push_str(&mut piece, " alias\n");
    push_str(&mut piece, "    ");
    push_padded_right(&mut piece, &chars_of("URL checks"), 14);
    push_str(&mut piece, " ");
    push_count(&mut piece, s.unique_urls_found);
    push_str(&mut piece, " found, ");
    push_count(&mut piece, s.unique_urls_missing);
    push_str(&mut piece, " missing, ");
    push_count(&mut piece, s.cache_hits);
    push_str(&mut piece, " cache hits\n");
    push_str(&mut piece, "    ");
    push_padded_right(&mut piece, &chars_of("Failure policy"), 14);
    push_str(&mut piece, " ");
    push_str(&mut piece, image_failure_action(s));
    push_str(&mut piece, " (");
    push_count(&mut piece, s.network_errors);
    push_str(&mut piece, " network ");
    push_str(&mut piece, crate::formatting::plural(s.network_errors, "error", "errors"));
    push_str(&mut piece, ")\n");
    push_chars(out, &piece);
}

/// The widest label of a list of forbidden-list counts, in bytes.
pub open spec fn lf_label_width(sums: Seq<ForbiddenListSummary>) -> nat
    decreases sums.len(),
{
    if sums.len() == 0 {
        0
    } else {
        let rest = lf_label_width(sums.drop_last());
        let l = crate::chars::utf8_len(sums.last().label@);
        if l >= rest {
            l
        } else {
            rest
        }
    }
}

/// The line of one forbidden list.
pub open spec fn lf_line(s: ForbiddenListSummary, width: nat) -> Seq<char> {
    "    "@ + pad_right(s.label@, width) + "  "@ + pad_left(count_text(s.forbidden as nat), 5) + " / "@
        + pad_left(count_text(s.limited as nat), 5) + " / "@ + pad_left(count_text(s.semi_limited as nat), 5)
        + " / "@ + pad_left(count_text(s.unlimited as nat), 5) + "\n"@
}

/// The lines of the forbidden lists.
pub open spec fn lf_lines(sums: Seq<ForbiddenListSummary>, width: nat) -> Seq<char>
    decreases sums.len(),
{
    if sums.len() == 0 {
        seq![]
    } else {
        lf_lines(sums.drop_last(), width) + lf_line(sums.last(), width)
    }
}

/// The block of one environment, before its trailing whitespace is
/// trimmed.
pub open spec fn write_report_lines(r: DatasetReport) -> Seq<char> {
    environment_label(r.environment) + " dataset\n"@ + "  "@ + pad_right("Output"@, 16) + " "@ + r.path@
        + "\n"@ + "  "@ + pad_right("Cards"@, 16) + " "@ + count_text(r.cards_written as nat) + " written, "@
        + count_text(r.cards_skipped as nat) + " skipped\n"@ + "  "@ + pad_right("LF aliases"@, 16) + " "@ + (
    if r.lf_statistics_options.ignore_aliases {
        "ignored"@
    } else {
        "included"@
    }) + "\n"@ + (if r.lf_summaries@.len() == 0 {
        seq![]
    } else {
        "  Forbidden lists (forbidden / limited / semi-limited / unlimited)\n"@ + lf_lines(
            r.lf_summaries@,
            lf_label_width(r.lf_summaries@),
        )
    }) + image_summary_text(r.image_summary)
}

/// The terminal block of one environment: its output, its counts, its
/// forbidden lists and its images.
pub fn render_write_report(r: &DatasetReport) -> (res: String)
    requires
        r.image_summary.primary_found + r.image_summary.alias_found <= usize::MAX,
    ensures
        res@ == trim_end(write_report_lines(*r)),
{
    let mut out = chars_of(r.environment.label());
    push_str(&mut out, " dataset\n");
    push_str(&mut out, "  ");
    push_padded_right(&mut out, &chars_of("Output"), 16);
    push_str(&mut out, " ");
    push_str(&mut out, r.path.as_str());
    push_str(&mut out, "\n");
    push_str(&mut out, "  ");
    push_padded_right(&mut out, &chars_of("Cards"), 16);
    push_str(&mut out, " ");
    push_count(&mut out, r.cards_written);
    push_str(&mut out, " written, ");
    push_count(&mut out, r.cards_skipped);
    push_str(&mut out, " skipped\n");
    push_str(&mut out, "  ");
    push_padded_right(&mut out, &chars_of("LF aliases"), 16);
    push_str(&mut out, " ");
    if r.lf_statistics_options.ignore_aliases {
        push_str(&mut out, "ignored");
    } else {
        push_str(&mut out, "included");
    }
    push_str(&mut out, "\n");
    let mut lf: Vec<char> = Vec::new();
    let sums = r.lf_summaries.as_slice();
    if sums.len() > 0 {
        lf = chars_of("  Forbidden lists (forbidden / limited / semi-limited / unlimited)\n");
        let mut width: usize = 0;
        let mut i: usize = 0;
        while i < sums.len()
            invariant
                0 <= i <= sums@.len(),
                width == lf_label_width(sums@.take(i as int)),
            decreases sums@.len() - i,
        {
            proof {
                assert(sums@.take(i + 1).drop_last() =~= sums@.take(i as int));
            }
            let l = crate::chars::byte_len(sums[i].label.as_str());
            if l >= width {
                width = l;
            }
            i += 1;
        }
        proof {
            assert(sums@.take(sums@.len() as int) =~= sums@);
        }
        let ghost start = lf@;
        let mut j: usize = 0;
        proof {
            assert(sums@.take(0) =~= Seq::<ForbiddenListSummary>::empty());
            assert(lf@ =~= start + lf_lines(sums@.take(0), width as nat));
        }
        while j < sums.len()
            invariant
                0 <= j <= sums@.len(),
                lf@ == start + lf_lines(sums@.take(j as int), width as nat),
            decreases sums@.len() - j,
        {
            let s = &sums[j];
            let mut line = chars_of("    ");
            push_padded_right(&mut line, &chars_of(s.label.as_str()), width);
            push_str(&mut line, "  ");
            push_padded_left(&mut line, &crate::chars::chars_of(crate::formatting::format_count(s.forbidden as u64).as_str()), 5);
            push_str(&mut line, " / ");
            push_padded_left(&mut line, &crate::chars::chars_of(crate::formatting::format_count(s.limited as u64).as_str()), 5);
            push_str(&mut line, " / ");
            push_padded_left(&mut line, &crate::chars::chars_of(crate::formatting::format_count(s.semi_limited as u64).as_str()), 5);
            push_str(&mut line, " / ");
            push_padded_left(&mut line, &crate::chars::chars_of(crate::formatting::format_count(s.unlimited as u64).as_str()), 5);
            push_str(&mut line, "\n");
            push_chars(&mut lf, &line);
            proof {
                assert(sums@.take(j + 1).drop_last() =~= sums@.take(j as int));
                assert(sums@.take(j + 1).last() == *s);
                assert(lf@ =~= start + lf_lines(sums@.take(j + 1), width as nat));
            }
            j += 1;
        }
        proof {
            assert(sums@.take(sums@.len() as int) =~= sums@);
        }
    }
    proof {
        assert(lf@ =~= (if r.lf_summaries@.len() == 0 {
            seq![]
        } else {
            "  Forbidden lists (forbidden / limited / semi-limited / unlimited)\n"@ + lf_lines(
                r.lf_summaries@,
                lf_label_width(r.lf_summaries@),
            )
        }));
    }
    push_chars(&mut out, &lf);
    append_image_summary(&mut out, r.image_summary);
    string_from_chars(&trim_end_exec(&out))
}

/// The widest environment label of the comparisons.
pub open spec fn comparison_label_width(cs: Seq<LatestComparisonReport>) -> nat
    decreases cs.len(),
{
    if cs.len() == 0 {
        0
    } else {
        let rest = comparison_label_width(cs.drop_last());
        let l = environment_label(cs.last().environment).len();
        if l >= rest {
            l
        } else {
            rest
        }
    }
}

/// The summary line of one comparison.
pub open spec fn comparison_line(c: LatestComparisonReport, width: nat) -> Seq<char> {
    "    "@ + pad_right(environment_label(c.environment), width) + "  "@ + match c.status@ {
        ComparisonStatusView::Compared(previous) => count_text(c.added_cards@.len()) + " new ("@ + count_text(
            previous as nat,
        ) + " -> "@ + count_text(c.current_cards as nat) + " cards)\n"@,
        ComparisonStatusView::NotFound => "unavailable (no previous release)\n"@,
        ComparisonStatusView::Unavailable(_) => "unavailable (see diagnostics)\n"@,
    }
}

/// The summary lines of the comparisons.
pub open spec fn comparison_lines(cs: Seq<LatestComparisonReport>, width: nat) -> Seq<char>
    decreases cs.len(),
{
    if cs.len() == 0 {
        seq![]
    } else {
        comparison_lines(cs.drop_last(), width) + comparison_line(cs.last(), width)
    }
}

/// The summary of the whole build, before its trailing whitespace is
/// trimmed.
pub open spec fn summary_lines(t: ReportTotals, cs: Seq<LatestComparisonReport>) -> Seq<char> {
    "Build summary\n"@ + "  "@ + pad_right("Cards"@, 16) + " "@ + count_text(t.cards_written as nat) + " written, "@
        + count_text(t.cards_skipped as nat) + " skipped\n"@ + (if t.images.enabled {
        "  "@ + pad_right("Images"@, 16) + " "@ + count_text((t.images.primary_found + t.images.alias_found) as nat)
            + " resolved, "@ + count_text(t.image_failures as nat) + " failed, "@ + count_text(
            t.images.network_errors as nat,
        ) + " network "@ + word_for(t.images.network_errors as nat, "error"@, "errors"@) + "\n"@
    } else {
        seq![]
    }) + (if cs.len() == 0 {
        seq![]
    } else {
        "  New since latest\n"@ + comparison_lines(cs, comparison_label_width(cs))
    })
}

/// The terminal summary of the whole build: the card totals, the image
/// totals when images were checked, and the new cards of each
/// environment.
pub fn render_summary_report(reports: &[DatasetReport], comparisons: &[LatestComparisonReport]) -> (res: String)
    requires
        totals_fit(reports@),
        total(summaries_of(reports@)).primary_found + total(summaries_of(reports@)).alias_found <= usize::MAX,
    ensures
        res@ == trim_end(summary_lines(ReportTotals::from_reports_spec(reports@), comparisons@)),
{
    let t = ReportTotals::from_reports(reports);
    let mut out = chars_of("Build summary\n");
    push_str(&mut out, "  ");
    push_padded_right(&mut out, &chars_of("Cards"), 16);
    push_str(&mut out, " ");
    push_count(&mut out, t.cards_written);
    push_str(&mut out, " written, ");
    push_count(&mut out, t.cards_skipped);
    push_str(&mut out, " skipped\n");
    let mut images: Vec<char> = Vec::new();
    if t.images.enabled {
        images = chars_of("  ");
        push_padded_right(&mut images, &chars_of("Images"), 16);
        push_str(&mut images, " ");
        push_count(&mut images, t.images.successful_cards());
        push_str(&mut images, " resolved, ");
        push_count(&mut images, t.image_failures);
        push_str(&mut images, " failed, ");
        push_count(&mut images, t.images.network_errors);
        push_str(&mut images, " network ");
        push_str(&mut images, crate::formatting::plural(t.images.network_errors, "error", "errors"));
        push_str(&mut images, "\n");
    }
    proof {
        assert(images@ =~= (if t.images.enabled {
            "  "@ + pad_right("Images"@, 16) + " "@ + count_text((t.images.primary_found + t.images.alias_found) as nat)
                + " resolved, "@ + count_text(t.image_failures as nat) + " failed, "@ + count_text(
                t.images.network_errors as nat,
            ) + " network "@ + word_for(t.images.network_errors as nat, "error"@, "errors"@) + "\n"@
        } else {
            seq![]
        }));
    }
    push_chars(&mut out, &images);
    let mut latest: Vec<char> = Vec::new();
    if comparisons.len() > 0 {
        latest = chars_of("  New since latest\n");
        let mut width: usize = 0;
        let mut i: usize = 0;
        while i < comparisons.len()
            invariant
                0 <= i <= comparisons@.len(),
                width == comparison_label_width(comparisons@.take(i as int)),
            decreases comparisons@.len() - i,
        {
            proof {
                assert(comparisons@.take(i + 1).drop_last() =~= comparisons@.take(i as int));
            }
            let l = chars_of(comparisons[i].environment.label()).len();
            if l >= width {
                width = l;
            }
            i += 1;
        }
        proof {
            assert(comparisons@.take(comparisons@.len() as int) =~= comparisons@);
        }
        let ghost start = latest@;
        let mut j: usize = 0;
        proof {
            assert(comparisons@.take(0) =~= Seq::<LatestComparisonReport>::empty());
            assert(latest@ =~= start + comparison_lines(comparisons@.take(0), width as nat));
        }
        while j < comparisons.len()
            invariant
                0 <= j <= comparisons@.len(),
                latest@ == start + comparison_lines(comparisons@.take(j as int), width as nat),
            decreases comparisons@.len() - j,
        {
            let c = &comparisons[j];
            let mut line = chars_of("    ");
            push_padded_right(&mut line, &chars_of(c.environment.label()), width);
            push_str(&mut line, "  ");
            match &c.status {
                LatestComparisonStatus::Compared { previous_cards } => {
                    push_count(&mut line, c.added_cards.len());
                    push_str(&mut line, " new (");
                    push_count(&mut line, *previous_cards);
                    push_str(&mut line, " -> ");
                    push_count(&mut line, c.current_cards);
                    push_str(&mut line, " cards)\n");
                },
                LatestComparisonStatus::NotFound => {
                    push_str(&mut line, "unavailable (no previous release)\n");
                },
                LatestComparisonStatus::Unavailable(_) => {
                    push_str(&mut line, "unavailable (see diagnostics)\n");
                },
            }
            proof {
                assert(line@ =~= comparison_line(*c, width as nat));
            }
            push_chars(&mut latest, &line);
            proof {
                assert(comparisons@.take(j + 1).drop_last() =~= comparisons@.take(j as int));
                assert(comparisons@.take(j + 1).last() == *c);
                assert(latest@ =~= start + comparison_lines(comparisons@.take(j + 1), width as nat));
            }
            j += 1;
        }
        proof {
            assert(comparisons@.take(comparisons@.len() as int) =~= comparisons@);
        }
    }
    proof {
        assert(latest@ =~= (if comparisons@.len() == 0 {
            seq![]
        } else {
            "  New since latest\n"@ + comparison_lines(comparisons@, comparison_label_width(comparisons@))
        }));
    }
    push_chars(&mut out, &latest);
    string_from_chars(&trim_end_exec(&out))
}


/// An error and its causes on separate lines: the error, or
/// `unknown error` when there is none, then each cause after
/// `caused by: `.
pub open spec fn error_chain_text(messages: Seq<Seq<char>>) -> Seq<char>
    decreases messages.len(),
{
    if messages.len() == 0 {
        "unknown error"@
    } else if messages.len() == 1 {
        messages[0]
    } else {
        error_chain_text(messages.drop_last()) + "\ncaused by: "@ + messages.last()
    }
}

/// An error and its causes on separate lines, for the build log.
pub fn format_error_chain(messages: &[String]) -> (res: String)
    ensures
        res@ == error_chain_text(crate::cards::labels_view(messages@)),
{
    let ghost mv = crate::cards::labels_view(messages@);
    if messages.len() == 0 {
        return string_from_chars(&chars_of("unknown error"));
    }
    let mut out = chars_of(messages[0].as_str());
    let mut i: usize = 1;
    proof {
        assert(mv.take(1).len() == 1);
    }
    while i < messages.len()
        invariant
            1 <= i <= messages@.len(),
            mv == crate::cards::labels_view(messages@),
            out@ == error_chain_text(mv.take(i as int)),
        decreases messages@.len() - i,
    {
        push_str(&mut out, "\ncaused by: ");
        push_str(&mut out, messages[i].as_str());
        proof {
            assert(mv.take(i + 1).drop_last() =~= mv.take(i as int));
            assert(mv.take(i + 1).last() == messages@[i as int]@);
        }
        i += 1;
    }
    proof {
        assert(mv.take(mv.len() as int) =~= mv);
    }
    string_from_chars(&out)
}

/// The line of the error or of one cause, numbered from its index.
pub open spec fn cause_line(index: nat, message: Seq<char>) -> Seq<char> {
    if index == 0 {
        "  Error: "@ + message + "\n"@
    } else if index == 1 {
        "  Caused by:\n"@ + "    "@ + decimal(index) + ". "@ + message + "\n"@
    } else {
        "    "@ + decimal(index) + ". "@ + message + "\n"@
    }
}

/// The lines of an error and its causes.
pub open spec fn cause_lines(messages: Seq<Seq<char>>) -> Seq<char>
    decreases messages.len(),
{
    if messages.len() == 0 {
        seq![]
    } else {
        cause_lines(messages.drop_last()) + cause_line((messages.len() - 1) as nat, messages.last())
    }
}

pub open spec fn opt_path_view(o: Option<&str>) -> Option<Seq<char>> {
    match o {
        Some(s) => Some(s@),
        None => None,
    }
}

/// How a failure is shown on the terminal: a blank line, the title, the
/// error and its numbered causes, and where the diagnostics are.
pub open spec fn error_report(title: Seq<char>, messages: Seq<Seq<char>>, log_path: Option<Seq<char>>) -> Seq<char> {
    "\n"@ + title + "\n"@ + cause_lines(messages) + match log_path {
        Some(p) => "  Diagnostics: "@ + p + "\n"@,
        None => seq![],
    }
}

/// How a failure is shown on the terminal.
pub fn error_report_text(title: &str, messages: &[String], log_path: Option<&str>) -> (res: String)
    ensures
        res@ == error_report(title@, crate::cards::labels_view(messages@), opt_path_view(log_path)),
{
    let ghost mv = crate::cards::labels_view(messages@);
    let mut out = chars_of("\n");
    push_str(&mut out, title);
    push_str(&mut out, "\n");
    let ghost head = out@;
    let mut i: usize = 0;
    proof {
        assert(mv.take(0) =~= Seq::<Seq<char>>::empty());
        assert(out@ =~= head + cause_lines(mv.take(0)));
    }
    while i < messages.len()
        invariant
            0 <= i <= messages@.len(),
            mv == crate::cards::labels_view(messages@),
            out@ == head + cause_lines(mv.take(i as int)),
        decreases messages@.len() - i,
    {
        let mut line: Vec<char> = Vec::new();
        if i == 0 {
            line = chars_of("  Error: ");
        } else {
            if i == 1 {
                line = chars_of("  Caused by:\n");
                push_str(&mut line, "    ");
            } else {
                line = chars_of("    ");
            }
            crate::formatting::push_decimal(&mut line, i);
            push_str(&mut line, ". ");
        }
        push_str(&mut line, messages[i].as_str());
        push_str(&mut line, "\n");
        proof {
            assert(line@ =~= cause_line(i as nat, messages@[i as int]@));
        }
        push_chars(&mut out, &line);
        proof {
            assert(mv.take(i + 1).drop_last() =~= mv.take(i as int));
            assert(mv.take(i + 1).last() == messages@[i as int]@);
            assert(out@ =~= head + cause_lines(mv.take(i + 1)));
        }
        i += 1;
    }
    proof {
        assert(mv.take(mv.len() as int) =~= mv);
    }
    let ghost body = out@;
    match log_path {
        Some(p) => {
            push_str(&mut out, "  Diagnostics: ");
            push_str(&mut out, p);
            push_str(&mut out, "\n");
        },
        None => {},
    }
    proof {
        assert(out@ =~= error_report(title@, mv, opt_path_view(log_path)));
    }
    string_from_chars(&out)
}

/// What the diagnostics of a finished build amount to: `clean` when none
/// were recorded, else the counts of warnings and errors.
pub open spec fn diagnostic_summary(records: nat, warnings: nat, errors: nat) -> Seq<char> {
    if records == 0 {
        "clean"@
    } else {
        decimal(warnings) + " "@ + word_for(warnings, "warning"@, "warnings"@) + ", "@ + decimal(errors) + " "@
            + word_for(errors, "error"@, "errors"@)
    }
}

/// What the diagnostics of a finished build amount to.
pub fn diagnostic_summary_text(snapshot: &crate::diagnostics::DiagnosticSnapshot) -> (res: String)
    ensures
        res@ == diagnostic_summary(
            snapshot.records_spec().len(),
            crate::diagnostics::count_warnings(snapshot.records_spec()),
            (snapshot.records_spec().len() - crate::diagnostics::count_warnings(snapshot.records_spec())) as nat,
        ),
{
    if snapshot.is_clean() {
        return string_from_chars(&chars_of("clean"));
    }
    let warnings = snapshot.warnings();
    let errors = snapshot.errors();
    let mut out: Vec<char> = Vec::new();
    crate::formatting::push_decimal(&mut out, warnings);
    push_str(&mut out, " ");
    push_str(&mut out, crate::formatting::plural(warnings, "warning", "warnings"));
    push_str(&mut out, ", ");
    crate::formatting::push_decimal(&mut out, errors);
    push_str(&mut out, " ");
    push_str(&mut out, crate::formatting::plural(errors, "error", "errors"));
    string_from_chars(&out)
}

/// The message of a completed build: where the report and the
/// diagnostics are, and what the diagnostics amount to.
pub open spec fn build_complete(report_path: Seq<char>, log_path: Seq<char>, summary: Seq<char>) -> Seq<char> {
    "\nBuild complete\n"@ + "  "@ + pad_right("Report"@, 12) + " "@ + report_path + "\n"@ + "  "@ + pad_right(
        "Diagnostics"@,
        12,
    ) + " "@ + log_path + " ("@ + summary + ")"@
}

/// The message of a completed build.
pub fn build_complete_text(report_path: &str, log_path: &str, summary: &str) -> (res: String)
    ensures
        res@ == build_complete(report_path@, log_path@, summary@),
{
    let mut out = chars_of("\nBuild complete\n");
    push_str(&mut out, "  ");
    push_padded_right(&mut out, &chars_of("Report"), 12);
    push_str(&mut out, " ");
    push_str(&mut out, report_path);
    push_str(&mut out, "\n");
    push_str(&mut out, "  ");
    push_padded_right(&mut out, &chars_of("Diagnostics"), 12);
    push_str(&mut out, " ");
    push_str(&mut out, log_path);
    push_str(&mut out, " (");
    push_str(&mut out, summary);
    push_str(&mut out, ")");
    string_from_chars(&out)
}
} // verus!
