//! The reports of a run: the Markdown build report and the terminal
//! summaries.
pub mod console;
pub mod markdown;

use vstd::prelude::*;

use crate::cards::images::{combined, fits_sum, summable, total, zero_summary, ImageCheckSummary};
use crate::cards::DatasetReport;
use crate::chars::{chars_of, push_chars, push_str, string_from_chars};

verus! {

/// Where the Markdown build report is written.
pub const SUMMARY_REPORT: &'static str = "output/report.md";

/// What happens to a card whose images all fail, as the reports say it.
pub open spec fn failure_action_text(summary: ImageCheckSummary) -> Seq<char> {
    if summary.skip_failures {
        "skip card"@
    } else {
        "keep card with image = 0"@
    }
}

/// What happens to a card whose images all fail.
pub fn image_failure_action(summary: ImageCheckSummary) -> (res: &'static str)
    ensures
        res@ == failure_action_text(summary),
{
    if summary.skip_failures {
        "skip card"
    } else {
        "keep card with image = 0"
    }
}

/// A character as it is written in a Markdown table cell.
pub open spec fn escaped_char(c: char) -> Seq<char> {
    if c == '\\' {
        seq!['\\', '\\']
    } else if c == '|' {
        seq!['\\', '|']
    } else if c == '\n' {
        "<br>"@
    } else {
        seq![c]
    }
}

/// Text as it is written in a Markdown table cell: backslashes doubled,
/// pipes escaped, and line breaks as `<br>`.
pub open spec fn escape_cell(s: Seq<char>) -> Seq<char>
    decreases s.len(),
{
    if s.len() == 0 {
        seq![]
    } else {
        escape_cell(s.drop_last()) + escaped_char(s.last())
    }
}

/// Appends text as it is written in a Markdown table cell.
pub fn push_escaped(out: &mut Vec<char>, text: &str)
    ensures
        final(out)@ == old(out)@ + escape_cell(text@),
{
    let s = chars_of(text);
    let ghost start = out@;
    let mut i: usize = 0;
    proof {
        assert(s@.take(0) =~= Seq::<char>::empty());
        assert(out@ =~= start + escape_cell(s@.take(0)));
    }
    while i < s.len()
        invariant
            0 <= i <= s@.len(),
            out@ == start + escape_cell(s@.take(i as int)),
        decreases s@.len() - i,
    {
        let c = s[i];
        let ghost before = out@;
        if c == '\\' {
            out.push('\\');
            out.push('\\');
        } else if c == '|' {
            out.push('\\');
            out.push('|');
        } else if c == '\n' {
            push_str(out, "<br>");
        } else {
            out.push(c);
        }
        proof {
            reveal_strlit("<br>");
            assert(s@.take(i + 1).drop_last() =~= s@.take(i as int));
            assert(out@ =~= before + escaped_char(c));
            assert(out@ =~= start + escape_cell(s@.take(i + 1)));
        }
        i += 1;
    }
    proof {
        assert(s@.take(s@.len() as int) =~= s@);
    }
}

/// An escaped cell has no line break, and each pipe in it follows a
/// backslash, so the cell stays on its row and within its column.
pub proof fn lemma_escaped_cell_stays_in_cell(s: Seq<char>)
    ensures
        forall|i: int| 0 <= i < escape_cell(s).len() ==> #[trigger] escape_cell(s)[i] != '\n',
        forall|i: int| 0 <= i < escape_cell(s).len() && #[trigger] escape_cell(s)[i] == '|' ==> i > 0
            && escape_cell(s)[i - 1] == '\\',
    decreases s.len(),
{
    reveal_strlit("<br>");
    if s.len() > 0 {
        lemma_escaped_cell_stays_in_cell(s.drop_last());
        let a = escape_cell(s.drop_last());
        let b = escaped_char(s.last());
        let e = escape_cell(s);
        assert(e =~= a + b);
        assert forall|i: int| 0 <= i < e.len() implies #[trigger] e[i] != '\n' by {
            if i < a.len() {
                assert(e[i] == a[i]);
            } else {
                assert(e[i] == b[i - a.len()]);
            }
        }
        assert forall|i: int| 0 <= i < e.len() && #[trigger] e[i] == '|' implies i > 0 && e[i - 1] == '\\' by {
            if i < a.len() {
                assert(e[i] == a[i]);
                assert(e[i - 1] == a[i - 1]);
            } else {
                assert(e[i] == b[i - a.len()]);
                assert(s.last() == '|' && i - a.len() == 1);
                assert(e[i - 1] == b[0]);
            }
        }
    }
}

/// Text as it is written in a Markdown table cell.
pub fn escape_markdown_cell(text: &str) -> (res: String)
    ensures
        res@ == escape_cell(text@),
{
    let mut out: Vec<char> = Vec::new();
    push_escaped(&mut out, text);
    proof {
        assert(out@ =~= escape_cell(text@));
    }
    string_from_chars(&out)
}

/// Parts joined with `sep` between each two.
pub open spec fn joined(parts: Seq<Seq<char>>, sep: Seq<char>) -> Seq<char>
    decreases parts.len(),
{
    if parts.len() == 0 {
        seq![]
    } else if parts.len() == 1 {
        parts[0]
    } else {
        joined(parts.drop_last(), sep) + sep + parts.last()
    }
}

/// A card's types as one cell: joined with `/`, or `-` when there are
/// none.
pub open spec fn type_display(types: Seq<Seq<char>>) -> Seq<char> {
    if types.len() == 0 {
        "-"@
    } else {
        joined(types, "/"@)
    }
}

/// A card's types as one cell.
pub fn card_type_display(card_type: &[String]) -> (res: String)
    ensures
        res@ == type_display(crate::cards::labels_view(card_type@)),
{
    if card_type.len() == 0 {
        return string_from_chars(&chars_of("-"));
    }
    let ghost lv = crate::cards::labels_view(card_type@);
    let mut out = chars_of(card_type[0].as_str());
    let mut i: usize = 1;
    proof {
        assert(lv.take(1).drop_last() =~= Seq::<Seq<char>>::empty());
        assert(joined(lv.take(1), "/"@) == lv.take(1)[0]);
    }
    while i < card_type.len()
        invariant
            1 <= i <= card_type@.len(),
            lv == crate::cards::labels_view(card_type@),
            out@ == joined(lv.take(i as int), "/"@),
        decreases card_type@.len() - i,
    {
        push_str(&mut out, "/");
        push_str(&mut out, card_type[i].as_str());
        proof {
            assert(lv.take(i + 1).drop_last() =~= lv.take(i as int));
            assert(lv.take(i + 1).last() == card_type@[i as int]@);
        }
        i += 1;
    }
    proof {
        assert(lv.take(lv.len() as int) =~= lv);
        reveal_strlit("-");
    }
    string_from_chars(&out)
}

/// The opening of a collapsed section with the given summary.
pub open spec fn begin_collapsed_text(summary: Seq<char>) -> Seq<char> {
    "<details>\n"@ + "<summary>"@ + summary + "</summary>\n\n"@
}

/// The closing of a collapsed section.
pub open spec fn end_collapsed_text() -> Seq<char> {
    "\n</details>\n\n"@
}

/// Opens a collapsed section.
pub fn begin_collapsed(out: &mut Vec<char>, summary: &[char])
    ensures
        final(out)@ == old(out)@ + begin_collapsed_text(summary@),
{
    let mut piece = chars_of("<details>\n");
    push_str(&mut piece, "<summary>");
    push_chars(&mut piece, summary);
    push_str(&mut piece, "</summary>\n\n");
    push_chars(out, &piece);
}

/// Closes a collapsed section.
pub fn end_collapsed(out: &mut Vec<char>)
    ensures
        final(out)@ == old(out)@ + end_collapsed_text(),
{
    push_str(out, "\n</details>\n\n");
}

/// The sum of the written cards of the reports.
pub open spec fn written_total(r: Seq<DatasetReport>) -> int
    decreases r.len(),
{
    if r.len() == 0 {
        0
    } else {
        written_total(r.drop_last()) + r.last().cards_written
    }
}

/// The sum of the skipped cards of the reports.
pub open spec fn skipped_total(r: Seq<DatasetReport>) -> int
    decreases r.len(),
{
    if r.len() == 0 {
        0
    } else {
        skipped_total(r.drop_last()) + r.last().cards_skipped
    }
}

/// The sum of the image failures of the reports.
pub open spec fn failures_total(r: Seq<DatasetReport>) -> int
    decreases r.len(),
{
    if r.len() == 0 {
        0
    } else {
        failures_total(r.drop_last()) + r.last().image_failures@.len()
    }
}

/// The image totals of the reports.
pub open spec fn summaries_of(r: Seq<DatasetReport>) -> Seq<ImageCheckSummary> {
    Seq::new(r.len(), |i: int| r[i].image_summary)
}

/// Whether the totals of the reports fit in `usize`.
pub open spec fn totals_fit(r: Seq<DatasetReport>) -> bool {
    &&& written_total(r) <= usize::MAX
    &&& skipped_total(r) <= usize::MAX
    &&& failures_total(r) <= usize::MAX
    &&& summable(summaries_of(r))
}

pub proof fn lemma_totals_grow(r: Seq<DatasetReport>, n: int)
    requires
        0 <= n <= r.len(),
    ensures
        0 <= written_total(r.take(n)) <= written_total(r),
        0 <= skipped_total(r.take(n)) <= skipped_total(r),
        0 <= failures_total(r.take(n)) <= failures_total(r),
    decreases r.len() - n,
{
    if n < r.len() {
        lemma_totals_grow(r, n + 1);
        assert(r.take(n + 1).drop_last() =~= r.take(n));
    } else {
        assert(r.take(n) =~= r);
    }
    if n > 0 {
        lemma_totals_nonneg(r.take(n));
    }
}

pub proof fn lemma_totals_nonneg(r: Seq<DatasetReport>)
    ensures
        written_total(r) >= 0,
        skipped_total(r) >= 0,
        failures_total(r) >= 0,
    decreases r.len(),
{
    if r.len() > 0 {
        lemma_totals_nonneg(r.drop_last());
    }
}

/// The totals of a run over its environments.
#[derive(Debug, Clone, Copy)]
pub struct ReportTotals {
    pub cards_written: usize,
    pub cards_skipped: usize,
    pub images: ImageCheckSummary,
    pub image_failures: usize,
}

impl ReportTotals {
    /// The totals of the reports, as values.
    pub open spec fn from_reports_spec(reports: Seq<DatasetReport>) -> ReportTotals {
        ReportTotals {
            cards_written: written_total(reports) as usize,
            cards_skipped: skipped_total(reports) as usize,
            images: total(summaries_of(reports)),
            image_failures: failures_total(reports) as usize,
        }
    }

    /// The totals of the reports.
    pub fn from_reports(reports: &[DatasetReport]) -> (res: Self)
        requires
            totals_fit(reports@),
        ensures
            res.cards_written == written_total(reports@),
            res.cards_skipped == skipped_total(reports@),
            res.images == total(summaries_of(reports@)),
            res.image_failures == failures_total(reports@),
            res == Self::from_reports_spec(reports@),
    {
        let mut written: usize = 0;
        let mut skipped: usize = 0;
        let mut failures: usize = 0;
        let mut images = ImageCheckSummary::default();
        let mut i: usize = 0;
        while i < reports.len()
            invariant
                0 <= i <= reports@.len(),
                totals_fit(reports@),
                written == written_total(reports@.take(i as int)),
                skipped == skipped_total(reports@.take(i as int)),
                failures == failures_total(reports@.take(i as int)),
                images == total(summaries_of(reports@).take(i as int)),
            decreases reports@.len() - i,
        {
            proof {
                assert(reports@.take(i + 1).drop_last() =~= reports@.take(i as int));
                lemma_totals_grow(reports@, i + 1);
                crate::cards::images::lemma_summable_prefix(summaries_of(reports@), i + 1);
                assert(summaries_of(reports@).take(i + 1).drop_last() =~= summaries_of(reports@).take(i as int));
            }
            written = written + reports[i].cards_written;
            skipped = skipped + reports[i].cards_skipped;
            failures = failures + reports[i].image_failures.len();
            images.add_assign(reports[i].image_summary);
            i += 1;
        }
        proof {
            assert(reports@.take(reports@.len() as int) =~= reports@);
            assert(summaries_of(reports@).take(reports@.len() as int) =~= summaries_of(reports@));
        }
        ReportTotals { cards_written: written, cards_skipped: skipped, images, image_failures: failures }
    }
}

} // verus!
