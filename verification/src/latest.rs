//! Comparison with the latest published release: which cards are new, and
//! what the comparison report and its warnings say.
use std::collections::HashSet;

use vstd::prelude::*;

use crate::cards::labels_view;
use crate::chars::{after_first, chars_of, find_exec, push_str, string_from_chars, sub_chars};
use crate::diagnostics::{Diagnostic, DiagnosticView, Severity};
use crate::environment::{environment_label, Environment};
use crate::http::{status_display, status_text, success};

verus! {

broadcast use vstd::std_specs::hash::group_hash_axioms;

/// What the comparison reads of a card: its ID, name and types.
#[derive(Debug)]
pub struct CardSummary {
    pub id: i64,
    pub name: String,
    pub card_type: Vec<String>,
}

/// A card's ID, name and types, as values.
pub struct CardSummaryView {
    pub id: i64,
    pub name: Seq<char>,
    pub card_type: Seq<Seq<char>>,
}

impl View for CardSummary {
    type V = CardSummaryView;

    open spec fn view(&self) -> CardSummaryView {
        CardSummaryView { id: self.id, name: self.name@, card_type: labels_view(self.card_type@) }
    }
}

pub open spec fn summaries_view(v: Seq<CardSummary>) -> Seq<CardSummaryView> {
    Seq::new(v.len(), |i: int| v[i]@)
}

/// The IDs of a list of cards.
pub open spec fn card_ids(v: Seq<CardSummaryView>) -> Set<i64> {
    Set::new(|id: i64| exists|i: int| 0 <= i < v.len() && v[i].id == id)
}

/// The cards of `current` whose IDs are not among `previous`, in their
/// order.
pub open spec fn added_cards(current: Seq<CardSummaryView>, previous: Set<i64>) -> Seq<CardSummaryView>
    decreases current.len(),
{
    if current.len() == 0 {
        seq![]
    } else {
        let rest = added_cards(current.drop_last(), previous);
        if previous.contains(current.last().id) {
            rest
        } else {
            rest.push(current.last())
        }
    }
}

/// Each new card is a card of the current list whose ID the previous
/// list lacks.
pub proof fn lemma_added_cards_are_new(current: Seq<CardSummaryView>, previous: Set<i64>)
    ensures
        forall|i: int| 0 <= i < added_cards(current, previous).len() ==> {
            let c = #[trigger] added_cards(current, previous)[i];
            &&& !previous.contains(c.id)
            &&& exists|j: int| 0 <= j < current.len() && current[j] == c
        },
    decreases current.len(),
{
    if current.len() > 0 {
        let p = current.drop_last();
        lemma_added_cards_are_new(p, previous);
        let a = added_cards(current, previous);
        let r = added_cards(p, previous);
        assert forall|i: int| 0 <= i < a.len() implies {
            let c = #[trigger] a[i];
            &&& !previous.contains(c.id)
            &&& exists|j: int| 0 <= j < current.len() && current[j] == c
        } by {
            if i < r.len() {
                assert(a[i] == r[i]);
                let c = r[i];
                let j = choose|j: int| 0 <= j < p.len() && p[j] == c;
                assert(current[j] == c);
            } else {
                assert(a[i] == current.last());
                assert(current[current.len() - 1] == a[i]);
            }
        }
    }
}

impl CardSummary {
    /// A copy of the card.
    pub fn duplicate(&self) -> (res: Self)
        ensures
            res@ == self@,
    {
        let mut card_type: Vec<String> = Vec::new();
        let mut i: usize = 0;
        while i < self.card_type.len()
            invariant
                0 <= i <= self.card_type@.len(),
                labels_view(card_type@) == labels_view(self.card_type@).take(i as int),
            decreases self.card_type@.len() - i,
        {
            let ghost before = card_type@;
            let label = self.card_type[i].clone();
            proof {
                crate::cards::lemma_labels_view_push(before, label);
            }
            card_type.push(label);
            i += 1;
            proof {
                assert(labels_view(card_type@) =~= labels_view(self.card_type@).take(i as int));
            }
        }
        proof {
            assert(labels_view(self.card_type@).take(self.card_type@.len() as int) =~= labels_view(
                self.card_type@,
            ));
        }
        CardSummary { id: self.id, name: self.name.clone(), card_type }
    }
}

/// The cards of `current_cards` whose IDs do not occur in `previous_cards`,
/// in their order.
pub fn find_added_cards(current_cards: &[CardSummary], previous_cards: &[CardSummary]) -> (res: Vec<CardSummary>)
    ensures
        summaries_view(res@) == added_cards(summaries_view(current_cards@), card_ids(summaries_view(previous_cards@))),
{
    let ghost prev = summaries_view(previous_cards@);
    let mut previous_ids: HashSet<i64> = HashSet::new();
    let mut j: usize = 0;
    while j < previous_cards.len()
        invariant
            0 <= j <= previous_cards@.len(),
            prev == summaries_view(previous_cards@),
            forall|id: i64| previous_ids@.contains(id) <==> exists|k: int| 0 <= k < j && prev[k].id == id,
        decreases previous_cards@.len() - j,
    {
        previous_ids.insert(previous_cards[j].id);
        proof {
            assert forall|id: i64| previous_ids@.contains(id) <==> exists|k: int| 0 <= k < j + 1 && prev[k].id == id by {
                if id == previous_cards@[j as int].id {
                    assert(prev[j as int].id == id);
                }
            }
        }
        j += 1;
    }
    let ghost ids = card_ids(prev);
    proof {
        assert(previous_ids@ =~= ids);
    }
    let ghost cur = summaries_view(current_cards@);
    let mut added: Vec<CardSummary> = Vec::new();
    let mut i: usize = 0;
    while i < current_cards.len()
        invariant
            0 <= i <= current_cards@.len(),
            cur == summaries_view(current_cards@),
            previous_ids@ == ids,
            summaries_view(added@) == added_cards(cur.take(i as int), ids),
        decreases current_cards@.len() - i,
    {
        proof {
            assert(cur.take(i + 1).drop_last() =~= cur.take(i as int));
            assert(cur.take(i + 1).last() == current_cards@[i as int]@);
        }
        if !previous_ids.contains(&current_cards[i].id) {
            let copy = current_cards[i].duplicate();
            let ghost before = added@;
            added.push(copy);
            proof {
                assert(summaries_view(added@) =~= summaries_view(before).push(copy@));
            }
        }
        i += 1;
    }
    proof {
        assert(cur.take(cur.len() as int) =~= cur);
    }
    added
}

/// The tag of a release page path: what follows the first
/// `/releases/tag/`, when that is not empty.
pub open spec fn release_tag_of(path: Seq<char>) -> Option<Seq<char>> {
    match after_first(path, "/releases/tag/"@) {
        Some(tag) => if tag.len() > 0 {
            Some(tag)
        } else {
            None
        },
        None => None,
    }
}

/// The tag of a release page path, as
/// `/owner/repo/releases/tag/1.2.3` gives `1.2.3`.
pub fn release_tag_from_path(path: &str) -> (res: Option<String>)
    ensures
        match res {
            Some(tag) => release_tag_of(path@) == Some(tag@),
            None => release_tag_of(path@) is None,
        },
{
    let p = chars_of(path);
    let marker = chars_of("/releases/tag/");
    let plen = p.len();
    match find_exec(&p, &marker) {
        Some(i) => {
            proof {
                reveal_strlit("/releases/tag/");
                assert(i + marker@.len() <= p@.len());
            }
            let start = i + marker.len();
            let tag = sub_chars(&p, start, plen);
            proof {
                assert(tag@ =~= path@.skip(start as int));
            }
            if tag.len() > 0 {
                Some(string_from_chars(&tag))
            } else {
                None
            }
        },
        None => None,
    }
}

/// How the comparison with the latest release went.
#[derive(Debug)]
pub enum LatestComparisonStatus {
    /// The latest release had this many cards.
    Compared { previous_cards: usize },
    /// The latest release has no such file.
    NotFound,
    /// The latest file could not be read; why.
    Unavailable(String),
}

/// How the comparison went, as values.
pub enum ComparisonStatusView {
    Compared(usize),
    NotFound,
    Unavailable(Seq<char>),
}

impl View for LatestComparisonStatus {
    type V = ComparisonStatusView;

    open spec fn view(&self) -> ComparisonStatusView {
        match self {
            LatestComparisonStatus::Compared { previous_cards } => ComparisonStatusView::Compared(*previous_cards),
            LatestComparisonStatus::NotFound => ComparisonStatusView::NotFound,
            LatestComparisonStatus::Unavailable(r) => ComparisonStatusView::Unavailable(r@),
        }
    }
}

/// What fetching the latest file gave.
#[derive(Debug)]
pub enum LatestCardsFetch {
    /// The cards of the latest file.
    Cards(Vec<CardSummary>),
    /// The latest release has no such file.
    NotFound,
    /// The latest file could not be read; why.
    Unavailable(String),
}

/// The comparison of one environment's dataset with the latest release.
#[derive(Debug)]
pub struct LatestComparisonReport {
    pub environment: Environment,
    pub latest_url: String,
    pub current_cards: usize,
    pub status: LatestComparisonStatus,
    pub added_cards: Vec<CardSummary>,
}

/// The warning that a comparison was skipped.
pub open spec fn comparison_skipped_view(environment: Environment, url: Seq<char>, reason: Seq<char>, suggestion: Seq<char>) -> DiagnosticView {
    DiagnosticView {
        severity: Severity::Warning,
        code: "release.comparison-skipped"@,
        title: "Latest-release comparison was skipped"@,
        context: seq![("Environment"@, environment_label(environment)), ("URL"@, url)],
        reason: Some(reason),
        suggestion: Some(suggestion),
    }
}

fn comparison_skipped(environment: Environment, url: &str, reason: &str, suggestion: &str) -> (res: Diagnostic)
    ensures
        res@ == comparison_skipped_view(environment, url@, reason@, suggestion@),
{
    let d = Diagnostic::warning("release.comparison-skipped", "Latest-release comparison was skipped").context(
        "Environment",
        environment.label(),
    ).context("URL", url).reason(reason).suggestion(suggestion);
    proof {
        assert(d@.context =~= comparison_skipped_view(environment, url@, reason@, suggestion@).context);
    }
    d
}

/// Compares an environment's current cards with what fetching the latest
/// file gave: with the latest cards, the new cards are those whose IDs the
/// latest file lacks; otherwise nothing is new and a warning says why.
pub fn compare_with_latest(
    environment: Environment,
    latest_url: &str,
    current_cards: &[CardSummary],
    fetch: LatestCardsFetch,
) -> (res: (LatestComparisonReport, Option<Diagnostic>))
    ensures
        res.0.environment == environment,
        res.0.latest_url@ == latest_url@,
        res.0.current_cards == current_cards@.len(),
        match fetch {
            LatestCardsFetch::Cards(previous) => {
                &&& res.0.status@ == ComparisonStatusView::Compared(previous@.len() as usize)
                &&& summaries_view(res.0.added_cards@) == added_cards(
                    summaries_view(current_cards@),
                    card_ids(summaries_view(previous@)),
                )
                &&& res.1 is None
            },
            LatestCardsFetch::NotFound => {
                &&& res.0.status@ == ComparisonStatusView::NotFound
                &&& res.0.added_cards@.len() == 0
                &&& res.1 matches Some(d) && d@ == comparison_skipped_view(
                    environment,
                    latest_url@,
                    "HTTP 404 Not Found"@,
                    "This is expected before the first published release"@,
                )
            },
            LatestCardsFetch::Unavailable(reason) => {
                &&& res.0.status@ == ComparisonStatusView::Unavailable(reason@)
                &&& res.0.added_cards@.len() == 0
                &&& res.1 matches Some(d) && d@ == comparison_skipped_view(
                    environment,
                    latest_url@,
                    reason@,
                    "The generated dataset is still valid, but new-card counts are unavailable"@,
                )
            },
        },
{
    let url = string_from_chars(&chars_of(latest_url));
    match fetch {
        LatestCardsFetch::Cards(previous) => {
            let added = find_added_cards(current_cards, previous.as_slice());
            (
                LatestComparisonReport {
                    environment,
                    latest_url: url,
                    current_cards: current_cards.len(),
                    status: LatestComparisonStatus::Compared { previous_cards: previous.len() },
                    added_cards: added,
                },
                None,
            )
        },
        LatestCardsFetch::NotFound => {
            let d = comparison_skipped(
                environment,
                latest_url,
                "HTTP 404 Not Found",
                "This is expected before the first published release",
            );
            (
                LatestComparisonReport {
                    environment,
                    latest_url: url,
                    current_cards: current_cards.len(),
                    status: LatestComparisonStatus::NotFound,
                    added_cards: Vec::new(),
                },
                Some(d),
            )
        },
        LatestCardsFetch::Unavailable(reason) => {
            let d = comparison_skipped(
                environment,
                latest_url,
                reason.as_str(),
                "The generated dataset is still valid, but new-card counts are unavailable",
            );
            (
                LatestComparisonReport {
                    environment,
                    latest_url: url,
                    current_cards: current_cards.len(),
                    status: LatestComparisonStatus::Unavailable(reason),
                    added_cards: Vec::new(),
                },
                Some(d),
            )
        },
    }
}

/// What a response to the request for the latest file means before its
/// body is read: 200 goes on, 404 means no such file, any other status
/// makes the file unavailable.
pub enum FetchStatus {
    Proceed,
    NotFound,
    Unavailable(String),
}

/// What the status of the response for the latest file means.
pub fn latest_fetch_status(status: u16) -> (res: FetchStatus)
    requires
        100 <= status <= 999,
    ensures
        status == 200 ==> res is Proceed,
        status == 404 ==> res is NotFound,
        status != 200 && status != 404 ==> (res matches FetchStatus::Unavailable(m) && m@ == "HTTP "@
            + status_text(status)),
{
    if status == 200 {
        FetchStatus::Proceed
    } else if status == 404 {
        FetchStatus::NotFound
    } else {
        let mut text = chars_of("HTTP ");
        let line = status_display(status);
        push_str(&mut text, line.as_str());
        FetchStatus::Unavailable(string_from_chars(&text))
    }
}

/// Whether the latest release's page is looked up: when at least one
/// dataset was compared with it.
pub open spec fn any_compared(datasets: Seq<LatestComparisonReport>) -> bool {
    exists|i: int| 0 <= i < datasets.len() && datasets[i].status@ is Compared
}

/// Whether the latest release's page is looked up.
pub fn needs_release_reference(datasets: &[LatestComparisonReport]) -> (res: bool)
    ensures
        res == any_compared(datasets@),
{
    let mut i: usize = 0;
    while i < datasets.len()
        invariant
            0 <= i <= datasets@.len(),
            forall|k: int| 0 <= k < i ==> !(datasets@[k].status@ is Compared),
        decreases datasets@.len() - i,
    {
        match &datasets[i].status {
            LatestComparisonStatus::Compared { .. } => {
                return true;
            },
            _ => {},
        }
        i += 1;
    }
    false
}

/// The latest release: its tag and the address of its page.
#[derive(Debug)]
pub struct ReleaseReference {
    pub tag: String,
    pub url: String,
}

/// The warning that the latest release's page could not be found.
pub open spec fn release_warning_view(url: Seq<char>, reason: Seq<char>) -> DiagnosticView {
    DiagnosticView {
        severity: Severity::Warning,
        code: "release.reference-unavailable"@,
        title: "Previous-release link could not be resolved"@,
        context: seq![("URL"@, url)],
        reason: Some(reason),
        suggestion: Some("The dataset comparison is still valid, but the report will omit the link"@),
    }
}

/// The warning that the latest release's page could not be found.
pub fn release_reference_warning(url: &str, reason: &str) -> (res: Diagnostic)
    ensures
        res@ == release_warning_view(url@, reason@),
{
    let d = Diagnostic::warning(
        "release.reference-unavailable",
        "Previous-release link could not be resolved",
    ).context("URL", url).reason(reason).suggestion(
        "The dataset comparison is still valid, but the report will omit the link",
    );
    proof {
        assert(d@.context =~= seq![("URL"@, url@)]);
    }
    d
}

/// The latest release from the answer to the request for its page: the
/// status must be a success and the page it resolved to a release tag
/// page; `resolved_url` is that page's address and `page_url` the same
/// without query or fragment. Otherwise the warning to record.
pub fn release_reference(
    latest_release_url: &str,
    status: u16,
    resolved_path: &str,
    resolved_url: &str,
    page_url: &str,
) -> (res: Result<ReleaseReference, Diagnostic>)
    requires
        100 <= status <= 999,
    ensures
        !success(status) ==> (res matches Err(d) && d@ == release_warning_view(
            latest_release_url@,
            "HTTP "@ + status_text(status),
        )),
        success(status) && release_tag_of(resolved_path@) is None ==> (res matches Err(d) && d@
            == release_warning_view(
            latest_release_url@,
            "redirect resolved to an unexpected URL: "@ + resolved_url@,
        )),
        success(status) && release_tag_of(resolved_path@) is Some ==> (res matches Ok(r) && Some(
            r.tag@,
        ) == release_tag_of(resolved_path@) && r.url@ == page_url@),
{
    if !crate::http::is_success(status) {
        let mut text = chars_of("HTTP ");
        let line = status_display(status);
        push_str(&mut text, line.as_str());
        let reason = string_from_chars(&text);
        return Err(release_reference_warning(latest_release_url, reason.as_str()));
    }
    match release_tag_from_path(resolved_path) {
        Some(tag) => Ok(ReleaseReference { tag, url: string_from_chars(&chars_of(page_url)) }),
        None => {
            let mut text = chars_of("redirect resolved to an unexpected URL: ");
            push_str(&mut text, resolved_url);
            let reason = string_from_chars(&text);
            Err(release_reference_warning(latest_release_url, reason.as_str()))
        },
    }
}

/// The latest release and the comparison of each dataset with it.
#[derive(Debug)]
pub struct LatestReleaseComparison {
    pub release: Option<ReleaseReference>,
    pub datasets: Vec<LatestComparisonReport>,
}

} // verus!
