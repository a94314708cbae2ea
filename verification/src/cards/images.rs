//! Card images: how a card's image is resolved when images are checked,
//! what each check found, and the totals of a run.
use std::collections::HashMap;

use vstd::prelude::*;

use crate::chars::{chars_of, push_chars, push_str, string_from_chars, starts_with, starts_with_exec, trim_end_char, trim_end_char_exec};
use crate::diagnostics::{Diagnostic, DiagnosticView, Severity};
use crate::environment::{environment_label, Environment};
use crate::formatting::{signed_decimal, signed_decimal_chars};
use crate::http::{is_success, status_display, status_text, success};

verus! {

broadcast use vstd::std_specs::hash::group_hash_axioms;

/// How images are handled in a run.
#[derive(Debug, Clone, Copy, PartialEq, Eq, Structural)]
pub struct GenerationOptions {
    /// Check each card's image on the image server.
    pub check_images: bool,
    /// Skip the cards whose images all fail, rather than keep them with
    /// image 0.
    pub skip_image_failures: bool,
}

/// The image totals of a run.
#[derive(Debug, Clone, Copy, PartialEq, Eq, Structural)]
pub struct ImageCheckSummary {
    pub enabled: bool,
    pub skip_failures: bool,
    pub cards_checked: usize,
    pub primary_found: usize,
    pub alias_found: usize,
    pub missing: usize,
    pub cards_skipped: usize,
    pub unique_urls_found: usize,
    pub unique_urls_missing: usize,
    pub network_errors: usize,
    pub cache_hits: usize,
}

/// The totals of a run that checked nothing.
pub open spec fn zero_summary() -> ImageCheckSummary {
    ImageCheckSummary {
        enabled: false,
        skip_failures: false,
        cards_checked: 0,
        primary_found: 0,
        alias_found: 0,
        missing: 0,
        cards_skipped: 0,
        unique_urls_found: 0,
        unique_urls_missing: 0,
        network_errors: 0,
        cache_hits: 0,
    }
}

impl Default for ImageCheckSummary {
    fn default() -> (res: Self)
        ensures
            res == zero_summary(),
    {
        ImageCheckSummary {
            enabled: false,
            skip_failures: false,
            cards_checked: 0,
            primary_found: 0,
            alias_found: 0,
            missing: 0,
            cards_skipped: 0,
            unique_urls_found: 0,
            unique_urls_missing: 0,
            network_errors: 0,
            cache_hits: 0,
        }
    }
}

/// Whether every count of `a` and `b` adds up within `usize`.
pub open spec fn fits_sum(a: ImageCheckSummary, b: ImageCheckSummary) -> bool {
    &&& a.cards_checked + b.cards_checked <= usize::MAX
    &&& a.primary_found + b.primary_found <= usize::MAX
    &&& a.alias_found + b.alias_found <= usize::MAX
    &&& a.missing + b.missing <= usize::MAX
    &&& a.cards_skipped + b.cards_skipped <= usize::MAX
    &&& a.unique_urls_found + b.unique_urls_found <= usize::MAX
    &&& a.unique_urls_missing + b.unique_urls_missing <= usize::MAX
    &&& a.network_errors + b.network_errors <= usize::MAX
    &&& a.cache_hits + b.cache_hits <= usize::MAX
}

/// The totals of two runs: a policy flag is set when either run set it, and
/// each count is the sum of the two.
pub open spec fn combined(a: ImageCheckSummary, b: ImageCheckSummary) -> ImageCheckSummary {
    ImageCheckSummary {
        enabled: a.enabled || b.enabled,
        skip_failures: a.skip_failures || b.skip_failures,
        cards_checked: (a.cards_checked + b.cards_checked) as usize,
        primary_found: (a.primary_found + b.primary_found) as usize,
        alias_found: (a.alias_found + b.alias_found) as usize,
        missing: (a.missing + b.missing) as usize,
        cards_skipped: (a.cards_skipped + b.cards_skipped) as usize,
        unique_urls_found: (a.unique_urls_found + b.unique_urls_found) as usize,
        unique_urls_missing: (a.unique_urls_missing + b.unique_urls_missing) as usize,
        network_errors: (a.network_errors + b.network_errors) as usize,
        cache_hits: (a.cache_hits + b.cache_hits) as usize,
    }
}

/// The totals of a list of runs.
pub open spec fn total(s: Seq<ImageCheckSummary>) -> ImageCheckSummary
    decreases s.len(),
{
    if s.len() == 0 {
        zero_summary()
    } else {
        combined(total(s.drop_last()), s.last())
    }
}

/// Whether the totals of the list fit in `usize` at every step.
pub open spec fn summable(s: Seq<ImageCheckSummary>) -> bool
    decreases s.len(),
{
    s.len() == 0 || (summable(s.drop_last()) && fits_sum(total(s.drop_last()), s.last()))
}

impl ImageCheckSummary {
    /// The cards whose image was found, by their own ID or their alias.
    pub fn successful_cards(self) -> (res: usize)
        requires
            self.primary_found + self.alias_found <= usize::MAX,
        ensures
            res == self.primary_found + self.alias_found,
    {
        self.primary_found + self.alias_found
    }

    /// Adds the totals of another run.
    pub fn add_assign(&mut self, other: Self)
        requires
            fits_sum(*old(self), other),
        ensures
            *final(self) == combined(*old(self), other),
    {
        self.enabled = self.enabled || other.enabled;
        self.skip_failures = self.skip_failures || other.skip_failures;
        self.cards_checked = self.cards_checked + other.cards_checked;
        self.primary_found = self.primary_found + other.primary_found;
        self.alias_found = self.alias_found + other.alias_found;
        self.missing = self.missing + other.missing;
        self.cards_skipped = self.cards_skipped + other.cards_skipped;
        self.unique_urls_found = self.unique_urls_found + other.unique_urls_found;
        self.unique_urls_missing = self.unique_urls_missing + other.unique_urls_missing;
        self.network_errors = self.network_errors + other.network_errors;
        self.cache_hits = self.cache_hits + other.cache_hits;
    }

    /// The totals of a list of runs.
    pub fn sum(summaries: &[ImageCheckSummary]) -> (res: Self)
        requires
            summable(summaries@),
        ensures
            res == total(summaries@),
    {
        let mut res = ImageCheckSummary::default();
        let mut i: usize = 0;
        while i < summaries.len()
            invariant
                0 <= i <= summaries@.len(),
                summable(summaries@),
                res == total(summaries@.take(i as int)),
            decreases summaries@.len() - i,
        {
            proof {
                assert(summaries@.take(i + 1).drop_last() =~= summaries@.take(i as int));
                lemma_summable_prefix(summaries@, i + 1);
            }
            res.add_assign(summaries[i]);
            i += 1;
        }
        proof {
            assert(summaries@.take(summaries@.len() as int) =~= summaries@);
        }
        res
    }
}

/// A prefix of a summable list is summable.
pub proof fn lemma_summable_prefix(s: Seq<ImageCheckSummary>, n: int)
    requires
        summable(s),
        0 <= n <= s.len(),
    ensures
        summable(s.take(n)),
    decreases s.len() - n,
{
    if n < s.len() {
        lemma_summable_prefix(s, n + 1);
        assert(s.take(n + 1).drop_last() =~= s.take(n));
    } else {
        assert(s.take(n) =~= s);
    }
}

/// Adding the totals of two runs does not depend on their order.
pub proof fn lemma_combined_commutes(a: ImageCheckSummary, b: ImageCheckSummary)
    ensures
        fits_sum(a, b) == fits_sum(b, a),
        combined(a, b) == combined(b, a),
{
}

/// Adding the totals of three runs does not depend on how they are
/// grouped.
pub proof fn lemma_combined_associates(a: ImageCheckSummary, b: ImageCheckSummary, c: ImageCheckSummary)
    requires
        fits_sum(a, b),
        fits_sum(combined(a, b), c),
    ensures
        fits_sum(b, c),
        fits_sum(a, combined(b, c)),
        combined(combined(a, b), c) == combined(a, combined(b, c)),
{
}

/// The totals of a run that checked nothing change nothing.
pub proof fn lemma_zero_summary_is_neutral(a: ImageCheckSummary)
    ensures
        fits_sum(zero_summary(), a),
        combined(zero_summary(), a) == a,
{
}

/// What checking one image found.
#[derive(Debug)]
pub enum ImageCheck {
    /// The server answered with an image.
    Found,
    /// The server answered, but not with an image; why.
    Missing(String),
    /// The request failed; why.
    NetworkError(String),
}

/// What checking one image found, as values.
pub enum ImageCheckView {
    Found,
    Missing(Seq<char>),
    NetworkError(Seq<char>),
}

impl View for ImageCheck {
    type V = ImageCheckView;

    open spec fn view(&self) -> ImageCheckView {
        match self {
            ImageCheck::Found => ImageCheckView::Found,
            ImageCheck::Missing(r) => ImageCheckView::Missing(r@),
            ImageCheck::NetworkError(r) => ImageCheckView::NetworkError(r@),
        }
    }
}

/// Why a check failed, if it did.
pub open spec fn failure_reason_of(r: ImageCheckView) -> Option<Seq<char>> {
    match r {
        ImageCheckView::Found => None,
        ImageCheckView::Missing(reason) => Some(reason),
        ImageCheckView::NetworkError(reason) => Some(reason),
    }
}

/// The kind of a failed check, as the diagnostics name it.
pub open spec fn failure_kind_of(r: ImageCheckView) -> Seq<char> {
    match r {
        ImageCheckView::Found => seq![],
        ImageCheckView::Missing(_) => "http-or-content"@,
        ImageCheckView::NetworkError(_) => "network"@,
    }
}

/// A check with `context` put before its reason.
pub open spec fn with_context_of(r: ImageCheckView, context: Seq<char>) -> ImageCheckView {
    match r {
        ImageCheckView::Found => ImageCheckView::Found,
        ImageCheckView::Missing(reason) => ImageCheckView::Missing(context + ": "@ + reason),
        ImageCheckView::NetworkError(reason) => ImageCheckView::NetworkError(context + ": "@ + reason),
    }
}

impl ImageCheck {
    /// Whether the image was found.
    pub fn is_found(&self) -> (res: bool)
        ensures
            res == (self@ is Found),
    {
        match self {
            ImageCheck::Found => true,
            _ => false,
        }
    }

    /// Why the check failed, if it did.
    pub fn failure_reason(self) -> (res: Option<String>)
        ensures
            match res {
                Some(r) => failure_reason_of(self@) == Some(r@),
                None => failure_reason_of(self@) is None,
            },
    {
        match self {
            ImageCheck::Found => None,
            ImageCheck::Missing(reason) => Some(reason),
            ImageCheck::NetworkError(reason) => Some(reason),
        }
    }

    /// The kind and reason of a failed check.
    pub fn failure_details(&self) -> (res: Option<(&'static str, &str)>)
        ensures
            match res {
                Some((kind, reason)) => kind@ == failure_kind_of(self@) && failure_reason_of(self@)
                    == Some(reason@),
                None => self@ is Found,
            },
    {
        match self {
            ImageCheck::Found => None,
            ImageCheck::Missing(reason) => Some(("http-or-content", reason.as_str())),
            ImageCheck::NetworkError(reason) => Some(("network", reason.as_str())),
        }
    }

    /// The check with `context` put before its reason, as
    /// `context: reason`.
    pub fn with_context(self, context: &str) -> (res: Self)
        ensures
            res@ == with_context_of(self@, context@),
    {
        match self {
            ImageCheck::Found => ImageCheck::Found,
            ImageCheck::Missing(reason) => {
                let mut out = chars_of(context);
                push_str(&mut out, ": ");
                push_str(&mut out, reason.as_str());
                proof {
                    reveal_strlit(": ");
                }
                ImageCheck::Missing(string_from_chars(&out))
            },
            ImageCheck::NetworkError(reason) => {
                let mut out = chars_of(context);
                push_str(&mut out, ": ");
                push_str(&mut out, reason.as_str());
                proof {
                    reveal_strlit(": ");
                }
                ImageCheck::NetworkError(string_from_chars(&out))
            },
        }
    }

    /// A copy of the check.
    pub fn duplicate(&self) -> (res: Self)
        ensures
            res@ == self@,
    {
        match self {
            ImageCheck::Found => ImageCheck::Found,
            ImageCheck::Missing(reason) => ImageCheck::Missing(reason.clone()),
            ImageCheck::NetworkError(reason) => ImageCheck::NetworkError(reason.clone()),
        }
    }
}

/// One failed image candidate: its image ID, URL and the reason.
#[derive(Debug)]
pub struct FailedImageCheck {
    pub image_id: i64,
    pub url: String,
    pub reason: String,
}

/// A failed image candidate, as values.
pub struct FailedCheckView {
    pub image_id: i64,
    pub url: Seq<char>,
    pub reason: Seq<char>,
}

impl View for FailedImageCheck {
    type V = FailedCheckView;

    open spec fn view(&self) -> FailedCheckView {
        FailedCheckView { image_id: self.image_id, url: self.url@, reason: self.reason@ }
    }
}

pub open spec fn opt_failed_view(o: Option<FailedImageCheck>) -> Option<FailedCheckView> {
    match o {
        Some(f) => Some(f@),
        None => None,
    }
}

/// A card whose image could not be resolved.
#[derive(Debug)]
pub struct ImageCheckFailure {
    pub environment: Environment,
    pub id: i64,
    pub name: String,
    pub alias: i64,
    pub primary: FailedImageCheck,
    pub alias_check: Option<FailedImageCheck>,
    pub card_skipped: bool,
}

/// A card whose image could not be resolved, as values.
pub struct ImageCheckFailureView {
    pub environment: Environment,
    pub id: i64,
    pub name: Seq<char>,
    pub alias: i64,
    pub primary: FailedCheckView,
    pub alias_check: Option<FailedCheckView>,
    pub card_skipped: bool,
}

impl View for ImageCheckFailure {
    type V = ImageCheckFailureView;

    open spec fn view(&self) -> ImageCheckFailureView {
        ImageCheckFailureView {
            environment: self.environment,
            id: self.id,
            name: self.name@,
            alias: self.alias,
            primary: self.primary@,
            alias_check: opt_failed_view(self.alias_check),
            card_skipped: self.card_skipped,
        }
    }
}

pub open spec fn failures_view(v: Seq<ImageCheckFailure>) -> Seq<ImageCheckFailureView> {
    Seq::new(v.len(), |i: int| v[i]@)
}

/// The URL of the image with ID `id`: the base URL without its trailing
/// slashes, a slash, the ID and `.jpg`.
pub open spec fn image_url_of(base_url: Seq<char>, id: i64) -> Seq<char> {
    trim_end_char(base_url, '/') + seq!['/'] + signed_decimal(id as int) + ".jpg"@
}

/// The URL of the image with ID `id`.
pub fn image_url(base_url: &str, id: i64) -> (res: String)
    ensures
        res@ == image_url_of(base_url@, id),
{
    let base = chars_of(base_url);
    let mut out = trim_end_char_exec(&base, '/');
    out.push('/');
    let digits = signed_decimal_chars(id);
    push_chars(&mut out, &digits);
    push_str(&mut out, ".jpg");
    string_from_chars(&out)
}

/// Why a response that is not an image was refused: its status when that
/// is not a success, else its content type or the lack of one.
pub open spec fn non_image_reason(status: u16, content_type: Option<Seq<char>>) -> Seq<char> {
    if !success(status) {
        "HTTP "@ + status_text(status)
    } else {
        match content_type {
            Some(t) => "HTTP "@ + status_text(status) + "; Content-Type "@ + t + " is not an image"@,
            None => "HTTP "@ + status_text(status) + "; missing or invalid Content-Type"@,
        }
    }
}

pub open spec fn opt_text_view(o: Option<&str>) -> Option<Seq<char>> {
    match o {
        Some(s) => Some(s@),
        None => None,
    }
}

/// Why a response that is not an image was refused.
pub fn non_image_response_reason(status: u16, content_type: Option<&str>) -> (res: String)
    requires
        100 <= status <= 999,
    ensures
        res@ == non_image_reason(status, opt_text_view(content_type)),
{
    let mut out = chars_of("HTTP ");
    let text = status_display(status);
    push_str(&mut out, text.as_str());
    if !is_success(status) {
        return string_from_chars(&out);
    }
    match content_type {
        Some(t) => {
            push_str(&mut out, "; Content-Type ");
            push_str(&mut out, t);
            push_str(&mut out, " is not an image");
        },
        None => {
            push_str(&mut out, "; missing or invalid Content-Type");
        },
    }
    string_from_chars(&out)
}

/// Whether a response is an image: a success status and a content type
/// that starts with `image/`.
pub open spec fn image_response(status: u16, content_type: Option<Seq<char>>) -> bool {
    success(status) && match content_type {
        Some(t) => starts_with(t, "image/"@),
        None => false,
    }
}

/// Whether a response is an image.
pub fn is_image_response(status: u16, content_type: Option<&str>) -> (res: bool)
    ensures
        res == image_response(status, opt_text_view(content_type)),
{
    if !is_success(status) {
        return false;
    }
    match content_type {
        Some(t) => {
            let chars = chars_of(t);
            let prefix = chars_of("image/");
            starts_with_exec(&chars, &prefix)
        },
        None => false,
    }
}

/// What a response to an image request means: found when it is an image,
/// else missing with the reason.
pub fn classify_image_response(status: u16, content_type: Option<&str>) -> (res: ImageCheck)
    requires
        100 <= status <= 999,
    ensures
        image_response(status, opt_text_view(content_type)) ==> res@ is Found,
        !image_response(status, opt_text_view(content_type)) ==> res@ == ImageCheckView::Missing(
            non_image_reason(status, opt_text_view(content_type)),
        ),
{
    if is_image_response(status, content_type) {
        ImageCheck::Found
    } else {
        ImageCheck::Missing(non_image_response_reason(status, content_type))
    }
}

/// Which candidate of a card awaits its check.
#[derive(Debug)]
enum Stage {
    /// The card's own ID.
    Primary,
    /// The alias, after the card's own ID failed as given.
    Alias(FailedImageCheck),
}

/// Which candidate of a card awaits its check, as values.
pub enum StageView {
    Primary,
    Alias(FailedCheckView),
}

/// The card whose image is being resolved.
#[derive(Debug)]
struct Pending {
    environment: Environment,
    id: i64,
    name: String,
    alias: i64,
    stage: Stage,
}

/// The card whose image is being resolved, as values.
pub struct PendingView {
    pub environment: Environment,
    pub id: i64,
    pub name: Seq<char>,
    pub alias: i64,
    pub stage: StageView,
}

impl View for Pending {
    type V = PendingView;

    closed spec fn view(&self) -> PendingView {
        PendingView {
            environment: self.environment,
            id: self.id,
            name: self.name@,
            alias: self.alias,
            stage: match self.stage {
                Stage::Primary => StageView::Primary,
                Stage::Alias(f) => StageView::Alias(f@),
            },
        }
    }
}

/// What resolving a card's image needs next.
#[derive(Debug)]
pub enum ImageStep {
    /// The image is settled: `Some` image ID, or `None` when the card is
    /// to be skipped.
    Settled(Option<i64>),
    /// The image `image_id` must be checked at `url`; the outcome goes to
    /// `ImageResolver::resume`.
    Check { image_id: i64, url: String },
}

/// What resolving a card's image needs next, as values.
pub enum ImageStepView {
    Settled(Option<i64>),
    Check(i64, Seq<char>),
}

impl View for ImageStep {
    type V = ImageStepView;

    open spec fn view(&self) -> ImageStepView {
        match self {
            ImageStep::Settled(image) => ImageStepView::Settled(*image),
            ImageStep::Check { image_id, url } => ImageStepView::Check(*image_id, url@),
        }
    }
}

/// Resolves the images of cards: without checks a card's image is its ID;
/// with checks the card's ID is tried, then its alias when that is a
/// distinct positive ID, and a card with neither is kept with image 0 or
/// skipped, as the options say. Each image is checked at most once.
#[derive(Debug)]
pub struct ImageResolver {
    checking: bool,
    base_url: String,
    cache: HashMap<i64, ImageCheck>,
    summary: ImageCheckSummary,
    failures: Vec<ImageCheckFailure>,
    pending: Option<Pending>,
    diagnostics: Vec<Diagnostic>,
}

/// What an image resolver holds.
pub struct ImageResolverView {
    pub checking: bool,
    pub base_url: Seq<char>,
    pub cache: Map<i64, ImageCheckView>,
    pub summary: ImageCheckSummary,
    pub failures: Seq<ImageCheckFailureView>,
    pub pending: Option<PendingView>,
    pub diagnostics: Seq<DiagnosticView>,
}

pub open spec fn opt_pending_view(o: Option<Pending>) -> Option<PendingView> {
    match o {
        Some(p) => Some(p@),
        None => None,
    }
}

impl View for ImageResolver {
    type V = ImageResolverView;

    closed spec fn view(&self) -> ImageResolverView {
        ImageResolverView {
            checking: self.checking,
            base_url: self.base_url@,
            cache: self.cache@.map_values(|c: ImageCheck| c@),
            summary: self.summary,
            failures: failures_view(self.failures@),
            pending: opt_pending_view(self.pending),
            diagnostics: crate::diagnostics::records_view(self.diagnostics@),
        }
    }
}

/// The counts of a resolver agree with its lists, `in_flight` cards being
/// in the middle of their resolution: the totals say whether checks are
/// on; each checked card is found by its ID, found by its alias, missing,
/// or in flight; each missing card is listed once as a failure; the skipped
/// cards are all missing cards when the options skip them and none
/// otherwise; and network errors are among the missing URLs.
pub open spec fn counts_agree(v: ImageResolverView, in_flight: int) -> bool {
    let s = v.summary;
    &&& s.enabled == v.checking
    &&& s.primary_found + s.alias_found + s.missing + in_flight == s.cards_checked
    &&& v.failures.len() == s.missing
    &&& s.cards_skipped == (if s.skip_failures { s.missing } else { 0 })
    &&& forall|i: int| 0 <= i < v.failures.len() ==> #[trigger] v.failures[i].card_skipped
        == s.skip_failures
    &&& s.network_errors <= s.unique_urls_missing
}

/// What every resolver keeps: its counts agree, the card being resolved, if
/// any, being in flight; and a card is only ever being resolved when checks
/// are on.
pub open spec fn resolver_invariant(v: ImageResolverView) -> bool {
    &&& counts_agree(v, if v.pending is Some { 1 } else { 0 })
    &&& (v.pending is Some ==> v.checking)
}

/// Whether the totals can take one more card.
pub open spec fn has_room(s: ImageCheckSummary) -> bool {
    &&& s.cards_checked < usize::MAX
    &&& s.cache_hits + 2 <= usize::MAX
    &&& s.unique_urls_found + 2 <= usize::MAX
    &&& s.unique_urls_missing + 2 <= usize::MAX
}

/// The warning for a failed image candidate.
pub open spec fn candidate_failed_view(image_id: i64, kind: Seq<char>, url: Seq<char>, reason: Seq<char>) -> DiagnosticView {
    DiagnosticView {
        severity: Severity::Warning,
        code: "image.candidate-failed"@,
        title: "Image candidate check failed"@,
        context: seq![
            ("Image ID"@, signed_decimal(image_id as int)),
            ("Kind"@, kind),
            ("URL"@, url),
        ],
        reason: Some(reason),
        suggestion: None,
    }
}

/// The warning for a card whose image could not be resolved.
pub open spec fn unresolved_view(p: PendingView, skipped: bool) -> DiagnosticView {
    DiagnosticView {
        severity: Severity::Warning,
        code: "image.unresolved"@,
        title: "Card image could not be resolved"@,
        context: seq![
            ("Environment"@, environment_label(p.environment)),
            ("Card ID"@, signed_decimal(p.id as int)),
            ("Alias"@, signed_decimal(p.alias as int)),
            ("Name"@, p.name),
            ("Action"@, if skipped { "card skipped"@ } else { "card kept with image 0"@ }),
        ],
        reason: Some("No primary or distinct alias image candidate passed validation"@),
        suggestion: None,
    }
}

/// A cached check was used.
pub open spec fn with_hit(s: ImageResolverView) -> ImageResolverView {
    ImageResolverView {
        summary: ImageCheckSummary { cache_hits: (s.summary.cache_hits + 1) as usize, ..s.summary },
        ..s
    }
}

/// The outcome of checking `image_id` is counted, cached, and warned about
/// when it failed.
pub open spec fn with_result(s: ImageResolverView, image_id: i64, r: ImageCheckView) -> ImageResolverView {
    let sm = s.summary;
    let counted = match r {
        ImageCheckView::Found => ImageCheckSummary {
            unique_urls_found: (sm.unique_urls_found + 1) as usize,
            ..sm
        },
        ImageCheckView::Missing(_) => ImageCheckSummary {
            unique_urls_missing: (sm.unique_urls_missing + 1) as usize,
            ..sm
        },
        ImageCheckView::NetworkError(_) => ImageCheckSummary {
            network_errors: (sm.network_errors + 1) as usize,
            unique_urls_missing: (sm.unique_urls_missing + 1) as usize,
            ..sm
        },
    };
    let diagnostics = match failure_reason_of(r) {
        Some(reason) => s.diagnostics.push(
            candidate_failed_view(
                image_id,
                failure_kind_of(r),
                image_url_of(s.base_url, image_id),
                reason,
            ),
        ),
        None => s.diagnostics,
    };
    ImageResolverView { summary: counted, cache: s.cache.insert(image_id, r), diagnostics, ..s }
}

/// A failed candidate, as the failure list shows it.
pub open spec fn failed_view(s: ImageResolverView, image_id: i64, r: ImageCheckView) -> FailedCheckView {
    FailedCheckView {
        image_id,
        url: image_url_of(s.base_url, image_id),
        reason: failure_reason_of(r).unwrap(),
    }
}

/// Neither candidate of the card passed: the card is counted missing,
/// listed and warned about, and kept with image 0 or skipped.
pub open spec fn settle_unresolved(
    s: ImageResolverView,
    p: PendingView,
    primary: FailedCheckView,
    alias_check: Option<FailedCheckView>,
) -> (ImageResolverView, ImageStepView) {
    let skip = s.summary.skip_failures;
    let sm = ImageCheckSummary {
        missing: (s.summary.missing + 1) as usize,
        cards_skipped: (if skip { s.summary.cards_skipped + 1 } else { s.summary.cards_skipped as int }) as usize,
        ..s.summary
    };
    let failure = ImageCheckFailureView {
        environment: p.environment,
        id: p.id,
        name: p.name,
        alias: p.alias,
        primary,
        alias_check,
        card_skipped: skip,
    };
    (
        ImageResolverView {
            summary: sm,
            failures: s.failures.push(failure),
            diagnostics: s.diagnostics.push(unresolved_view(p, skip)),
            pending: None,
            ..s
        },
        ImageStepView::Settled(if skip { None } else { Some(0) }),
    )
}

/// The alias check `r` of the card settles it.
pub open spec fn settle_alias(
    s: ImageResolverView,
    p: PendingView,
    primary: FailedCheckView,
    r: ImageCheckView,
) -> (ImageResolverView, ImageStepView) {
    if r is Found {
        (
            ImageResolverView {
                summary: ImageCheckSummary {
                    alias_found: (s.summary.alias_found + 1) as usize,
                    ..s.summary
                },
                pending: None,
                ..s
            },
            ImageStepView::Settled(Some(p.alias)),
        )
    } else {
        settle_unresolved(s, p, primary, Some(failed_view(s, p.alias, r)))
    }
}

/// Whether a card's alias is a candidate: a positive ID other than its own.
pub open spec fn alias_is_candidate(id: i64, alias: i64) -> bool {
    alias > 0 && alias != id
}

/// The check `r` of the card's own ID settles it, or leads to its alias:
/// from the cache when it is there, else by asking for its check.
pub open spec fn settle_primary(s: ImageResolverView, p: PendingView, r: ImageCheckView) -> (ImageResolverView, ImageStepView) {
    if r is Found {
        (
            ImageResolverView {
                summary: ImageCheckSummary {
                    primary_found: (s.summary.primary_found + 1) as usize,
                    ..s.summary
                },
                pending: None,
                ..s
            },
            ImageStepView::Settled(Some(p.id)),
        )
    } else {
        let f = failed_view(s, p.id, r);
        if alias_is_candidate(p.id, p.alias) {
            if s.cache.contains_key(p.alias) {
                settle_alias(with_hit(s), p, f, s.cache[p.alias])
            } else {
                (
                    ImageResolverView {
                        pending: Some(PendingView { stage: StageView::Alias(f), ..p }),
                        ..s
                    },
                    ImageStepView::Check(p.alias, image_url_of(s.base_url, p.alias)),
                )
            }
        } else {
            settle_unresolved(s, p, f, None)
        }
    }
}

/// Starting to resolve a card: without checks the image is the card's ID;
/// with checks the card is counted and its own ID looked up, from the cache
/// when it is there, else by asking for its check.
pub open spec fn resolve_step(
    s: ImageResolverView,
    environment: Environment,
    id: i64,
    name: Seq<char>,
    alias: i64,
) -> (ImageResolverView, ImageStepView) {
    if !s.checking {
        (s, ImageStepView::Settled(Some(id)))
    } else {
        let p = PendingView { environment, id, name, alias, stage: StageView::Primary };
        let counted = ImageResolverView {
            summary: ImageCheckSummary { cards_checked: (s.summary.cards_checked + 1) as usize, ..s.summary },
            pending: None,
            ..s
        };
        if s.cache.contains_key(id) {
            settle_primary(with_hit(counted), p, s.cache[id])
        } else {
            (
                ImageResolverView { pending: Some(p), ..counted },
                ImageStepView::Check(id, image_url_of(s.base_url, id)),
            )
        }
    }
}

/// Going on with the outcome `r` of the check that was asked for.
pub open spec fn resume_step(s: ImageResolverView, r: ImageCheckView) -> (ImageResolverView, ImageStepView) {
    let p = s.pending.unwrap();
    let s0 = ImageResolverView { pending: None, ..s };
    match p.stage {
        StageView::Primary => settle_primary(with_result(s0, p.id, r), PendingView { stage: StageView::Primary, ..p }, r),
        StageView::Alias(f) => settle_alias(with_result(s0, p.alias, r), PendingView { stage: StageView::Primary, ..p }, f, r),
    }
}

/// Whether a settled step gives the card its own ID, its alias or 0, and
/// skips the card only under a skipping policy.
pub open spec fn settles_within(step: ImageStepView, id: i64, alias: i64, skip_failures: bool) -> bool {
    match step {
        ImageStepView::Settled(Some(x)) => x == id || x == alias || x == 0,
        ImageStepView::Settled(None) => skip_failures,
        ImageStepView::Check(image_id, _) => image_id == id || image_id == alias,
    }
}

/// The warning for a failed image candidate.
fn candidate_failed(image_id: i64, kind: &str, url: &str, reason: &str) -> (res: Diagnostic)
    ensures
        res@ == candidate_failed_view(image_id, kind@, url@, reason@),
{
    let id_text = crate::formatting::signed_decimal_string(image_id);
    let d = Diagnostic::warning("image.candidate-failed", "Image candidate check failed").context(
        "Image ID",
        id_text.as_str(),
    ).context("Kind", kind).context("URL", url).reason(reason);
    proof {
        assert(d@.context =~= candidate_failed_view(image_id, kind@, url@, reason@).context);
    }
    d
}

/// The warning for a card whose image could not be resolved.
fn unresolved(p: &Pending, skipped: bool) -> (res: Diagnostic)
    ensures
        res@ == unresolved_view(p@, skipped),
{
    let id_text = crate::formatting::signed_decimal_string(p.id);
    let alias_text = crate::formatting::signed_decimal_string(p.alias);
    let action = if skipped { "card skipped" } else { "card kept with image 0" };
    let d = Diagnostic::warning("image.unresolved", "Card image could not be resolved").context(
        "Environment",
        p.environment.label(),
    ).context("Card ID", id_text.as_str()).context("Alias", alias_text.as_str()).context(
        "Name",
        p.name.as_str(),
    ).context("Action", action).reason(
        "No primary or distinct alias image candidate passed validation",
    );
    proof {
        assert(d@.context =~= unresolved_view(p@, skipped).context);
    }
    d
}

impl ImageResolver {
    /// A resolver for a run with the given options, whose images are under
    /// `base_url`. Skipping cards on image failures needs image checks.
    pub fn new(options: GenerationOptions, base_url: &str) -> (res: Result<Self, String>)
        ensures
            !options.check_images && options.skip_image_failures ==> (res matches Err(m) && m@
                == "skipping image failures requires image checks"@),
            options.check_images || !options.skip_image_failures ==> (res matches Ok(r) && r@ == (
            ImageResolverView {
                checking: options.check_images,
                base_url: base_url@,
                cache: Map::empty(),
                summary: ImageCheckSummary {
                    enabled: options.check_images,
                    skip_failures: options.skip_image_failures,
                    ..zero_summary()
                },
                failures: seq![],
                pending: None,
                diagnostics: seq![],
            }) && resolver_invariant(r@)),
    {
        if !options.check_images && options.skip_image_failures {
            return Err(string_from_chars(&chars_of("skipping image failures requires image checks")));
        }
        let mut summary = ImageCheckSummary::default();
        summary.enabled = options.check_images;
        summary.skip_failures = options.skip_image_failures;
        let res = ImageResolver {
            checking: options.check_images,
            base_url: string_from_chars(&chars_of(base_url)),
            cache: HashMap::new(),
            summary,
            failures: Vec::new(),
            pending: None,
            diagnostics: Vec::new(),
        };
        proof {
            assert(res@.cache =~= Map::<i64, ImageCheckView>::empty());
            assert(res@.failures =~= Seq::<ImageCheckFailureView>::empty());
            assert(res@.diagnostics =~= Seq::<DiagnosticView>::empty());
        }
        Ok(res)
    }

    /// The totals so far.
    pub fn summary(&self) -> (res: ImageCheckSummary)
        ensures
            res == self@.summary,
    {
        self.summary
    }

    /// The cards whose images could not be resolved, in order.
    pub fn failures(&self) -> (res: &[ImageCheckFailure])
        ensures
            failures_view(res@) == self@.failures,
    {
        self.failures.as_slice()
    }

    /// Whether a card's image is being resolved and awaits a check.
    pub fn is_resolving(&self) -> (res: bool)
        ensures
            res == (self@.pending is Some),
    {
        self.pending.is_some()
    }

    /// Hands out the warnings gathered so far, oldest first.
    pub fn take_diagnostics(&mut self) -> (res: Vec<Diagnostic>)
        requires
            resolver_invariant(old(self)@),
        ensures
            crate::diagnostics::records_view(res@) == old(self)@.diagnostics,
            final(self)@ == (ImageResolverView { diagnostics: seq![], ..old(self)@ }),
            resolver_invariant(final(self)@),
    {
        let mut taken: Vec<Diagnostic> = Vec::new();
        std::mem::swap(&mut taken, &mut self.diagnostics);
        proof {
            assert(crate::diagnostics::records_view(self.diagnostics@) =~= Seq::<DiagnosticView>::empty());
        }
        taken
    }

    /// Counts a use of the cache.
    fn note_hit(&mut self)
        requires
            old(self).summary.cache_hits < usize::MAX,
        ensures
            final(self)@ == with_hit(old(self)@),
    {
        self.summary.cache_hits = self.summary.cache_hits + 1;
    }

    /// Counts, caches and warns about the outcome of a check.
    fn note_result(&mut self, image_id: i64, result: &ImageCheck)
        requires
            old(self).summary.unique_urls_found < usize::MAX,
            old(self).summary.unique_urls_missing < usize::MAX,
            old(self).summary.network_errors < usize::MAX,
        ensures
            final(self)@ == with_result(old(self)@, image_id, result@),
    {
        let ghost before = self@;
        match result {
            ImageCheck::Found => {
                self.summary.unique_urls_found = self.summary.unique_urls_found + 1;
            },
            ImageCheck::Missing(_) => {
                self.summary.unique_urls_missing = self.summary.unique_urls_missing + 1;
            },
            ImageCheck::NetworkError(_) => {
                self.summary.network_errors = self.summary.network_errors + 1;
                self.summary.unique_urls_missing = self.summary.unique_urls_missing + 1;
            },
        }
        match result.failure_details() {
            Some((kind, reason)) => {
                let url = image_url(self.base_url.as_str(), image_id);
                let d = candidate_failed(image_id, kind, url.as_str(), reason);
                proof {
                    crate::diagnostics::lemma_records_view_push(self.diagnostics@, d);
                }
                self.diagnostics.push(d);
            },
            None => {},
        }
        self.cache.insert(image_id, result.duplicate());
        proof {
            assert(self@.cache =~= before.cache.insert(image_id, result@));
            assert(self@.diagnostics =~= with_result(before, image_id, result@).diagnostics);
        }
    }

    /// A failed candidate, as the failure list shows it.
    fn failed_check(&self, image_id: i64, result: ImageCheck) -> (res: FailedImageCheck)
        requires
            !(result@ is Found),
        ensures
            res@ == failed_view(self@, image_id, result@),
    {
        let url = image_url(self.base_url.as_str(), image_id);
        let reason = result.failure_reason().unwrap();
        FailedImageCheck { image_id, url, reason }
    }

    /// Neither candidate passed: the card is counted missing, listed and
    /// warned about, and kept with image 0 or skipped.
    fn settle_unresolved(&mut self, p: Pending, primary: FailedImageCheck, alias_check: Option<FailedImageCheck>) -> (res: ImageStep)
        requires
            counts_agree(old(self)@, 1),
            old(self)@.pending is None,
            old(self)@.checking,
        ensures
            (final(self)@, res@) == settle_unresolved(old(self)@, p@, primary@, opt_failed_view(alias_check)),
            resolver_invariant(final(self)@),
    {
        let ghost before = self@;
        let skip = self.summary.skip_failures;
        self.summary.missing = self.summary.missing + 1;
        if skip {
            self.summary.cards_skipped = self.summary.cards_skipped + 1;
        }
        let d = unresolved(&p, skip);
        proof {
            crate::diagnostics::lemma_records_view_push(self.diagnostics@, d);
        }
        self.diagnostics.push(d);
        let ghost pv = p@;
        let Pending { environment, id, name, alias, stage: _ } = p;
        let failure = ImageCheckFailure {
            environment,
            id,
            name,
            alias,
            primary,
            alias_check,
            card_skipped: skip,
        };
        let ghost fv = failure@;
        self.failures.push(failure);
        proof {
            assert(failures_view(self.failures@) =~= before.failures.push(fv));
            let expected = settle_unresolved(before, pv, primary@, opt_failed_view(alias_check));
            assert(self@.failures == expected.0.failures);
            assert(self@ == expected.0);
        }
        ImageStep::Settled(if skip { None } else { Some(0) })
    }

    /// The alias check `result` settles the card.
    fn settle_alias(&mut self, p: Pending, primary: FailedImageCheck, result: ImageCheck) -> (res: ImageStep)
        requires
            counts_agree(old(self)@, 1),
            old(self)@.pending is None,
            old(self)@.checking,
        ensures
            (final(self)@, res@) == settle_alias(old(self)@, p@, primary@, result@),
            resolver_invariant(final(self)@),
    {
        if result.is_found() {
            self.summary.alias_found = self.summary.alias_found + 1;
            ImageStep::Settled(Some(p.alias))
        } else {
            let f = self.failed_check(p.alias, result);
            self.settle_unresolved(p, primary, Some(f))
        }
    }

    /// The check `result` of the card's own ID settles it or leads to its
    /// alias.
    fn settle_primary(&mut self, p: Pending, result: ImageCheck) -> (res: ImageStep)
        requires
            counts_agree(old(self)@, 1),
            old(self)@.pending is None,
            old(self)@.checking,
            old(self)@.summary.cache_hits < usize::MAX,
            p@.stage is Primary,
        ensures
            (final(self)@, res@) == settle_primary(old(self)@, p@, result@),
            resolver_invariant(final(self)@),
    {
        if result.is_found() {
            self.summary.primary_found = self.summary.primary_found + 1;
            return ImageStep::Settled(Some(p.id));
        }
        let f = self.failed_check(p.id, result);
        if p.alias > 0 && p.alias != p.id {
            let cached: Option<ImageCheck> = match self.cache.get(&p.alias) {
                Some(c) => Some(c.duplicate()),
                None => None,
            };
            match cached {
                Some(c) => {
                    self.note_hit();
                    self.settle_alias(p, f, c)
                },
                None => {
                    let alias = p.alias;
                    let url = image_url(self.base_url.as_str(), alias);
                    let Pending { environment, id, name, alias: _, stage: _ } = p;
                    self.pending = Some(Pending { environment, id, name, alias, stage: Stage::Alias(f) });
                    ImageStep::Check { image_id: alias, url }
                },
            }
        } else {
            self.settle_unresolved(p, f, None)
        }
    }

    /// Starts resolving a card's image: the image itself when it is
    /// settled at once, else the check that is needed.
    pub fn resolve(&mut self, environment: Environment, id: i64, name: &str, alias: i64) -> (res: ImageStep)
        requires
            resolver_invariant(old(self)@),
            old(self)@.pending is None,
            has_room(old(self)@.summary),
        ensures
            (final(self)@, res@) == resolve_step(old(self)@, environment, id, name@, alias),
            resolver_invariant(final(self)@),
            settles_within(res@, id, alias, old(self)@.summary.skip_failures),
            res@ matches ImageStepView::Check(image_id, _) ==> !final(self)@.cache.contains_key(image_id),
    {
        if !self.checking {
            return ImageStep::Settled(Some(id));
        }
        self.summary.cards_checked = self.summary.cards_checked + 1;
        let p = Pending {
            environment,
            id,
            name: string_from_chars(&chars_of(name)),
            alias,
            stage: Stage::Primary,
        };
        let cached: Option<ImageCheck> = match self.cache.get(&id) {
            Some(c) => Some(c.duplicate()),
            None => None,
        };
        match cached {
            Some(c) => {
                self.note_hit();
                self.settle_primary(p, c)
            },
            None => {
                let url = image_url(self.base_url.as_str(), id);
                self.pending = Some(p);
                ImageStep::Check { image_id: id, url }
            },
        }
    }

    /// Goes on with the outcome of the check that was asked for.
    pub fn resume(&mut self, result: ImageCheck) -> (res: ImageStep)
        requires
            resolver_invariant(old(self)@),
            old(self)@.pending is Some,
            has_room(old(self)@.summary),
        ensures
            (final(self)@, res@) == resume_step(old(self)@, result@),
            resolver_invariant(final(self)@),
            settles_within(
                res@,
                old(self)@.pending.unwrap().id,
                old(self)@.pending.unwrap().alias,
                old(self)@.summary.skip_failures,
            ),
            res@ matches ImageStepView::Check(image_id, _) ==> !final(self)@.cache.contains_key(image_id),
            final(self)@.cache.contains_key(
                match old(self)@.pending.unwrap().stage {
                    StageView::Primary => old(self)@.pending.unwrap().id,
                    StageView::Alias(_) => old(self)@.pending.unwrap().alias,
                },
            ),
    {
        let mut taken: Option<Pending> = None;
        std::mem::swap(&mut taken, &mut self.pending);
        let p = taken.unwrap();
        let Pending { environment, id, name, alias, stage } = p;
        match stage {
            Stage::Primary => {
                self.note_result(id, &result);
                self.settle_primary(Pending { environment, id, name, alias, stage: Stage::Primary }, result)
            },
            Stage::Alias(f) => {
                self.note_result(alias, &result);
                self.settle_alias(Pending { environment, id, name, alias, stage: Stage::Primary }, f, result)
            },
        }
    }
}


/// How many times an image request is made before its failure stands.
pub const MAX_IMAGE_CHECK_ATTEMPTS: u32 = 3;

/// How an image request ended.
#[derive(Debug)]
pub enum RequestOutcome {
    /// The server answered with this status.
    Responded(u16),
    /// The request failed; the error's text.
    Failed(String),
}

/// What to do after an image request.
#[derive(Debug)]
pub enum RequestDecision {
    /// Use the response.
    Accept,
    /// Wait `delay_secs` seconds, record the warning and try again.
    Retry { delay_secs: u64, diagnostic: Diagnostic },
    /// Give up, with this message before the request's error.
    GiveUp(String),
}

/// The warning for an image request that will be repeated.
pub open spec fn retry_warning_view(method: Seq<char>, url: Seq<char>, attempt: u32, reason: Seq<char>) -> DiagnosticView {
    DiagnosticView {
        severity: Severity::Warning,
        code: "image.request-retry"@,
        title: "Image request will be retried"@,
        context: seq![
            ("Method"@, method),
            ("URL"@, url),
            ("Attempt"@, crate::formatting::decimal(attempt as nat) + " of 3"@),
            ("Retry in"@, crate::formatting::decimal((attempt * attempt) as nat) + " seconds"@),
        ],
        reason: Some(reason),
        suggestion: None,
    }
}

/// What follows attempt `attempt` of an image request: a response is used
/// unless its status is worth retrying and attempts remain; a failed
/// request is repeated while attempts remain, else given up.
pub open spec fn request_decision(method: Seq<char>, url: Seq<char>, attempt: u32, outcome: RequestOutcome) -> (bool, Option<(u64, DiagnosticView)>, Option<Seq<char>>) {
    match outcome {
        RequestOutcome::Responded(status) => {
            if !crate::http::retryable(status) || attempt == MAX_IMAGE_CHECK_ATTEMPTS {
                (true, None, None)
            } else {
                (
                    false,
                    Some(((attempt * attempt) as u64, retry_warning_view(method, url, attempt, "HTTP "@ + status_text(status)))),
                    None,
                )
            }
        },
        RequestOutcome::Failed(error) => {
            if attempt < MAX_IMAGE_CHECK_ATTEMPTS {
                (
                    false,
                    Some(((attempt * attempt) as u64, retry_warning_view(method, url, attempt, error@))),
                    None,
                )
            } else {
                (
                    false,
                    None,
                    Some("failed to check image with "@ + method + " "@ + url + " after 3 attempts"@),
                )
            }
        },
    }
}

pub open spec fn decision_view(d: RequestDecision) -> (bool, Option<(u64, DiagnosticView)>, Option<Seq<char>>) {
    match d {
        RequestDecision::Accept => (true, None, None),
        RequestDecision::Retry { delay_secs, diagnostic } => (false, Some((delay_secs, diagnostic@)), None),
        RequestDecision::GiveUp(message) => (false, None, Some(message@)),
    }
}

/// Decides what follows attempt `attempt` of an image request made with
/// `method` to `url`.
pub fn image_request_decision(method: &str, url: &str, attempt: u32, outcome: &RequestOutcome) -> (res: RequestDecision)
    requires
        1 <= attempt <= MAX_IMAGE_CHECK_ATTEMPTS,
        outcome matches RequestOutcome::Responded(s) ==> 100 <= *s <= 999,
    ensures
        decision_view(res) == request_decision(method@, url@, attempt, *outcome),
        attempt == MAX_IMAGE_CHECK_ATTEMPTS ==> !(res is Retry),
{
    let reason: String = match outcome {
        RequestOutcome::Responded(status) => {
            if !crate::http::is_retryable_status(*status) || attempt == MAX_IMAGE_CHECK_ATTEMPTS {
                return RequestDecision::Accept;
            }
            let mut text = chars_of("HTTP ");
            let status_line = status_display(*status);
            push_str(&mut text, status_line.as_str());
            string_from_chars(&text)
        },
        RequestOutcome::Failed(error) => {
            if attempt >= MAX_IMAGE_CHECK_ATTEMPTS {
                let mut text = chars_of("failed to check image with ");
                push_str(&mut text, method);
                push_str(&mut text, " ");
                push_str(&mut text, url);
                push_str(&mut text, " after 3 attempts");
                return RequestDecision::GiveUp(string_from_chars(&text));
            }
            error.clone()
        },
    };
    let delay_secs = crate::http::backoff_delay(attempt);
    let mut attempt_text = crate::formatting::decimal_chars(attempt as u64);
    push_str(&mut attempt_text, " of 3");
    let mut delay_text = crate::formatting::decimal_chars(delay_secs);
    push_str(&mut delay_text, " seconds");
    let attempt_string = string_from_chars(&attempt_text);
    let delay_string = string_from_chars(&delay_text);
    let diagnostic = Diagnostic::warning("image.request-retry", "Image request will be retried").context(
        "Method",
        method,
    ).context("URL", url).context("Attempt", attempt_string.as_str()).context(
        "Retry in",
        delay_string.as_str(),
    ).reason(reason.as_str());
    proof {
        assert(diagnostic@.context =~= retry_warning_view(method@, url@, attempt, reason@).context);
    }
    RequestDecision::Retry { delay_secs, diagnostic }
}

/// The context put before a check made with `GET` after a `HEAD` request
/// was refused.
pub open spec fn head_fallback_context() -> Seq<char> {
    "HEAD returned HTTP 405 Method Not Allowed; GET fallback"@
}

/// Whether a `HEAD` request that ended with `status` is repeated with
/// `GET`: when the server refuses the method (405).
pub fn needs_get_fallback(status: u16) -> (res: bool)
    ensures
        res == (status == 405),
{
    status == 405
}

/// The outcome of the `GET` check made after a refused `HEAD` request.
pub fn after_head_fallback(get_result: ImageCheck) -> (res: ImageCheck)
    ensures
        res@ == with_context_of(get_result@, head_fallback_context()),
{
    get_result.with_context("HEAD returned HTTP 405 Method Not Allowed; GET fallback")
}

/// The width of a progress bar, in characters.
pub const PROGRESS_WIDTH: usize = 30;

/// How far a progress bar is filled: `current` thirtieths of `total`,
/// the product saturating as `usize` does.
pub open spec fn filled_cells(current: usize, total: usize) -> nat {
    let product = if current * 30 > usize::MAX { usize::MAX as int } else { current * 30 };
    let divisor = if total > 1 { total as int } else { 1 };
    (product / divisor) as nat
}

/// The text of a progress bar: a carriage return, the label, the bar of
/// `#` and `.`, and `current/total`.
pub open spec fn progress_text(label: Seq<char>, current: usize, total: usize) -> Seq<char> {
    let filled = filled_cells(current, total);
    seq!['\r'] + label + " ["@ + crate::chars::repeat_char('#', filled) + crate::chars::repeat_char(
        '.',
        (30 - filled) as nat,
    ) + "] "@ + crate::formatting::decimal(
        (if current < total { current } else { total }) as nat,
    ) + seq!['/'] + crate::formatting::decimal(total as nat)
}

/// `a * b`, or `usize::MAX` where the product does not fit.
fn saturating_times(a: usize, b: usize) -> (res: usize)
    requires
        b > 0,
    ensures
        res == (if a * b > usize::MAX { usize::MAX as int } else { a * b }),
{
    if a > usize::MAX / b {
        assert(a * b > usize::MAX) by (nonlinear_arith)
            requires
                a > usize::MAX / b,
                b > 0,
        ;
        usize::MAX
    } else {
        assert(a * b <= usize::MAX) by (nonlinear_arith)
            requires
                a <= usize::MAX / b,
                b > 0,
        ;
        a * b
    }
}

/// The text of a progress bar.
pub fn progress_bar(label: &str, current: usize, total: usize) -> (res: String)
    requires
        current <= total,
        total <= u64::MAX,
    ensures
        res@ == progress_text(label@, current, total),
{
    let product: usize = saturating_times(current, 30);
    let divisor: usize = if total > 1 { total } else { 1 };
    let filled = product / divisor;
    proof {
        if current * 30 > usize::MAX {
            assert(product == usize::MAX);
            assert(total * 30 > usize::MAX) by (nonlinear_arith)
                requires
                    current * 30 > usize::MAX,
                    current <= total,
            ;
            assert((usize::MAX as int) / (total as int) < 30) by (nonlinear_arith)
                requires
                    total * 30 > usize::MAX,
                    total > 0,
            ;
        } else {
            assert(product == current * 30);
            assert((current * 30) / (divisor as int) <= 30) by (nonlinear_arith)
                requires
                    current <= total,
                    divisor >= 1,
                    total <= divisor,
            ;
        }
        assert(filled as nat == filled_cells(current, total));
    }
    let mut out: Vec<char> = Vec::new();
    out.push('\r');
    push_str(&mut out, label);
    push_str(&mut out, " [");
    crate::chars::push_repeat(&mut out, '#', filled);
    crate::chars::push_repeat(&mut out, '.', 30 - filled);
    push_str(&mut out, "] ");
    let shown: usize = if current < total { current } else { total };
    push_chars(&mut out, &crate::formatting::decimal_chars(shown as u64));
    out.push('/');
    push_chars(&mut out, &crate::formatting::decimal_chars(total as u64));
    proof {
        assert(out@ =~= progress_text(label@, current, total));
    }
    string_from_chars(&out)
}

/// The progress of a long run of checks, redrawn when its percentage
/// changes and when it reaches its end.
#[derive(Debug)]
pub struct ProgressState {
    pub label: String,
    pub total: usize,
    pub current: usize,
    pub last_drawn_percent: usize,
}

/// The percentage that `current` is of `total`, the product saturating as
/// `usize` does.
pub open spec fn percent_of(current: usize, total: usize) -> int {
    let product = if current * 100 > usize::MAX { usize::MAX as int } else { current * 100 };
    let divisor = if total > 1 { total as int } else { 1 };
    product / divisor
}

impl ProgressState {
    /// A progress of `total` steps, none made and none drawn.
    pub fn new(total: usize, label: &str) -> (res: Self)
        ensures
            res.label@ == label@,
            res.total == total,
            res.current == 0,
            res.last_drawn_percent == usize::MAX,
    {
        ProgressState {
            label: string_from_chars(&chars_of(label)),
            total,
            current: 0,
            last_drawn_percent: usize::MAX,
        }
    }

    /// Whether the bar is to be redrawn: when the percentage changed since
    /// the last drawing, or the end is reached. The percentage drawn is
    /// remembered.
    pub fn should_draw(&mut self) -> (res: bool)
        ensures
            res == (percent_of(old(self).current, old(self).total) != old(self).last_drawn_percent
                || old(self).current >= old(self).total),
            res ==> final(self).last_drawn_percent == percent_of(old(self).current, old(self).total),
            !res ==> final(self).last_drawn_percent == old(self).last_drawn_percent,
            final(self).label == old(self).label,
            final(self).total == old(self).total,
            final(self).current == old(self).current,
    {
        let product: usize = saturating_times(self.current, 100);
        let divisor: usize = if self.total > 1 { self.total } else { 1 };
        let percent = product / divisor;
        if percent != self.last_drawn_percent || self.current >= self.total {
            self.last_drawn_percent = percent;
            true
        } else {
            false
        }
    }

    /// One more step; the bar's text when it is to be redrawn.
    pub fn advance(&mut self) -> (res: Option<String>)
        requires
            old(self).current < old(self).total,
            old(self).total <= u64::MAX,
        ensures
            final(self).current == old(self).current + 1,
            final(self).total == old(self).total,
            final(self).label == old(self).label,
            res is Some == (percent_of((old(self).current + 1) as usize, old(self).total)
                != old(self).last_drawn_percent || old(self).current + 1 >= old(self).total),
            res matches Some(text) ==> text@ == progress_text(
                old(self).label@,
                (old(self).current + 1) as usize,
                old(self).total,
            ),
    {
        self.current = self.current + 1;
        if self.should_draw() {
            Some(progress_bar(self.label.as_str(), self.current, self.total))
        } else {
            None
        }
    }

    /// The bar's text at its end.
    pub fn finish(&mut self) -> (res: String)
        requires
            old(self).total <= u64::MAX,
        ensures
            final(self).current == old(self).total,
            res@ == progress_text(old(self).label@, old(self).total, old(self).total),
    {
        self.current = self.total;
        progress_bar(self.label.as_str(), self.current, self.total)
    }
}

/// Whether a run of `total` checks shows progress: when images are
/// checked and there is something to check.
pub fn shows_progress(options: GenerationOptions, total: usize) -> (res: bool)
    ensures
        res == (options.check_images && total > 0),
{
    options.check_images && total > 0
}

} // verus!
