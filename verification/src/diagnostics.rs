//! Build diagnostics: structured warning and error records, their counts,
//! and the text of the numbered build log.
use vstd::prelude::*;

use crate::chars::{
    chars_of, is_whitespace, lemma_view_all_push, lines, lines_exec, push_chars, push_repeat, push_str, repeat_char,
    string_from_chars, sub_chars, trim_end, trim_start, view_all,
};
use crate::formatting::{decimal, decimal_chars, pad_right, zero_padded3};

verus! {

/// Where the build log is written.
pub const BUILD_LOG_PATH: &'static str = "output/build.log";

/// How serious a diagnostic is.
#[derive(Clone, Copy, Debug, Eq, PartialEq, Structural)]
pub enum Severity {
    Warning,
    Error,
}

/// The label of a severity.
pub open spec fn severity_label(s: Severity) -> Seq<char> {
    match s {
        Severity::Warning => "WARNING"@,
        Severity::Error => "ERROR"@,
    }
}

impl Severity {
    /// The label of the severity, as the build log shows it.
    pub fn label(self) -> (res: &'static str)
        ensures
            res@ == severity_label(self),
    {
        match self {
            Severity::Warning => "WARNING",
            Severity::Error => "ERROR",
        }
    }
}

/// One labelled context value of a diagnostic.
#[derive(Debug)]
pub struct DiagnosticField {
    label: String,
    value: String,
}

impl DiagnosticField {
    /// The field's label and value.
    pub closed spec fn view_pair(&self) -> (Seq<char>, Seq<char>) {
        (self.label@, self.value@)
    }

    /// The field's label.
    pub fn label(&self) -> (res: &str)
        ensures
            res@ == self.view_pair().0,
    {
        self.label.as_str()
    }

    /// The field's value.
    pub fn value(&self) -> (res: &str)
        ensures
            res@ == self.view_pair().1,
    {
        self.value.as_str()
    }
}

/// The labels and values of a list of fields.
pub open spec fn fields_view(fields: Seq<DiagnosticField>) -> Seq<(Seq<char>, Seq<char>)> {
    Seq::new(fields.len(), |i: int| fields[i].view_pair())
}

pub proof fn lemma_fields_view_push(v: Seq<DiagnosticField>, x: DiagnosticField)
    ensures
        fields_view(v.push(x)) == fields_view(v).push(x.view_pair()),
        fields_view(v).len() == v.len(),
{
    assert(fields_view(v.push(x)) =~= fields_view(v).push(x.view_pair()));
}

/// What a diagnostic says.
pub struct DiagnosticView {
    pub severity: Severity,
    pub code: Seq<char>,
    pub title: Seq<char>,
    pub context: Seq<(Seq<char>, Seq<char>)>,
    pub reason: Option<Seq<char>>,
    pub suggestion: Option<Seq<char>>,
}

/// A structured warning or error.
#[derive(Debug)]
pub struct Diagnostic {
    severity: Severity,
    code: &'static str,
    title: String,
    context: Vec<DiagnosticField>,
    reason: Option<String>,
    suggestion: Option<String>,
}

pub open spec fn opt_view(o: Option<String>) -> Option<Seq<char>> {
    match o {
        Some(s) => Some(s@),
        None => None,
    }
}

impl View for Diagnostic {
    type V = DiagnosticView;

    closed spec fn view(&self) -> DiagnosticView {
        DiagnosticView {
            severity: self.severity,
            code: self.code@,
            title: self.title@,
            context: fields_view(self.context@),
            reason: opt_view(self.reason),
            suggestion: opt_view(self.suggestion),
        }
    }
}

impl Diagnostic {
    fn new(severity: Severity, code: &'static str, title: &str) -> (res: Self)
        ensures
            res@ == (DiagnosticView {
                severity,
                code: code@,
                title: title@,
                context: seq![],
                reason: None,
                suggestion: None,
            }),
    {
        let res = Diagnostic {
            severity,
            code,
            title: string_from_chars(&chars_of(title)),
            context: Vec::new(),
            reason: None,
            suggestion: None,
        };
        proof {
            assert(fields_view(res.context@) =~= Seq::<(Seq<char>, Seq<char>)>::empty());
        }
        res
    }

    /// A warning with the given code and title.
    pub fn warning(code: &'static str, title: &str) -> (res: Self)
        ensures
            res@ == (DiagnosticView {
                severity: Severity::Warning,
                code: code@,
                title: title@,
                context: seq![],
                reason: None,
                suggestion: None,
            }),
    {
        Self::new(Severity::Warning, code, title)
    }

    /// An error with the given code and title.
    pub fn error(code: &'static str, title: &str) -> (res: Self)
        ensures
            res@ == (DiagnosticView {
                severity: Severity::Error,
                code: code@,
                title: title@,
                context: seq![],
                reason: None,
                suggestion: None,
            }),
    {
        Self::new(Severity::Error, code, title)
    }

    /// The diagnostic with one more labelled context value.
    pub fn context(self, label: &str, value: &str) -> (res: Self)
        ensures
            res@ == (DiagnosticView { context: self@.context.push((label@, value@)), ..self@ }),
    {
        let mut res = self;
        let ghost before = res.context@;
        res.context.push(
            DiagnosticField {
                label: string_from_chars(&chars_of(label)),
                value: string_from_chars(&chars_of(value)),
            },
        );
        proof {
            assert(fields_view(res.context@) =~= fields_view(before).push((label@, value@)));
        }
        res
    }

    /// The diagnostic with the given reason.
    pub fn reason(self, reason: &str) -> (res: Self)
        ensures
            res@ == (DiagnosticView { reason: Some(reason@), ..self@ }),
    {
        let mut res = self;
        res.reason = Some(string_from_chars(&chars_of(reason)));
        res
    }

    /// The diagnostic with the given suggestion.
    pub fn suggestion(self, suggestion: &str) -> (res: Self)
        ensures
            res@ == (DiagnosticView { suggestion: Some(suggestion@), ..self@ }),
    {
        let mut res = self;
        res.suggestion = Some(string_from_chars(&chars_of(suggestion)));
        res
    }

    /// The severity.
    pub fn severity(&self) -> (res: Severity)
        ensures
            res == self@.severity,
    {
        self.severity
    }

    /// The code.
    pub fn code(&self) -> (res: &str)
        ensures
            res@ == self@.code,
    {
        self.code
    }

    /// The title.
    pub fn title(&self) -> (res: &str)
        ensures
            res@ == self@.title,
    {
        self.title.as_str()
    }

    /// The labelled context values, in the order they were added.
    pub fn fields(&self) -> (res: &[DiagnosticField])
        ensures
            fields_view(res@) == self@.context,
    {
        self.context.as_slice()
    }

    /// The reason, when there is one.
    pub fn reason_text(&self) -> (res: Option<&str>)
        ensures
            match res {
                Some(r) => self@.reason == Some(r@),
                None => self@.reason is None,
            },
    {
        match &self.reason {
            Some(r) => Some(r.as_str()),
            None => None,
        }
    }

    /// The suggestion, when there is one.
    pub fn suggestion_text(&self) -> (res: Option<&str>)
        ensures
            match res {
                Some(s) => self@.suggestion == Some(s@),
                None => self@.suggestion is None,
            },
    {
        match &self.suggestion {
            Some(s) => Some(s.as_str()),
            None => None,
        }
    }

    /// A copy of the diagnostic.
    pub fn duplicate(&self) -> (res: Self)
        ensures
            res@ == self@,
    {
        let mut context: Vec<DiagnosticField> = Vec::new();
        let mut i: usize = 0;
        while i < self.context.len()
            invariant
                0 <= i <= self.context@.len(),
                fields_view(context@) == fields_view(self.context@).take(i as int),
            decreases self.context@.len() - i,
        {
            let ghost before = context@;
            let field = &self.context[i];
            let copy = DiagnosticField { label: field.label.clone(), value: field.value.clone() };
            proof {
                assert(copy.view_pair() == field.view_pair());
                lemma_fields_view_push(before, copy);
                assert(fields_view(self.context@)[i as int] == field.view_pair());
            }
            context.push(copy);
            i += 1;
            proof {
                assert(fields_view(context@) =~= fields_view(self.context@).take(i as int));
            }
        }
        proof {
            assert(fields_view(self.context@).take(self.context@.len() as int) =~= fields_view(
                self.context@,
            ));
        }
        Diagnostic {
            severity: self.severity,
            code: self.code,
            title: self.title.clone(),
            context,
            reason: match &self.reason {
                Some(r) => Some(r.clone()),
                None => None,
            },
            suggestion: match &self.suggestion {
                Some(s) => Some(s.clone()),
                None => None,
            },
        }
    }
}

/// The number of warnings among the diagnostics.
pub open spec fn count_warnings(records: Seq<DiagnosticView>) -> nat
    decreases records.len(),
{
    if records.len() == 0 {
        0
    } else {
        count_warnings(records.drop_last()) + if records.last().severity == Severity::Warning {
            1nat
        } else {
            0nat
        }
    }
}

/// The views of a list of diagnostics.
pub open spec fn records_view(records: Seq<Diagnostic>) -> Seq<DiagnosticView> {
    Seq::new(records.len(), |i: int| records[i]@)
}

pub proof fn lemma_records_view_push(v: Seq<Diagnostic>, x: Diagnostic)
    ensures
        records_view(v.push(x)) == records_view(v).push(x@),
        records_view(v).len() == v.len(),
{
    assert(records_view(v.push(x)) =~= records_view(v).push(x@));
}

pub proof fn lemma_count_warnings_bound(records: Seq<DiagnosticView>)
    ensures
        count_warnings(records) <= records.len(),
    decreases records.len(),
{
    if records.len() > 0 {
        lemma_count_warnings_bound(records.drop_last());
    }
}

/// The diagnostics recorded so far, with their counts by severity.
#[derive(Debug)]
pub struct DiagnosticSnapshot {
    records: Vec<Diagnostic>,
    warnings: usize,
    errors: usize,
}

impl DiagnosticSnapshot {
    /// The counts agree with the records.
    #[verifier::type_invariant]
    pub closed spec fn counts_agree(&self) -> bool {
        &&& self.warnings == count_warnings(records_view(self.records@))
        &&& self.warnings + self.errors == self.records@.len()
    }

    /// The recorded diagnostics.
    pub closed spec fn records_spec(&self) -> Seq<DiagnosticView> {
        records_view(self.records@)
    }

    /// The snapshot of the given records.
    pub fn from_records(records: Vec<Diagnostic>) -> (res: Self)
        ensures
            res.records_spec() == records_view(records@),
    {
        let mut warnings: usize = 0;
        let mut i: usize = 0;
        while i < records.len()
            invariant
                0 <= i <= records@.len(),
                warnings == count_warnings(records_view(records@).take(i as int)),
                warnings <= i,
            decreases records@.len() - i,
        {
            proof {
                let t = records_view(records@).take(i + 1);
                assert(t.drop_last() =~= records_view(records@).take(i as int));
                assert(t.last() == records@[i as int]@);
            }
            if records[i].severity() == Severity::Warning {
                warnings += 1;
            }
            i += 1;
        }
        proof {
            assert(records_view(records@).take(records@.len() as int) =~= records_view(records@));
        }
        let errors = records.len() - warnings;
        DiagnosticSnapshot { records, warnings, errors }
    }

    /// The recorded diagnostics.
    pub fn records(&self) -> (res: &[Diagnostic])
        ensures
            records_view(res@) == self.records_spec(),
    {
        self.records.as_slice()
    }

    /// The number of warnings.
    pub fn warnings(&self) -> (res: usize)
        ensures
            res == count_warnings(self.records_spec()),
    {
        proof {
            use_type_invariant(self);
        }
        self.warnings
    }

    /// The number of errors.
    pub fn errors(&self) -> (res: usize)
        ensures
            res == self.records_spec().len() - count_warnings(self.records_spec()),
    {
        proof {
            use_type_invariant(self);
        }
        self.errors
    }

    /// Whether nothing was recorded.
    pub fn is_clean(&self) -> (res: bool)
        ensures
            res == (self.records_spec().len() == 0),
    {
        self.records.len() == 0
    }
}

impl Default for DiagnosticSnapshot {
    fn default() -> (res: Self)
        ensures
            res.records_spec() == Seq::<DiagnosticView>::empty(),
    {
        let res = DiagnosticSnapshot { records: Vec::new(), warnings: 0, errors: 0 };
        proof {
            assert(records_view(res.records@) =~= Seq::<DiagnosticView>::empty());
        }
        res
    }
}

// ---------------------------------------------------------------------------
// The text of the build log
// ---------------------------------------------------------------------------

/// The widest a log line should be.
pub const MAX_LINE_WIDTH: usize = 100;

/// The last whitespace character of `s` at or before index `k`.
pub open spec fn last_whitespace_upto(s: Seq<char>, k: int) -> Option<int>
    decreases k + 1,
{
    if k < 0 {
        None
    } else if 0 <= k < s.len() && is_whitespace(s[k]) {
        Some(k)
    } else {
        last_whitespace_upto(s, k - 1)
    }
}

/// A trimmed remainder wrapped at whitespace so that lines hold at most
/// `width` characters; a line with no whitespace among its first `width + 1`
/// characters stays whole.
pub open spec fn wrap_remainder(rem: Seq<char>, width: nat) -> Seq<Seq<char>>
    decreases rem.len(),
{
    if rem.len() <= width {
        seq![rem]
    } else {
        match last_whitespace_upto(rem, width as int) {
            None => seq![rem],
            Some(p) => {
                let next = trim_start(rem.skip(p));
                if 0 <= p && next.len() < rem.len() {
                    seq![trim_end(rem.take(p))] + wrap_remainder(next, width)
                } else {
                    seq![rem]
                }
            },
        }
    }
}

/// A line wrapped at `width` characters: the empty line stays one empty
/// line; otherwise its trailing whitespace goes and it is wrapped at the last
/// whitespace within reach, each piece without the whitespace at the break.
pub open spec fn wrapped(line: Seq<char>, width: nat) -> Seq<Seq<char>> {
    if line.len() == 0 {
        seq![seq![]]
    } else {
        wrap_remainder(trim_end(line), width)
    }
}

proof fn lemma_last_whitespace_upto(s: Seq<char>, k: int)
    ensures
        last_whitespace_upto(s, k) matches Some(p) ==> 0 <= p <= k && p < s.len() && is_whitespace(s[p]),
        last_whitespace_upto(s, k) is None ==> forall|j: int| 0 <= j <= k && j < s.len() ==> !is_whitespace(s[j]),
    decreases k + 1,
{
    if k >= 0 {
        lemma_last_whitespace_upto(s, k - 1);
    }
}

proof fn lemma_trim_start_shorter(s: Seq<char>)
    requires
        s.len() > 0,
        is_whitespace(s[0]),
    ensures
        trim_start(s).len() < s.len(),
{
    crate::chars::lemma_trim_start_suffix(s.drop_first());
}

/// Whether a piece fits in `width` characters, or is a last piece that
/// could not be broken: no whitespace among its first `width + 1`
/// characters.
pub open spec fn fits_or_unbreakable(piece: Seq<char>, width: nat, last: bool) -> bool {
    piece.len() <= width || (last && forall|j: int| 0 <= j <= width && j < piece.len() ==> !is_whitespace(
        #[trigger] piece[j],
    ))
}

proof fn lemma_trim_end_len(s: Seq<char>)
    ensures
        trim_end(s).len() <= s.len(),
    decreases s.len(),
{
    if s.len() > 0 && is_whitespace(s.last()) {
        lemma_trim_end_len(s.drop_last());
    }
}

proof fn lemma_wrap_remainder_fits(rem: Seq<char>, width: nat)
    ensures
        wrap_remainder(rem, width).len() >= 1,
        forall|i: int| 0 <= i < wrap_remainder(rem, width).len() ==> fits_or_unbreakable(
            #[trigger] wrap_remainder(rem, width)[i],
            width,
            i == wrap_remainder(rem, width).len() - 1,
        ),
    decreases rem.len(),
{
    if rem.len() > width {
        lemma_last_whitespace_upto(rem, width as int);
        match last_whitespace_upto(rem, width as int) {
            None => {},
            Some(p) => {
                let next = trim_start(rem.skip(p));
                assert(rem.skip(p)[0] == rem[p]);
                lemma_trim_start_shorter(rem.skip(p));
                assert(next.len() < rem.len());
                lemma_wrap_remainder_fits(next, width);
                lemma_trim_end_len(rem.take(p));
                let w = wrap_remainder(rem, width);
                let tail = wrap_remainder(next, width);
                assert(w =~= seq![trim_end(rem.take(p))] + tail);
                assert forall|i: int| 0 <= i < w.len() implies fits_or_unbreakable(
                    #[trigger] w[i],
                    width,
                    i == w.len() - 1,
                ) by {
                    if i > 0 {
                        assert(w[i] == tail[i - 1]);
                    }
                }
            },
        }
    }
}

/// Every piece of a wrapped line fits in the width, except a last piece
/// with no whitespace to break at within reach.
pub proof fn lemma_wrapped_fits(line: Seq<char>, width: nat)
    ensures
        wrapped(line, width).len() >= 1,
        forall|i: int| 0 <= i < wrapped(line, width).len() ==> fits_or_unbreakable(
            #[trigger] wrapped(line, width)[i],
            width,
            i == wrapped(line, width).len() - 1,
        ),
{
    if line.len() > 0 {
        lemma_wrap_remainder_fits(trim_end(line), width);
    }
}

/// Leading whitespace removed.
fn trim_start_exec(s: &[char]) -> (res: Vec<char>)
    ensures
        res@ == trim_start(s@),
{
    let mut start: usize = 0;
    while start < s.len() && crate::chars::char_is_whitespace(s[start])
        invariant
            start <= s@.len(),
            forall|k: int| 0 <= k < start ==> is_whitespace(s@[k]),
        decreases s@.len() - start,
    {
        start += 1;
    }
    proof {
        crate::chars::lemma_trim_start_is(s@, start as int);
        assert(s@.skip(start as int) =~= s@.subrange(start as int, s@.len() as int));
    }
    sub_chars(s, start, s.len())
}

/// Wraps one line of a value (see `wrapped`).
pub fn wrap_line(line: &[char], width: usize) -> (res: Vec<Vec<char>>)
    ensures
        view_all(res@) == wrapped(line@, width as nat),
{
    let mut lines: Vec<Vec<char>> = Vec::new();
    if line.len() == 0 {
        lines.push(Vec::new());
        proof {
            assert(view_all(lines@) =~= seq![Seq::<char>::empty()]);
        }
        return lines;
    }
    let mut remainder = crate::chars::trim_end_exec(line);
    proof {
        assert(view_all(lines@) + wrap_remainder(remainder@, width as nat) =~= wrap_remainder(remainder@, width as nat));
    }
    while remainder.len() > width
        invariant
            view_all(lines@) + wrap_remainder(remainder@, width as nat) == wrapped(line@, width as nat),
            line@.len() > 0,
        ensures
            view_all(lines@) + wrap_remainder(remainder@, width as nat) == wrapped(line@, width as nat),
            remainder@.len() > width ==> last_whitespace_upto(remainder@, width as int) is None,
        decreases remainder@.len(),
    {
        let mut k: usize = width + 1;
        while k > 0 && !crate::chars::char_is_whitespace(remainder[k - 1])
            invariant
                k <= width + 1,
                width < remainder@.len(),
                last_whitespace_upto(remainder@, width as int) == last_whitespace_upto(remainder@, k - 1),
            decreases k,
        {
            k -= 1;
        }
        if k == 0 {
            assert(last_whitespace_upto(remainder@, -1) is None);
            break;
        }
        let split = k - 1;
        proof {
            assert(last_whitespace_upto(remainder@, split as int) == Some(split as int));
            assert(remainder@.skip(split as int)[0] == remainder@[split as int]);
            lemma_trim_start_shorter(remainder@.skip(split as int));
        }
        let ghost before = view_all(lines@);
        let ghost rem = remainder@;
        let head = sub_chars(&remainder, 0, split);
        let piece = crate::chars::trim_end_exec(&head);
        let tail = sub_chars(&remainder, split, remainder.len());
        proof {
            lemma_view_all_push(lines@, piece);
        }
        lines.push(piece);
        remainder = trim_start_exec(&tail);
        proof {
            assert(head@ =~= rem.take(split as int));
            assert(tail@ =~= rem.skip(split as int));
            assert(view_all(lines@) =~= before.push(trim_end(rem.take(split as int))));
            assert(wrap_remainder(rem, width as nat) == seq![trim_end(rem.take(split as int))] + wrap_remainder(remainder@, width as nat));
            assert(view_all(lines@) + wrap_remainder(remainder@, width as nat) =~= before + wrap_remainder(rem, width as nat));
        }
    }
    let ghost before = view_all(lines@);
    proof {
        assert(wrap_remainder(remainder@, width as nat) == seq![remainder@]);
        lemma_view_all_push(lines@, remainder);
    }
    lines.push(remainder);
    proof {
        assert(view_all(lines@) =~= before.push(lines@.last()@));
    }
    lines
}

/// The wrapped lines of a multi-line value, line by line.
pub open spec fn wrapped_value(lines: Seq<Seq<char>>, width: nat) -> Seq<Seq<char>>
    decreases lines.len(),
{
    if lines.len() == 0 {
        seq![]
    } else {
        wrapped_value(lines.drop_last(), width) + wrapped(lines.last(), width)
    }
}

/// `w` plus `k`, or the largest `usize` when that does not fit.
pub open spec fn saturating_plus(w: usize, k: usize) -> usize {
    if w + k <= usize::MAX { (w + k) as usize } else { usize::MAX }
}

/// The width left for a field's value beside labels of the given width.
pub open spec fn value_width(label_width: usize) -> nat {
    let used = saturating_plus(label_width, 5);
    let left: int = if used <= MAX_LINE_WIDTH { MAX_LINE_WIDTH - used } else { 0 };
    if left >= 20 { left as nat } else { 20 }
}

/// The continuation lines of a field, each indented past the label.
pub open spec fn continuation_text(rest: Seq<Seq<char>>, indent: nat) -> Seq<char>
    decreases rest.len(),
{
    if rest.len() == 0 {
        seq![]
    } else {
        continuation_text(rest.drop_last(), indent) + repeat_char(' ', indent) + rest.last() + seq!['\n']
    }
}

/// The text of one field: `  label : value`, the label padded to the label
/// width and the value wrapped, its further lines indented under the first.
pub open spec fn field_text(label: Seq<char>, value: Seq<char>, label_width: usize) -> Seq<char> {
    let w = wrapped_value(lines(value), value_width(label_width));
    let first = if w.len() > 0 { w[0] } else { seq![] };
    let rest = if w.len() > 0 { w.drop_first() } else { seq![] };
    "  "@ + pad_right(label, label_width as nat) + " : "@ + first + seq!['\n'] + continuation_text(
        rest,
        saturating_plus(label_width, 5) as nat,
    )
}

/// Appends `s` padded with spaces to `width` characters.
fn push_padded(out: &mut Vec<char>, s: &[char], width: usize)
    ensures
        final(out)@ == old(out)@ + pad_right(s@, width as nat),
{
    push_chars(out, s);
    if s.len() < width {
        push_repeat(out, ' ', width - s.len());
    }
}

/// Renders one field of a log record (see `field_text`).
pub fn write_field(label: &[char], value: &[char], label_width: usize) -> (res: Vec<char>)
    ensures
        res@ == field_text(label@, value@, label_width),
{
    let used = label_width.saturating_add(5);
    let left: usize = if used <= MAX_LINE_WIDTH { MAX_LINE_WIDTH - used } else { 0 };
    let width: usize = if left >= 20 { left } else { 20 };
    let value_lines = lines_exec(value);
    let ghost vl = view_all(value_lines@);
    let mut wrapped_lines: Vec<Vec<char>> = Vec::new();
    let mut i: usize = 0;
    proof {
        assert(vl.take(0) =~= Seq::<Seq<char>>::empty());
        assert(view_all(wrapped_lines@) =~= Seq::<Seq<char>>::empty());
    }
    while i < value_lines.len()
        invariant
            0 <= i <= value_lines@.len(),
            vl == view_all(value_lines@),
            view_all(wrapped_lines@) == wrapped_value(vl.take(i as int), width as nat),
        decreases value_lines@.len() - i,
    {
        let pieces = wrap_line(&value_lines[i], width);
        let ghost before = view_all(wrapped_lines@);
        let mut j: usize = 0;
        while j < pieces.len()
            invariant
                0 <= j <= pieces@.len(),
                view_all(wrapped_lines@) == before + view_all(pieces@).take(j as int),
            decreases pieces@.len() - j,
        {
            let piece = pieces[j].clone();
            proof {
                lemma_view_all_push(wrapped_lines@, piece);
                lemma_view_all_push(pieces@, piece);
            }
            wrapped_lines.push(piece);
            j += 1;
            proof {
                assert(view_all(wrapped_lines@) =~= before + view_all(pieces@).take(j as int));
            }
        }
        proof {
            assert(view_all(pieces@).take(pieces@.len() as int) =~= view_all(pieces@));
            assert(vl.take(i + 1).drop_last() =~= vl.take(i as int));
            assert(vl.take(i + 1).last() == value_lines@[i as int]@);
        }
        i += 1;
    }
    proof {
        assert(vl.take(vl.len() as int) =~= vl);
        assert(width as nat == value_width(label_width));
    }
    let mut out: Vec<char> = Vec::new();
    push_str(&mut out, "  ");
    push_padded(&mut out, label, label_width);
    push_str(&mut out, " : ");
    if wrapped_lines.len() > 0 {
        push_chars(&mut out, &wrapped_lines[0]);
    }
    out.push('\n');
    let ghost w = view_all(wrapped_lines@);
    let ghost rest = if w.len() > 0 { w.drop_first() } else { Seq::<Seq<char>>::empty() };
    let ghost head = out@;
    let mut k: usize = 1;
    proof {
        assert(rest.take(0) =~= Seq::<Seq<char>>::empty());
        assert(out@ =~= head + continuation_text(rest.take(0), used as nat));
    }
    while k < wrapped_lines.len()
        invariant
            1 <= k,
            k <= wrapped_lines@.len() || k == 1,
            w == view_all(wrapped_lines@),
            rest == (if w.len() > 0 { w.drop_first() } else { Seq::<Seq<char>>::empty() }),
            out@ == head + continuation_text(rest.take(k - 1), used as nat),
        decreases wrapped_lines@.len() - k,
    {
        push_repeat(&mut out, ' ', used);
        push_chars(&mut out, &wrapped_lines[k]);
        out.push('\n');
        proof {
            assert(rest.take(k as int).drop_last() =~= rest.take(k - 1));
            assert(rest.take(k as int).last() == wrapped_lines@[k as int]@);
            assert(out@ =~= head + continuation_text(rest.take(k as int), used as nat));
        }
        k += 1;
    }
    proof {
        assert(w.len() == wrapped_lines@.len());
        if w.len() > 0 {
            assert(k == w.len());
            assert(rest.take(k - 1) =~= rest);
        } else {
            assert(rest.take(k - 1) =~= rest);
        }
        assert(used == saturating_plus(label_width, 5));
        reveal_strlit("  ");
        reveal_strlit(" : ");
    }
    out
}

/// The widest label of a record: `Code`, the context labels, and `Reason`
/// and `Suggestion` when present.
pub open spec fn label_width_of(d: DiagnosticView) -> nat
    decreases d.context.len(),
{
    if d.context.len() == 0 {
        let r: nat = if d.reason is Some { 6 } else { 0 };
        let s: nat = if d.suggestion is Some { 10 } else { 0 };
        let m: nat = if r >= s { r } else { s };
        if m >= 4 { m } else { 4 }
    } else {
        let rest = label_width_of(DiagnosticView { context: d.context.drop_last(), ..d });
        let l = d.context.last().0.len();
        if l >= rest { l } else { rest }
    }
}

/// The context fields' text.
pub open spec fn context_text(fields: Seq<(Seq<char>, Seq<char>)>, width: usize) -> Seq<char>
    decreases fields.len(),
{
    if fields.len() == 0 {
        seq![]
    } else {
        context_text(fields.drop_last(), width) + field_text(fields.last().0, fields.last().1, width)
    }
}

/// The text of a numbered record: a `[SEVERITY NNN] title` line, the code,
/// the context fields, the reason and the suggestion when present, each
/// label padded to the widest, and a blank line.
pub open spec fn record_text(number: nat, d: DiagnosticView) -> Seq<char> {
    let w = label_width_of(d) as usize;
    "["@ + severity_label(d.severity) + " "@ + zero_padded3(number) + "] "@ + d.title + seq!['\n']
        + field_text("Code"@, d.code, w) + context_text(d.context, w) + (match d.reason {
        Some(r) => field_text("Reason"@, r, w),
        None => seq![],
    }) + (match d.suggestion {
        Some(s) => field_text("Suggestion"@, s, w),
        None => seq![],
    }) + seq!['\n']
}

/// The digits of `number` padded to three.
fn zero_padded3_exec(number: usize) -> (res: Vec<char>)
    requires
        number <= u64::MAX,
    ensures
        res@ == zero_padded3(number as nat),
{
    let digits = decimal_chars(number as u64);
    let mut out: Vec<char> = Vec::new();
    if digits.len() < 3 {
        push_repeat(&mut out, '0', 3 - digits.len());
    }
    push_chars(&mut out, &digits);
    proof {
        if digits@.len() < 3 {
            assert(repeat_char('0', (3 - digits@.len()) as nat) =~= Seq::new((3 - digits@.len()) as nat, |i: int| '0'));
        } else {
            assert(out@ =~= digits@);
        }
    }
    out
}

/// The widest label of a record (see `label_width_of`).
fn label_width(d: &Diagnostic) -> (res: usize)
    ensures
        res as nat == label_width_of(d@),
{
    let r: usize = if d.reason.is_some() { 6 } else { 0 };
    let s: usize = if d.suggestion.is_some() { 10 } else { 0 };
    let m: usize = if r >= s { r } else { s };
    let mut width: usize = if m >= 4 { m } else { 4 };
    let mut i: usize = 0;
    let ghost fields = d@.context;
    proof {
        assert(fields.take(0) =~= Seq::<(Seq<char>, Seq<char>)>::empty());
        assert(label_width_of(DiagnosticView { context: fields.take(0), ..d@ }) == width as nat);
    }
    while i < d.context.len()
        invariant
            0 <= i <= d.context@.len(),
            fields == d@.context,
            fields.len() == d.context@.len(),
            width as nat == label_width_of(DiagnosticView { context: fields.take(i as int), ..d@ }),
        decreases d.context@.len() - i,
    {
        let l = chars_of(d.context[i].label.as_str()).len();
        proof {
            let dv = DiagnosticView { context: fields.take(i + 1), ..d@ };
            assert(dv.context.drop_last() =~= fields.take(i as int));
            assert(fields[i as int] == d.context@[i as int].view_pair());
            assert(dv.context.last() == fields[i as int]);
        }
        if l >= width {
            width = l;
        }
        i += 1;
    }
    proof {
        assert(fields.take(fields.len() as int) =~= fields);
    }
    width
}

/// Renders one numbered record of the build log (see `record_text`).
#[verifier::spinoff_prover]
#[verifier::rlimit(40)]
pub fn write_record(number: usize, diagnostic: &Diagnostic) -> (res: String)
    requires
        number <= u64::MAX,
    ensures
        res@ == record_text(number as nat, diagnostic@),
{
    let width = label_width(diagnostic);
    let mut out: Vec<char> = Vec::new();
    push_str(&mut out, "[");
    push_str(&mut out, diagnostic.severity.label());
    push_str(&mut out, " ");
    push_chars(&mut out, &zero_padded3_exec(number));
    push_str(&mut out, "] ");
    push_str(&mut out, diagnostic.title.as_str());
    out.push('\n');
    push_chars(&mut out, &write_field(&chars_of("Code"), &chars_of(diagnostic.code), width));
    let ghost head = out@;
    let ghost fields = diagnostic@.context;
    let mut i: usize = 0;
    proof {
        assert(fields.take(0) =~= Seq::<(Seq<char>, Seq<char>)>::empty());
        assert(out@ =~= head + context_text(fields.take(0), width));
    }
    while i < diagnostic.context.len()
        invariant
            0 <= i <= diagnostic.context@.len(),
            fields == diagnostic@.context,
            fields.len() == diagnostic.context@.len(),
            out@ == head + context_text(fields.take(i as int), width),
        decreases diagnostic.context@.len() - i,
    {
        let field = &diagnostic.context[i];
        let text = write_field(&chars_of(field.label.as_str()), &chars_of(field.value.as_str()), width);
        push_chars(&mut out, &text);
        proof {
            assert(fields.take(i + 1).drop_last() =~= fields.take(i as int));
            assert(fields[i as int] == field.view_pair());
            assert(fields.take(i + 1).last() == fields[i as int]);
        }
        i += 1;
    }
    proof {
        assert(fields.take(fields.len() as int) =~= fields);
    }
    match &diagnostic.reason {
        Some(reason) => push_chars(&mut out, &write_field(&chars_of("Reason"), &chars_of(reason.as_str()), width)),
        None => {},
    }
    match &diagnostic.suggestion {
        Some(suggestion) => push_chars(
            &mut out,
            &write_field(&chars_of("Suggestion"), &chars_of(suggestion.as_str()), width),
        ),
        None => {},
    }
    out.push('\n');
    proof {
        let d = diagnostic@;
        assert(width == label_width_of(d) as usize);
        assert(out@ =~= record_text(number as nat, d));
    }
    string_from_chars(&out)
}

/// The summary that ends the build log.
pub open spec fn summary_text(warnings: nat, errors: nat) -> Seq<char> {
    "Summary\n-------\nWarnings : "@ + decimal(warnings) + "\nErrors   : "@ + decimal(errors) + seq!['\n']
}

/// Renders the summary that ends the build log.
pub fn write_summary(warnings: usize, errors: usize) -> (res: String)
    requires
        warnings <= u64::MAX,
        errors <= u64::MAX,
    ensures
        res@ == summary_text(warnings as nat, errors as nat),
{
    let mut out: Vec<char> = Vec::new();
    push_str(&mut out, "Summary\n-------\nWarnings : ");
    push_chars(&mut out, &decimal_chars(warnings as u64));
    push_str(&mut out, "\nErrors   : ");
    push_chars(&mut out, &decimal_chars(errors as u64));
    out.push('\n');
    string_from_chars(&out)
}

/// The header that opens the build log.
pub open spec fn header_text(version: Seq<char>) -> Seq<char> {
    "ygo-cards build diagnostics\n===========================\nVersion: "@ + version + "\n\n"@
}

/// Renders the header that opens the build log.
pub fn write_header(version: &str) -> (res: String)
    ensures
        res@ == header_text(version@),
{
    let mut out: Vec<char> = Vec::new();
    push_str(&mut out, "ygo-cards build diagnostics\n===========================\nVersion: ");
    push_str(&mut out, version);
    push_str(&mut out, "\n\n");
    string_from_chars(&out)
}

// ---------------------------------------------------------------------------
// The build log's state
// ---------------------------------------------------------------------------

/// The build log: what has been recorded, and whether writing failed or the
/// log was finished.
pub struct BuildLog {
    path: String,
    write_error: Option<String>,
    records: Vec<Diagnostic>,
    warnings: usize,
    errors: usize,
    finished: bool,
}

/// What the build log holds.
pub struct BuildLogView {
    pub path: Seq<char>,
    pub write_error: Option<Seq<char>>,
    pub records: Seq<DiagnosticView>,
    pub finished: bool,
}

impl View for BuildLog {
    type V = BuildLogView;

    closed spec fn view(&self) -> BuildLogView {
        BuildLogView {
            path: self.path@,
            write_error: opt_view(self.write_error),
            records: records_view(self.records@),
            finished: self.finished,
        }
    }
}

impl BuildLog {
    /// The counts agree with the records.
    #[verifier::type_invariant]
    pub closed spec fn counts_agree(&self) -> bool {
        &&& self.warnings == count_warnings(records_view(self.records@))
        &&& self.warnings + self.errors == self.records@.len()
    }

    /// The number of recorded diagnostics.
    pub fn record_count(&self) -> (res: usize)
        ensures
            res == self@.records.len(),
    {
        self.records.len()
    }

    /// Notes that writing to the log failed; later records are kept but no
    /// longer written.
    pub fn note_write_error(&mut self, error: &str)
        ensures
            final(self)@ == (BuildLogView { write_error: Some(error@), ..old(self)@ }),
    {
        proof {
            use_type_invariant(&*self);
        }
        self.write_error = Some(string_from_chars(&chars_of(error)));
    }

    /// `Ok` unless writing failed, with the message naming the log's path.
    pub fn check_write_error(&self) -> (res: Result<(), String>)
        ensures
            match res {
                Ok(()) => self@.write_error is None,
                Err(message) => self@.write_error matches Some(e) && message@
                    == "failed to write build log "@ + self@.path + ": "@ + e,
            },
    {
        match &self.write_error {
            None => Ok(()),
            Some(error) => {
                let mut out: Vec<char> = Vec::new();
                push_str(&mut out, "failed to write build log ");
                push_str(&mut out, self.path.as_str());
                push_str(&mut out, ": ");
                push_str(&mut out, error.as_str());
                Err(string_from_chars(&out))
            },
        }
    }
}

/// A new, empty build log at the given path.
pub fn init(path: &str) -> (res: BuildLog)
    ensures
        res@ == (BuildLogView { path: path@, write_error: None, records: seq![], finished: false }),
{
    let res = BuildLog {
        path: string_from_chars(&chars_of(path)),
        write_error: None,
        records: Vec::new(),
        warnings: 0,
        errors: 0,
        finished: false,
    };
    proof {
        assert(records_view(res.records@) =~= Seq::<DiagnosticView>::empty());
    }
    res
}

/// Records a diagnostic. A finished log records nothing. Returns the text
/// of the numbered record when it is to be written, that is when no write
/// has failed.
pub fn record(log: &mut BuildLog, diagnostic: Diagnostic) -> (res: Option<String>)
    requires
        old(log)@.records.len() < usize::MAX,
    ensures
        old(log)@.finished ==> final(log)@ == old(log)@ && res is None,
        !old(log)@.finished ==> final(log)@ == (BuildLogView {
            records: old(log)@.records.push(diagnostic@),
            ..old(log)@
        }) && match res {
            Some(text) => old(log)@.write_error is None && text@ == record_text(
                final(log)@.records.len() as nat,
                diagnostic@,
            ),
            None => old(log)@.write_error is Some,
        },
{
    proof {
        use_type_invariant(&*log);
        lemma_count_warnings_bound(records_view(log.records@));
    }
    if log.finished {
        return None;
    }
    let mut taken = init("");
    std::mem::swap(&mut taken, log);
    proof {
        use_type_invariant(&taken);
        assert(taken.warnings + taken.errors < usize::MAX);
    }
    let BuildLog { path, write_error, mut records, warnings, errors, finished } = taken;
    let ghost before = records_view(records@);
    let severity = diagnostic.severity;
    proof {
        lemma_records_view_push(records@, diagnostic);
    }
    records.push(diagnostic);
    let (warnings, errors) = match severity {
        Severity::Warning => (warnings + 1, errors),
        Severity::Error => (warnings, errors + 1),
    };
    proof {
        assert(records_view(records@).drop_last() =~= before);
    }
    let number = records.len();
    let text = if write_error.is_none() {
        Some(write_record(number, &records[number - 1]))
    } else {
        None
    };
    *log = BuildLog { path, write_error, records, warnings, errors, finished: false };
    text
}

/// The diagnostics recorded so far.
pub fn snapshot(log: &BuildLog) -> (res: DiagnosticSnapshot)
    ensures
        res.records_spec() == log@.records,
{
    let mut records: Vec<Diagnostic> = Vec::new();
    let mut i: usize = 0;
    while i < log.records.len()
        invariant
            0 <= i <= log.records@.len(),
            records_view(records@) == records_view(log.records@).take(i as int),
        decreases log.records@.len() - i,
    {
        let copy = log.records[i].duplicate();
        proof {
            lemma_records_view_push(records@, copy);
            lemma_records_view_push(log.records@.take(i as int), log.records@[i as int]);
            assert(records_view(log.records@)[i as int] == log.records@[i as int]@);
        }
        records.push(copy);
        i += 1;
        proof {
            assert(records_view(records@) =~= records_view(log.records@).take(i as int));
        }
    }
    proof {
        assert(records_view(log.records@).take(log.records@.len() as int) =~= records_view(log.records@));
    }
    DiagnosticSnapshot::from_records(records)
}

/// The text that closes the log: a note when nothing was recorded, then the
/// summary of the counts.
pub open spec fn closing_text(records: Seq<DiagnosticView>) -> Seq<char> {
    let summary = summary_text(count_warnings(records), (records.len() - count_warnings(records)) as nat);
    if records.len() == 0 {
        "No warnings or errors were recorded.\n\n"@ + summary
    } else {
        summary
    }
}

/// Finishes the log: the first call marks it finished and returns the
/// closing text to write, unless a write has failed; later calls return
/// nothing.
pub fn finish(log: &mut BuildLog) -> (res: Option<String>)
    ensures
        final(log)@ == (BuildLogView { finished: true, ..old(log)@ }),
        match res {
            Some(text) => !old(log)@.finished && old(log)@.write_error is None && text@ == closing_text(
                old(log)@.records,
            ),
            None => old(log)@.finished || old(log)@.write_error is Some,
        },
{
    proof {
        use_type_invariant(&*log);
        lemma_count_warnings_bound(records_view(log.records@));
    }
    if log.finished {
        return None;
    }
    log.finished = true;
    if log.write_error.is_some() {
        return None;
    }
    let summary = write_summary(log.warnings, log.errors);
    if log.records.len() == 0 {
        let mut out: Vec<char> = Vec::new();
        push_str(&mut out, "No warnings or errors were recorded.\n\n");
        push_str(&mut out, summary.as_str());
        Some(string_from_chars(&out))
    } else {
        Some(summary)
    }
}

} // verus!
