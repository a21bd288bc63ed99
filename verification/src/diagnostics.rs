//! Diagnostic types for error reporting.

use vstd::prelude::*;
use crate::span::{Position, Span};

verus! {

/// Severity level of a diagnostic.
#[derive(Debug, Clone, Copy, PartialEq, Eq, Structural)]
pub enum DiagnosticSeverity {
    Error,
    Warning,
    Info,
    Hint,
}

/// A diagnostic message with source location.
#[derive(Debug)]
pub struct Diagnostic {
    /// Severity of the diagnostic
    pub severity: DiagnosticSeverity,
    /// Error code (e.g., "E001")
    pub code: String,
    /// Human-readable message
    pub message: String,
    /// Source file path
    pub file: String,
    /// Source span
    pub span: Span,
    /// Optional context (source line)
    pub context: Option<String>,
    /// Optional help text
    pub help: Option<String>,
}

/// A copy of an optional string.
pub fn clone_opt_string(o: &Option<String>) -> (r: Option<String>)
    ensures
        r == *o,
{
    match o {
        Some(s) => Some(s.clone()),
        None => None,
    }
}

impl Clone for Diagnostic {
    fn clone(&self) -> (r: Self)
        ensures
            r == *self,
    {
        Diagnostic {
            severity: self.severity,
            code: self.code.clone(),
            message: self.message.clone(),
            file: self.file.clone(),
            span: self.span,
            context: clone_opt_string(&self.context),
            help: clone_opt_string(&self.help),
        }
    }
}

impl Diagnostic {
    /// Start building an error diagnostic.
    pub fn error(code: &str, message: &str) -> (b: DiagnosticBuilder)
        ensures
            builder_view(b) == fresh_builder(DiagnosticSeverity::Error, code@, message@),
            b.severity == DiagnosticSeverity::Error,
            b.code@ == code@,
            b.message@ == message@,
            b.file is None,
            b.span is None,
            b.context is None,
            b.help is None,
    {
        DiagnosticBuilder::new(DiagnosticSeverity::Error, String::from_str(code), String::from_str(message))
    }

    /// Start building a warning diagnostic.
    pub fn warning(code: &str, message: &str) -> (b: DiagnosticBuilder)
        ensures
            builder_view(b) == fresh_builder(DiagnosticSeverity::Warning, code@, message@),
            b.severity == DiagnosticSeverity::Warning,
            b.code@ == code@,
            b.message@ == message@,
            b.file is None,
            b.span is None,
            b.context is None,
            b.help is None,
    {
        DiagnosticBuilder::new(DiagnosticSeverity::Warning, String::from_str(code), String::from_str(message))
    }
}

/// Builder for constructing diagnostics.
pub struct DiagnosticBuilder {
    pub severity: DiagnosticSeverity,
    pub code: String,
    pub message: String,
    pub file: Option<String>,
    pub span: Option<Span>,
    pub context: Option<String>,
    pub help: Option<String>,
}

/// The span at line 0, column 0, offset 0 that stands for "no location".
pub open spec fn zero_span() -> Span {
    Span {
        start: Position { line: 0, column: 0, offset: 0 },
        end: Position { line: 0, column: 0, offset: 0 },
    }
}

impl DiagnosticBuilder {
    pub fn new(severity: DiagnosticSeverity, code: String, message: String) -> (b: Self)
        ensures
            builder_view(b) == fresh_builder(severity, code@, message@),
            b.severity == severity,
            b.code == code,
            b.message == message,
            b.file is None,
            b.span is None,
            b.context is None,
            b.help is None,
    {
        DiagnosticBuilder { severity, code, message, file: None, span: None, context: None, help: None }
    }

    pub fn with_file(self, file: &str) -> (b: Self)
        ensures
            builder_view(b) == after_step(builder_view(self), BuilderStep::File(file@)),
            b == (DiagnosticBuilder { file: b.file, ..self }),
            b.file is Some && b.file.unwrap()@ == file@,
    {
        let mut s = self;
        s.file = Some(String::from_str(file));
        s
    }

    pub fn with_span(self, span: Span) -> (b: Self)
        ensures
            builder_view(b) == after_step(builder_view(self), BuilderStep::At(span)),
            b == (DiagnosticBuilder { span: Some(span), ..self }),
    {
        let mut s = self;
        s.span = Some(span);
        s
    }

    pub fn with_context(self, context: &str) -> (b: Self)
        ensures
            builder_view(b) == after_step(builder_view(self), BuilderStep::Context(context@)),
            b == (DiagnosticBuilder { context: b.context, ..self }),
            b.context is Some && b.context.unwrap()@ == context@,
    {
        let mut s = self;
        s.context = Some(String::from_str(context));
        s
    }

    pub fn with_help(self, help: &str) -> (b: Self)
        ensures
            builder_view(b) == after_step(builder_view(self), BuilderStep::Help(help@)),
            b == (DiagnosticBuilder { help: b.help, ..self }),
            b.help is Some && b.help.unwrap()@ == help@,
    {
        let mut s = self;
        s.help = Some(String::from_str(help));
        s
    }

    /// Finish the diagnostic; a missing file becomes the empty string and a
    /// missing span the zero span.
    pub fn build(self) -> (d: Diagnostic)
        ensures
            diagnostic_view(d) == built_view(builder_view(self)),
            d.severity == self.severity,
            d.code == self.code,
            d.message == self.message,
            d.file@ == (match self.file { Some(f) => f@, None => Seq::<char>::empty() }),
            self.file is Some ==> d.file == self.file.unwrap(),
            d.span == (match self.span { Some(s) => s, None => zero_span() }),
            d.context == self.context,
            d.help == self.help,
    {
        let file = match self.file {
            Some(f) => f,
            None => String::new(),
        };
        let span = match self.span {
            Some(s) => s,
            None => Span::default(),
        };
        Diagnostic {
            severity: self.severity,
            code: self.code,
            message: self.message,
            file,
            span,
            context: self.context,
            help: self.help,
        }
    }
}

/// An optional string as an optional sequence of characters.
pub open spec fn opt_text(o: Option<String>) -> Option<Seq<char>> {
    match o {
        Some(s) => Some(s@),
        None => None,
    }
}

/// A diagnostic builder as plain values.
pub struct BuilderView {
    pub severity: DiagnosticSeverity,
    pub code: Seq<char>,
    pub message: Seq<char>,
    pub file: Option<Seq<char>>,
    pub span: Option<Span>,
    pub context: Option<Seq<char>>,
    pub help: Option<Seq<char>>,
}

/// The builder `b` as plain values.
pub open spec fn builder_view(b: DiagnosticBuilder) -> BuilderView {
    BuilderView {
        severity: b.severity,
        code: b.code@,
        message: b.message@,
        file: opt_text(b.file),
        span: b.span,
        context: opt_text(b.context),
        help: opt_text(b.help),
    }
}

/// A builder that has nothing but a severity, a code and a message.
pub open spec fn fresh_builder(severity: DiagnosticSeverity, code: Seq<char>, message: Seq<char>) -> BuilderView {
    BuilderView { severity, code, message, file: None, span: None, context: None, help: None }
}

/// One `with_*` call on a builder: `with_file`, `with_span`,
/// `with_context` or `with_help`.
pub enum BuilderStep {
    File(Seq<char>),
    At(Span),
    Context(Seq<char>),
    Help(Seq<char>),
}

/// The builder `v` after the step `s`.
pub open spec fn after_step(v: BuilderView, s: BuilderStep) -> BuilderView {
    match s {
        BuilderStep::File(f) => BuilderView { file: Some(f), ..v },
        BuilderStep::At(sp) => BuilderView { span: Some(sp), ..v },
        BuilderStep::Context(c) => BuilderView { context: Some(c), ..v },
        BuilderStep::Help(h) => BuilderView { help: Some(h), ..v },
    }
}

/// The builder `v` after the steps `steps`, in order.
pub open spec fn after_steps(v: BuilderView, steps: Seq<BuilderStep>) -> BuilderView
    decreases steps.len(),
{
    if steps.len() == 0 {
        v
    } else {
        after_step(after_steps(v, steps.drop_last()), steps.last())
    }
}

/// A diagnostic as plain values: severity, code, message, file, span,
/// context and help.
pub open spec fn diagnostic_view(d: Diagnostic) -> (DiagnosticSeverity, Seq<char>, Seq<char>, Seq<char>, Span, Option<Seq<char>>, Option<Seq<char>>) {
    (d.severity, d.code@, d.message@, d.file@, d.span, opt_text(d.context), opt_text(d.help))
}

/// The diagnostic that the builder `v` builds: a missing file is the empty
/// string and a missing span the zero span.
pub open spec fn built_view(v: BuilderView) -> (DiagnosticSeverity, Seq<char>, Seq<char>, Seq<char>, Span, Option<Seq<char>>, Option<Seq<char>>) {
    (
        v.severity,
        v.code,
        v.message,
        match v.file {
            Some(f) => f,
            None => Seq::empty(),
        },
        match v.span {
            Some(s) => s,
            None => zero_span(),
        },
        v.context,
        v.help,
    )
}

/// `Diagnostic::error(code, message)` starts from the same builder as
/// `DiagnosticBuilder::new(DiagnosticSeverity::Error, code, message)`, so
/// the same chain of `with_*` calls builds the same diagnostic from both;
/// it is an error with that code and message whatever the chain.
pub proof fn law_error_builds_errors(code: Seq<char>, message: Seq<char>, steps: Seq<BuilderStep>)
    ensures
        built_view(after_steps(fresh_builder(DiagnosticSeverity::Error, code, message), steps)).0 == DiagnosticSeverity::Error,
        built_view(after_steps(fresh_builder(DiagnosticSeverity::Error, code, message), steps)).1 == code,
        built_view(after_steps(fresh_builder(DiagnosticSeverity::Error, code, message), steps)).2 == message,
    decreases steps.len(),
{
    if steps.len() > 0 {
        law_error_builds_errors(code, message, steps.drop_last());
    }
}

/// The diagnostics of `s` that have severity `sev`, in order.
pub open spec fn of_severity(s: Seq<Diagnostic>, sev: DiagnosticSeverity) -> Seq<Diagnostic>
    decreases s.len(),
{
    if s.len() == 0 {
        Seq::empty()
    } else if s.last().severity == sev {
        of_severity(s.drop_last(), sev).push(s.last())
    } else {
        of_severity(s.drop_last(), sev)
    }
}

/// Whether some diagnostic of `s` has severity `sev`.
pub open spec fn has_severity(s: Seq<Diagnostic>, sev: DiagnosticSeverity) -> bool {
    exists|i: int| 0 <= i < s.len() && #[trigger] s[i].severity == sev
}

/// Collection of diagnostics.
#[derive(Debug)]
pub struct Diagnostics {
    diagnostics: Vec<Diagnostic>,
}

impl View for Diagnostics {
    type V = Seq<Diagnostic>;

    closed spec fn view(&self) -> Seq<Diagnostic> {
        self.diagnostics@
    }
}

impl Clone for Diagnostics {
    fn clone(&self) -> (r: Self)
        ensures
            r@ == self@,
    {
        let mut v: Vec<Diagnostic> = Vec::new();
        let mut i: usize = 0;
        while i < self.diagnostics.len()
            invariant
                i <= self.diagnostics@.len(),
                v@ == self.diagnostics@.take(i as int),
            decreases self.diagnostics@.len() - i,
        {
            v.push(self.diagnostics[i].clone());
            i = i + 1;
            assert(v@ =~= self.diagnostics@.take(i as int));
        }
        assert(self.diagnostics@.take(i as int) =~= self.diagnostics@);
        Diagnostics { diagnostics: v }
    }
}

proof fn lemma_of_severity_len(s: Seq<Diagnostic>, sev: DiagnosticSeverity)
    ensures
        of_severity(s, sev).len() <= s.len(),
        forall|i: int| 0 <= i < of_severity(s, sev).len() ==> #[trigger] of_severity(s, sev)[i].severity == sev,
        (of_severity(s, sev).len() > 0) == has_severity(s, sev),
    decreases s.len(),
{
    if s.len() > 0 {
        lemma_of_severity_len(s.drop_last(), sev);
        if has_severity(s.drop_last(), sev) {
            let i = choose|i: int| 0 <= i < s.drop_last().len() && #[trigger] s.drop_last()[i].severity == sev;
            assert(s[i].severity == sev);
        }
        if has_severity(s, sev) && s.last().severity != sev {
            let i = choose|i: int| 0 <= i < s.len() && #[trigger] s[i].severity == sev;
            assert(s.drop_last()[i].severity == sev);
        }
    }
}

/// Walks `v` from the front and collects the diagnostics of severity `sev`.
fn collect_severity(v: &Vec<Diagnostic>, sev: DiagnosticSeverity) -> (r: Vec<Diagnostic>)
    ensures
        r@ == of_severity(v@, sev),
{
    let mut out: Vec<Diagnostic> = Vec::new();
    let mut i: usize = 0;
    while i < v.len()
        invariant
            i <= v@.len(),
            out@ == of_severity(v@.take(i as int), sev),
        decreases v@.len() - i,
    {
        assert(v@.take(i + 1).drop_last() =~= v@.take(i as int));
        if v[i].severity == sev {
            out.push(v[i].clone());
        }
        i = i + 1;
    }
    assert(v@.take(i as int) =~= v@);
    out
}

impl Diagnostics {
    pub fn new() -> (d: Self)
        ensures
            d@ == Seq::<Diagnostic>::empty(),
    {
        Diagnostics { diagnostics: Vec::new() }
    }

    pub fn push(&mut self, diagnostic: Diagnostic)
        ensures
            final(self)@ == old(self)@.push(diagnostic),
    {
        self.diagnostics.push(diagnostic);
    }

    pub fn extend(&mut self, other: Diagnostics)
        ensures
            final(self)@ == old(self)@ + other@,
    {
        let mut other = other;
        self.diagnostics.append(&mut other.diagnostics);
    }

    pub fn is_empty(&self) -> (b: bool)
        ensures
            b == (self@.len() == 0),
    {
        self.diagnostics.len() == 0
    }

    pub fn len(&self) -> (n: usize)
        ensures
            n == self@.len(),
    {
        self.diagnostics.len()
    }

    pub fn has_errors(&self) -> (b: bool)
        ensures
            b == has_severity(self@, DiagnosticSeverity::Error),
    {
        let mut i: usize = 0;
        while i < self.diagnostics.len()
            invariant
                i <= self.diagnostics@.len(),
                forall|j: int| 0 <= j < i ==> #[trigger] self.diagnostics@[j].severity != DiagnosticSeverity::Error,
            decreases self.diagnostics@.len() - i,
        {
            if self.diagnostics[i].severity == DiagnosticSeverity::Error {
                return true;
            }
            i = i + 1;
        }
        false
    }

    /// The error diagnostics, in order.
    pub fn errors(&self) -> (r: Vec<Diagnostic>)
        ensures
            r@ == of_severity(self@, DiagnosticSeverity::Error),
    {
        collect_severity(&self.diagnostics, DiagnosticSeverity::Error)
    }

    /// The warning diagnostics, in order.
    pub fn warnings(&self) -> (r: Vec<Diagnostic>)
        ensures
            r@ == of_severity(self@, DiagnosticSeverity::Warning),
    {
        collect_severity(&self.diagnostics, DiagnosticSeverity::Warning)
    }

    /// All diagnostics, in the order in which they were pushed.
    pub fn as_slice(&self) -> (r: &[Diagnostic])
        ensures
            r@ == self@,
    {
        self.diagnostics.as_slice()
    }

    /// An iterator over the diagnostics, in the order in which they were pushed.
    pub fn iter(&self) -> (r: std::slice::Iter<'_, Diagnostic>)
        ensures
            vstd::std_specs::slice::into_iter_elts(r) == self@,
    {
        let r = self.diagnostics.as_slice().iter();
        proof {
            broadcast use vstd::std_specs::slice::axiom_spec_slice_iter;
            assert(vstd::std_specs::iter::IteratorSpec::remaining(&r).unref() =~= self@);
        }
        r
    }

    pub fn into_vec(self) -> (r: Vec<Diagnostic>)
        ensures
            r@ == self@,
    {
        self.diagnostics
    }
}

/// Summary counts of a diagnostics report.
#[derive(Debug)]
pub struct DiagnosticsSummary {
    pub total_errors: usize,
    pub total_warnings: usize,
}

/// JSON output format for diagnostics.
#[derive(Debug)]
pub struct DiagnosticsOutput {
    pub version: String,
    pub status: String,
    pub errors: Vec<Diagnostic>,
    pub warnings: Vec<Diagnostic>,
    pub summary: DiagnosticsSummary,
}

impl DiagnosticsOutput {
    pub fn from_diagnostics(diagnostics: &Diagnostics) -> (o: Self)
        ensures
            o.version@ == "1.0"@,
            o.status@ == (if has_severity(diagnostics@, DiagnosticSeverity::Error) { "error"@ } else { "ok"@ }),
            o.errors@ == of_severity(diagnostics@, DiagnosticSeverity::Error),
            o.warnings@ == of_severity(diagnostics@, DiagnosticSeverity::Warning),
            o.summary.total_errors == o.errors@.len(),
            o.summary.total_warnings == o.warnings@.len(),
    {
        let errors = diagnostics.errors();
        let warnings = diagnostics.warnings();
        proof {
            lemma_of_severity_len(diagnostics@, DiagnosticSeverity::Error);
        }
        let status = if errors.len() == 0 { String::from_str("ok") } else { String::from_str("error") };
        let total_errors = errors.len();
        let total_warnings = warnings.len();
        DiagnosticsOutput {
            version: String::from_str("1.0"),
            status,
            summary: DiagnosticsSummary { total_errors, total_warnings },
            errors,
            warnings,
        }
    }
}

/// Every diagnostic that `errors` reports is an error, every one that
/// `warnings` reports a warning, neither reports more than there are, and
/// `has_errors` holds exactly when `errors` reports something.
pub proof fn law_error_filter(d: Seq<Diagnostic>)
    ensures
        forall|i: int| 0 <= i < of_severity(d, DiagnosticSeverity::Error).len()
            ==> #[trigger] of_severity(d, DiagnosticSeverity::Error)[i].severity == DiagnosticSeverity::Error,
        forall|i: int| 0 <= i < of_severity(d, DiagnosticSeverity::Warning).len()
            ==> #[trigger] of_severity(d, DiagnosticSeverity::Warning)[i].severity == DiagnosticSeverity::Warning,
        of_severity(d, DiagnosticSeverity::Error).len() + of_severity(d, DiagnosticSeverity::Warning).len() <= d.len(),
        has_severity(d, DiagnosticSeverity::Error) == (of_severity(d, DiagnosticSeverity::Error).len() > 0),
    decreases d.len(),
{
    lemma_of_severity_len(d, DiagnosticSeverity::Error);
    lemma_of_severity_len(d, DiagnosticSeverity::Warning);
    if d.len() > 0 {
        law_error_filter(d.drop_last());
    }
}

/// The diagnostics of a severity are exactly those of `d` that have it, in
/// their order: what `Seq::filter` keeps of `d` for that severity.
pub proof fn law_severity_filter(d: Seq<Diagnostic>, sev: DiagnosticSeverity)
    ensures
        of_severity(d, sev) == d.filter(|x: Diagnostic| x.severity == sev),
    decreases d.len(),
{
    reveal(Seq::filter);
    if d.len() > 0 {
        law_severity_filter(d.drop_last(), sev);
    }
}

/// Extending a collection with another keeps the errors of both, in order.
pub proof fn law_extend_errors(a: Seq<Diagnostic>, b: Seq<Diagnostic>)
    ensures
        of_severity(a + b, DiagnosticSeverity::Error)
            == of_severity(a, DiagnosticSeverity::Error) + of_severity(b, DiagnosticSeverity::Error),
    decreases b.len(),
{
    if b.len() == 0 {
        assert(a + b =~= a);
        assert(of_severity(a, DiagnosticSeverity::Error) + of_severity(b, DiagnosticSeverity::Error)
            =~= of_severity(a, DiagnosticSeverity::Error));
    } else {
        assert((a + b).drop_last() =~= a + b.drop_last());
        law_extend_errors(a, b.drop_last());
        assert((a + b).last() == b.last());
        if b.last().severity == DiagnosticSeverity::Error {
            assert(of_severity(a, DiagnosticSeverity::Error) + of_severity(b.drop_last(), DiagnosticSeverity::Error).push(b.last())
                =~= (of_severity(a, DiagnosticSeverity::Error) + of_severity(b.drop_last(), DiagnosticSeverity::Error)).push(b.last()));
        }
    }
}

} // verus!
