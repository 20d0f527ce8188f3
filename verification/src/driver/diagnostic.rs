use crate::utils::Span;
use vstd::prelude::*;

verus! {

/// How serious a diagnostic is.
#[derive(Debug, Clone, Copy, PartialEq, Eq, PartialOrd, Ord, Structural)]
pub enum DiagnosticLevel {
    Error,
    Warning,
    Note,
    /// Internal compiler error.
    Ice,
}

impl DiagnosticLevel {
    /// The level counts as an error: `Error` or `Ice`.
    pub open spec fn is_error(self) -> bool {
        self == DiagnosticLevel::Error || self == DiagnosticLevel::Ice
    }

    /// Plain name of the level, as printed before the message.
    pub fn name(&self) -> (r: &'static str)
        ensures
            r@ == (match *self {
                DiagnosticLevel::Error => "error"@,
                DiagnosticLevel::Warning => "warning"@,
                DiagnosticLevel::Note => "note"@,
                DiagnosticLevel::Ice => "ICE"@,
            }),
    {
        match self {
            DiagnosticLevel::Error => "error",
            DiagnosticLevel::Warning => "warning",
            DiagnosticLevel::Note => "note",
            DiagnosticLevel::Ice => "ICE",
        }
    }

    /// ANSI escape sequence that colours the level on a terminal: bold red,
    /// yellow, cyan and magenta.
    pub fn color_prefix(&self) -> (r: &'static str)
        ensures
            r@ == (match *self {
                DiagnosticLevel::Error => "\x1b[31;1m"@,
                DiagnosticLevel::Warning => "\x1b[33;1m"@,
                DiagnosticLevel::Note => "\x1b[36;1m"@,
                DiagnosticLevel::Ice => "\x1b[35;1m"@,
            }),
    {
        match self {
            DiagnosticLevel::Error => "\x1b[31;1m",
            DiagnosticLevel::Warning => "\x1b[33;1m",
            DiagnosticLevel::Note => "\x1b[36;1m",
            DiagnosticLevel::Ice => "\x1b[35;1m",
        }
    }
}

/// A message about a place in the source, with hints and further labelled
/// places.
#[derive(Debug, Clone)]
pub struct Diagnostic {
    pub level: DiagnosticLevel,
    pub primary_span: Span,
    pub message: String,
    pub hints: Vec<String>,
    pub related_spans: Vec<(Span, String)>,
}

impl Diagnostic {
    /// The texts of the hints, in order.
    pub open spec fn hint_texts(&self) -> Seq<Seq<char>> {
        self.hints@.map_values(|h: String| h@)
    }

    /// The labelled places, in order.
    pub open spec fn related(&self) -> Seq<(Span, Seq<char>)> {
        self.related_spans@.map_values(|r: (Span, String)| (r.0, r.1@))
    }

    /// A diagnostic with no hints and no further places.
    pub fn new(level: DiagnosticLevel, span: Span, message: String) -> (d: Self)
        ensures
            d.level == level,
            d.primary_span == span,
            d.message@ == message@,
            d.hint_texts() == Seq::<Seq<char>>::empty(),
            d.related() == Seq::<(Span, Seq<char>)>::empty(),
    {
        let d = Diagnostic {
            level,
            primary_span: span,
            message,
            hints: Vec::new(),
            related_spans: Vec::new(),
        };
        assert(d.hint_texts() =~= Seq::<Seq<char>>::empty());
        assert(d.related() =~= Seq::<(Span, Seq<char>)>::empty());
        d
    }

    /// The same diagnostic with `hint` added after its other hints.
    pub fn with_hint(self, hint: String) -> (d: Self)
        ensures
            d.level == self.level,
            d.primary_span == self.primary_span,
            d.message@ == self.message@,
            d.hint_texts() == self.hint_texts().push(hint@),
            d.related() == self.related(),
    {
        let mut d = self;
        let ghost h = hint@;
        d.hints.push(hint);
        assert(d.hint_texts() =~= self.hint_texts().push(h));
        d
    }

    /// The same diagnostic with `label` added for `span` after its other
    /// labelled places.
    pub fn with_span_label(self, span: Span, label: String) -> (d: Self)
        ensures
            d.level == self.level,
            d.primary_span == self.primary_span,
            d.message@ == self.message@,
            d.hint_texts() == self.hint_texts(),
            d.related() == self.related().push((span, label@)),
    {
        let mut d = self;
        let ghost l = label@;
        d.related_spans.push((span, label));
        assert(d.related() =~= self.related().push((span, l)));
        d
    }
}

} // verus!
