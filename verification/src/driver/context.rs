use super::config::{CompileOptions, TargetMachine};
use super::diagnostic::{Diagnostic, DiagnosticLevel};
use crate::parser::ast::NodeId;
use crate::sema::scope::{ScopeId, SymbolInfo, SymbolTable};
use crate::sema::ty::{num_reserved, TypeRegistry};
use crate::utils::{symbol_text, Interner, Span, StringMap, SymbolId};
use vstd::prelude::*;

verus! {

/// Number of diagnostics in `ds` that count as errors.
pub open spec fn error_total(ds: Seq<Diagnostic>) -> nat
    decreases ds.len(),
{
    if ds.len() == 0 {
        0
    } else {
        error_total(ds.drop_last()) + if ds.last().level.is_error() {
            1nat
        } else {
            0nat
        }
    }
}

/// No more errors are counted than there are diagnostics, and some are
/// counted exactly when some diagnostic is an error.
pub proof fn lemma_error_total(ds: Seq<Diagnostic>)
    ensures
        error_total(ds) <= ds.len(),
        error_total(ds) > 0 <==> exists|i: int| 0 <= i < ds.len() && (#[trigger] ds[i]).level.is_error(),
    decreases ds.len(),
{
    if ds.len() > 0 {
        let prefix = ds.drop_last();
        lemma_error_total(prefix);
        if error_total(prefix) > 0 {
            let i = choose|i: int| 0 <= i < prefix.len() && (#[trigger] prefix[i]).level.is_error();
            assert(ds[i] == prefix[i]);
        }
        if exists|i: int| 0 <= i < ds.len() && (#[trigger] ds[i]).level.is_error() {
            let i = choose|i: int| 0 <= i < ds.len() && (#[trigger] ds[i]).level.is_error();
            if i < ds.len() - 1 {
                assert(prefix[i] == ds[i]);
            }
        }
    }
}

/// Errors are never forgotten: recording another diagnostic keeps every
/// error counted, so a context that has errors keeps having them.
pub proof fn law_errors_are_kept(ds: Seq<Diagnostic>, d: Diagnostic)
    ensures
        error_total(ds.push(d)) >= error_total(ds),
        error_total(ds) > 0 ==> error_total(ds.push(d)) > 0,
        d.level.is_error() ==> error_total(ds.push(d)) > 0,
{
    lemma_error_total_push(ds, d);
}

/// Appending `d` adds one to the count exactly when `d` is an error.
proof fn lemma_error_total_push(ds: Seq<Diagnostic>, d: Diagnostic)
    ensures
        error_total(ds.push(d)) == error_total(ds) + if d.level.is_error() {
            1nat
        } else {
            0nat
        },
{
    assert(ds.push(d).drop_last() =~= ds);
}

/// The state shared by all phases of a compilation: interned strings,
/// diagnostics, types, scopes and the options that apply.
pub struct Context {
    pub interner: Interner,
    pub diagnostics: Vec<Diagnostic>,
    /// Number of diagnostics that are errors or internal errors.
    pub error_count: usize,
    pub type_registry: TypeRegistry,
    pub scopes: SymbolTable,
    pub target: TargetMachine,
    pub custom_defines: StringMap,
    pub module_aliases: StringMap,
    pub next_node_id: u32,
    /// Diagnostics are printed with colours.
    pub use_color: bool,
}

/// `after` is `before` with one more diagnostic of the given level, place,
/// message, hints and labelled places, and nothing else changed but the
/// error count, which follows the diagnostics.
pub open spec fn diagnostic_added(
    before: Context,
    after: Context,
    level: DiagnosticLevel,
    span: Span,
    message: Seq<char>,
    hints: Seq<Seq<char>>,
    related: Seq<(Span, Seq<char>)>,
) -> bool {
    let n = before.diagnostics@.len();
    &&& after.diagnostics@.len() == n + 1
    &&& after.diagnostics@.take(n as int) == before.diagnostics@
    &&& after.diagnostics@[n as int].level == level
    &&& after.diagnostics@[n as int].primary_span == span
    &&& after.diagnostics@[n as int].message@ == message
    &&& after.diagnostics@[n as int].hint_texts() == hints
    &&& after.diagnostics@[n as int].related() == related
    &&& after.error_count == before.error_count + if level.is_error() {
        1int
    } else {
        0int
    }
    &&& after.interner == before.interner
    &&& after.type_registry == before.type_registry
    &&& after.scopes == before.scopes
    &&& after.target == before.target
    &&& after.custom_defines == before.custom_defines
    &&& after.module_aliases == before.module_aliases
    &&& after.next_node_id == before.next_node_id
    &&& after.use_color == before.use_color
}

impl Context {
    /// The error count matches the diagnostics, and every part keeps its
    /// own invariant.
    pub open spec fn wf(&self) -> bool {
        &&& self.error_count == error_total(self.diagnostics@)
        &&& self.interner.wf()
        &&& self.type_registry.wf()
        &&& self.scopes.wf()
        &&& self.custom_defines.wf()
        &&& self.module_aliases.wf()
    }

    /// A fresh context for the host machine; `use_color` says whether
    /// diagnostics go to a terminal.
    pub fn new(use_color: bool) -> (c: Self)
        ensures
            c.wf(),
            c.diagnostics@.len() == 0,
            c.error_count == 0,
            c.interner@.len() == 0,
            c.type_registry@.len() == num_reserved(),
            c.scopes.scopes().len() == 1,
            c.scopes.scopes()[0].parent is None,
            c.scopes.scopes()[0].symbols == Map::<u32, SymbolInfo>::empty(),
            c.scopes.current() == Some(ScopeId(0)),
            c.target.pointer_size == 2 || c.target.pointer_size == 4 || c.target.pointer_size == 8,
            c.custom_defines.to_map() == Map::<Seq<char>, Seq<char>>::empty(),
            c.module_aliases.to_map() == Map::<Seq<char>, Seq<char>>::empty(),
            c.next_node_id == 0,
            c.use_color == use_color,
    {
        Context {
            interner: Interner::new(),
            diagnostics: Vec::new(),
            error_count: 0,
            type_registry: TypeRegistry::new(),
            scopes: SymbolTable::new(),
            target: TargetMachine::default(),
            custom_defines: StringMap::new(),
            module_aliases: StringMap::new(),
            next_node_id: 0,
            use_color,
        }
    }

    /// Take the target, the defines and the module aliases from `options`.
    pub fn apply_options(&mut self, options: &CompileOptions)
        requires
            old(self).wf(),
            options.wf(),
        ensures
            final(self).wf(),
            final(self).target.triple@ == options.target.triple@,
            final(self).target.arch@ == options.target.arch@,
            final(self).target.os@ == options.target.os@,
            final(self).target.pointer_size == options.target.pointer_size,
            final(self).custom_defines.to_map() == options.custom_defines.to_map(),
            final(self).module_aliases.to_map() == options.module_aliases.to_map(),
            final(self).interner == old(self).interner,
            final(self).diagnostics == old(self).diagnostics,
            final(self).error_count == old(self).error_count,
            final(self).type_registry == old(self).type_registry,
            final(self).scopes == old(self).scopes,
            final(self).next_node_id == old(self).next_node_id,
            final(self).use_color == old(self).use_color,
    {
        self.target = options.target.duplicate();
        self.custom_defines = options.custom_defines.duplicate();
        self.module_aliases = options.module_aliases.duplicate();
    }

    /// A new node identifier, one past the last one handed out.
    pub fn next_node_id(&mut self) -> (id: NodeId)
        requires
            old(self).next_node_id < u32::MAX,
        ensures
            id.0 == old(self).next_node_id,
            final(self).next_node_id == old(self).next_node_id + 1,
            final(self).interner == old(self).interner,
            final(self).diagnostics == old(self).diagnostics,
            final(self).error_count == old(self).error_count,
            final(self).type_registry == old(self).type_registry,
            final(self).scopes == old(self).scopes,
            final(self).target == old(self).target,
            final(self).custom_defines == old(self).custom_defines,
            final(self).module_aliases == old(self).module_aliases,
            final(self).use_color == old(self).use_color,
    {
        let id = self.next_node_id;
        self.next_node_id = self.next_node_id + 1;
        NodeId(id)
    }

    /// Record a diagnostic without hints.
    pub fn report(&mut self, span: Span, level: DiagnosticLevel, msg: String)
        requires
            old(self).wf(),
            old(self).diagnostics@.len() < usize::MAX,
        ensures
            final(self).wf(),
            diagnostic_added(
                *old(self),
                *final(self),
                level,
                span,
                msg@,
                Seq::empty(),
                Seq::empty(),
            ),
    {
        self.record(Diagnostic::new(level, span, msg));
    }

    /// Append `d`, counting it if it is an error.
    fn record(&mut self, d: Diagnostic)
        requires
            old(self).wf(),
            old(self).diagnostics@.len() < usize::MAX,
        ensures
            final(self).wf(),
            diagnostic_added(
                *old(self),
                *final(self),
                d.level,
                d.primary_span,
                d.message@,
                d.hint_texts(),
                d.related(),
            ),
    {
        proof {
            lemma_error_total(self.diagnostics@);
            lemma_error_total_push(self.diagnostics@, d);
        }
        if d.level == DiagnosticLevel::Error || d.level == DiagnosticLevel::Ice {
            self.error_count = self.error_count + 1;
        }
        let ghost before = self.diagnostics@;
        self.diagnostics.push(d);
        assert(self.diagnostics@.take(before.len() as int) =~= before);
    }

    /// Record a warning.
    pub fn emit_warning(&mut self, span: Span, msg: String)
        requires
            old(self).wf(),
            old(self).diagnostics@.len() < usize::MAX,
        ensures
            final(self).wf(),
            diagnostic_added(
                *old(self),
                *final(self),
                DiagnosticLevel::Warning,
                span,
                msg@,
                Seq::empty(),
                Seq::empty(),
            ),
    {
        self.report(span, DiagnosticLevel::Warning, msg);
    }

    /// Some recorded diagnostic is an error or an internal error.
    pub fn has_errors(&self) -> (b: bool)
        requires
            self.wf(),
        ensures
            b <==> exists|i: int|
                0 <= i < self.diagnostics@.len() && (#[trigger] self.diagnostics@[i]).level.is_error(),
    {
        proof {
            lemma_error_total(self.diagnostics@);
        }
        self.error_count > 0
    }

    /// The symbol of `string`, interning it first if it is new.
    pub fn intern(&mut self, string: &str) -> (id: SymbolId)
        requires
            old(self).wf(),
            old(self).interner@.len() < u32::MAX,
        ensures
            final(self).wf(),
            id.0 < final(self).interner@.len(),
            final(self).interner@[id.0 as int] == string@,
            match old(self).interner.index_of(string@) {
                Some(i) => id.0 == i && final(self).interner@ == old(self).interner@,
                None => id.0 == old(self).interner@.len() && final(self).interner@
                    == old(self).interner@.push(string@),
            },
            final(self).diagnostics == old(self).diagnostics,
            final(self).error_count == old(self).error_count,
            final(self).type_registry == old(self).type_registry,
            final(self).scopes == old(self).scopes,
            final(self).target == old(self).target,
            final(self).custom_defines == old(self).custom_defines,
            final(self).module_aliases == old(self).module_aliases,
            final(self).next_node_id == old(self).next_node_id,
            final(self).use_color == old(self).use_color,
    {
        self.interner.intern(string)
    }

    /// The text of `sym`, or `<unknown>` for a symbol that was never
    /// interned.
    pub fn resolve(&self, sym: SymbolId) -> (r: &str)
        ensures
            r@ == symbol_text(self.interner@, sym),
    {
        match self.interner.resolve(sym) {
            Some(t) => t,
            None => "<unknown>",
        }
    }

    /// Start an error diagnostic at `span`.
    pub fn struct_error(&self, span: Span, msg: String) -> (b: DiagnosticBuilder)
        ensures
            b.pending().level == DiagnosticLevel::Error,
            b.pending().primary_span == span,
            b.pending().message@ == msg@,
            b.pending().hint_texts() == Seq::<Seq<char>>::empty(),
            b.pending().related() == Seq::<(Span, Seq<char>)>::empty(),
    {
        DiagnosticBuilder::new(DiagnosticLevel::Error, span, msg)
    }

    /// Start a warning diagnostic at `span`.
    pub fn struct_warning(&self, span: Span, msg: String) -> (b: DiagnosticBuilder)
        ensures
            b.pending().level == DiagnosticLevel::Warning,
            b.pending().primary_span == span,
            b.pending().message@ == msg@,
            b.pending().hint_texts() == Seq::<Seq<char>>::empty(),
            b.pending().related() == Seq::<(Span, Seq<char>)>::empty(),
    {
        DiagnosticBuilder::new(DiagnosticLevel::Warning, span, msg)
    }

    /// Record an error.
    pub fn emit_error(&mut self, span: Span, msg: String)
        requires
            old(self).wf(),
            old(self).diagnostics@.len() < usize::MAX,
        ensures
            final(self).wf(),
            diagnostic_added(
                *old(self),
                *final(self),
                DiagnosticLevel::Error,
                span,
                msg@,
                Seq::empty(),
                Seq::empty(),
            ),
    {
        let b = self.struct_error(span, msg);
        b.emit(self);
    }

    /// Record an internal compiler error with a hint to report it. The
    /// compilation cannot go on after it: the caller prints the diagnostic
    /// and stops the process.
    pub fn emit_ice(&mut self, span: Span, msg: String)
        requires
            old(self).wf(),
            old(self).diagnostics@.len() < usize::MAX,
        ensures
            final(self).wf(),
            diagnostic_added(
                *old(self),
                *final(self),
                DiagnosticLevel::Ice,
                span,
                msg@,
                seq!["This is a bug in the Kern compiler. Please report it!"@],
                Seq::empty(),
            ),
    {
        let b = DiagnosticBuilder::new(DiagnosticLevel::Ice, span, msg).with_hint(
            "This is a bug in the Kern compiler. Please report it!".to_owned(),
        );
        b.emit(self);
    }
}

/// Where the underline of a source snippet starts and how long it is: the
/// column (counted from 1) less one, and the span's length cut to what is
/// left of the line from there, but at least one caret.
pub fn underline_extent(text_len: usize, col: usize, span: Span) -> (r: (usize, usize))
    ensures
        r.0 == if col >= 1 { col - 1 } else { 0 },
        ({
            let raw = if span.end >= span.start { span.end - span.start } else { 0 };
            let room = if text_len >= r.0 { text_len - r.0 } else { 0 };
            let cut = if raw <= room { raw } else { room };
            r.1 == if cut >= 1 { cut } else { 1 }
        }),
{
    let col_offset = col.saturating_sub(1);
    let max_possible = text_len.saturating_sub(col_offset);
    let raw = span.end.saturating_sub(span.start);
    let cut = if raw <= max_possible { raw } else { max_possible };
    let len = if cut >= 1 { cut } else { 1 };
    (col_offset, len)
}

/// A diagnostic being put together; it takes effect when emitted into a
/// [`Context`].
pub struct DiagnosticBuilder {
    diag: Diagnostic,
}

impl DiagnosticBuilder {
    /// The diagnostic as built so far.
    pub closed spec fn pending(&self) -> Diagnostic {
        self.diag
    }

    pub fn new(level: DiagnosticLevel, span: Span, msg: String) -> (b: Self)
        ensures
            b.pending().level == level,
            b.pending().primary_span == span,
            b.pending().message@ == msg@,
            b.pending().hint_texts() == Seq::<Seq<char>>::empty(),
            b.pending().related() == Seq::<(Span, Seq<char>)>::empty(),
    {
        DiagnosticBuilder { diag: Diagnostic::new(level, span, msg) }
    }

    /// Add a hint after the others.
    pub fn with_hint(self, hint: String) -> (b: Self)
        ensures
            b.pending().level == self.pending().level,
            b.pending().primary_span == self.pending().primary_span,
            b.pending().message@ == self.pending().message@,
            b.pending().hint_texts() == self.pending().hint_texts().push(hint@),
            b.pending().related() == self.pending().related(),
    {
        DiagnosticBuilder { diag: self.diag.with_hint(hint) }
    }

    /// Add a labelled place after the others.
    pub fn with_span_label(self, span: Span, label: String) -> (b: Self)
        ensures
            b.pending().level == self.pending().level,
            b.pending().primary_span == self.pending().primary_span,
            b.pending().message@ == self.pending().message@,
            b.pending().hint_texts() == self.pending().hint_texts(),
            b.pending().related() == self.pending().related().push((span, label@)),
    {
        DiagnosticBuilder { diag: self.diag.with_span_label(span, label) }
    }

    /// Record the diagnostic in `ctx`, counting it if it is an error. The
    /// result says whether it is an internal compiler error, after which
    /// the caller prints it and stops the process.
    pub fn emit(self, ctx: &mut Context) -> (is_ice: bool)
        requires
            old(ctx).wf(),
            old(ctx).diagnostics@.len() < usize::MAX,
        ensures
            final(ctx).wf(),
            diagnostic_added(
                *old(ctx),
                *final(ctx),
                self.pending().level,
                self.pending().primary_span,
                self.pending().message@,
                self.pending().hint_texts(),
                self.pending().related(),
            ),
            is_ice == (self.pending().level == DiagnosticLevel::Ice),
    {
        let is_ice = self.diag.level == DiagnosticLevel::Ice;
        ctx.record(self.diag);
        is_ice
    }
}

} // verus!
