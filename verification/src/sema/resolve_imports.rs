use crate::driver::context::{diagnostic_added, Context};
use crate::driver::diagnostic::{Diagnostic, DiagnosticLevel};
use crate::parser::ast::{UseMember, UsePathKind, UseTarget};
use crate::sema::resolve_path::{
    alias_params, def_module, import_reported, import_target, is_module_def, links_fit, module_scope,
    not_module_message, resolve_import_path, DefLink, ImportTarget,
};
use crate::sema::scope::{defined_in, ScopeId, ScopeView, SymbolInfo, SymbolKind};
use crate::sema::ty::DefId;
use crate::utils::{concat3, symbol_text, Span, SymbolId};
use vstd::prelude::*;

verus! {

// Declaring imported names.

pub open spec fn imported_twice_message(name: Seq<char>) -> Seq<char> {
    "the name `"@ + name + "` is defined multiple times"@
}

pub open spec fn imported_twice_hint(name: Seq<char>) -> Seq<char> {
    "`"@ + name + "` was already imported or defined in this module"@
}

/// Whether declaring `info` where `old` is declared is an error worth
/// reporting: errors are wanted, the two come from different places, and
/// they are not the same definition of the same kind.
pub open spec fn import_conflict(old: SymbolInfo, info: SymbolInfo, span: Span, emit_errors: bool) -> bool {
    emit_errors && old.span != span && !(old.def_id == info.def_id && old.kind == info.kind)
}

/// Declare the imported `name` in `target_scope` as `info`, public where it
/// is re-exported and placed at `span`. A name the scope declares already
/// keeps its declaration; where errors are wanted, a conflicting import is
/// reported. The current scope is left as it was (if there was one).
pub fn define_import(
    ctx: &mut Context,
    target_scope: ScopeId,
    name: SymbolId,
    info: SymbolInfo,
    is_reexport: bool,
    span: Span,
    emit_errors: bool,
)
    requires
        old(ctx).wf(),
        old(ctx).scopes.has_scope(target_scope),
        old(ctx).diagnostics@.len() < usize::MAX,
    ensures
        final(ctx).wf(),
        ({
            let declared = SymbolInfo { is_pub: is_reexport, span, ..info };
            let syms = old(ctx).scopes.scopes()[target_scope.0 as int].symbols;
            let text = symbol_text(old(ctx).interner@, name);
            &&& final(ctx).scopes.current() == match old(ctx).scopes.current() {
                Some(p) => Some(p),
                None => Some(target_scope),
            }
            &&& if !syms.contains_key(name.0) {
                &&& final(ctx).scopes.scopes() == defined_in(
                    old(ctx).scopes.scopes(),
                    target_scope,
                    name.0,
                    declared,
                )
                &&& final(ctx).diagnostics == old(ctx).diagnostics
                &&& final(ctx).error_count == old(ctx).error_count
            } else {
                &&& final(ctx).scopes.scopes() == old(ctx).scopes.scopes()
                &&& if import_conflict(syms[name.0], declared, span, emit_errors) {
                    let n = old(ctx).diagnostics@.len();
                    &&& final(ctx).diagnostics@.len() == n + 1
                    &&& final(ctx).diagnostics@.take(n as int) == old(ctx).diagnostics@
                    &&& final(ctx).diagnostics@[n as int].level == DiagnosticLevel::Error
                    &&& final(ctx).diagnostics@[n as int].primary_span == span
                    &&& final(ctx).diagnostics@[n as int].message@ == imported_twice_message(text)
                    &&& final(ctx).diagnostics@[n as int].hint_texts() == seq![imported_twice_hint(text)]
                    &&& final(ctx).diagnostics@[n as int].related() == seq![
                        (syms[name.0].span, "previous definition was here"@),
                    ]
                    &&& final(ctx).error_count == old(ctx).error_count + 1
                } else {
                    final(ctx).diagnostics == old(ctx).diagnostics && final(ctx).error_count
                        == old(ctx).error_count
                }
            }
        }),
        final(ctx).interner == old(ctx).interner,
        final(ctx).type_registry == old(ctx).type_registry,
        final(ctx).target == old(ctx).target,
        final(ctx).custom_defines == old(ctx).custom_defines,
        final(ctx).module_aliases == old(ctx).module_aliases,
        final(ctx).next_node_id == old(ctx).next_node_id,
        final(ctx).use_color == old(ctx).use_color,
{
    let declared = SymbolInfo { is_pub: is_reexport, span, ..info };
    let prev_scope = ctx.scopes.current_scope_id();
    proof {
        ctx.scopes.lemma_current_valid();
    }
    ctx.scopes.set_current_scope(target_scope);
    match ctx.scopes.define(name, declared) {
        Ok(()) => {},
        Err(old_info) => {
            if emit_errors && !(old_info.span == span) {
                if old_info.def_id == declared.def_id && old_info.kind == declared.kind {
                } else {
                    let name_str = ctx.resolve(name);
                    let msg = concat3("the name `", name_str, "` is defined multiple times");
                    let hint = concat3("`", name_str, "` was already imported or defined in this module");
                    let b = ctx.struct_error(span, msg).with_hint(hint).with_span_label(
                        old_info.span,
                        "previous definition was here".to_owned(),
                    );
                    proof {
                        let text = symbol_text(ctx.interner@, name);
                        assert(Seq::<Seq<char>>::empty().push(imported_twice_hint(text)) =~= seq![
                            imported_twice_hint(text),
                        ]);
                        assert(Seq::<(Span, Seq<char>)>::empty().push((old_info.span, "previous definition was here"@))
                            =~= seq![(old_info.span, "previous definition was here"@)]);
                    }
                    let _ = b.emit(ctx);
                }
            }
        },
    }
    match prev_scope {
        Some(prev) => {
            ctx.scopes.set_current_scope(prev);
        },
        None => {},
    }
}

/// An item's own visibility as an import sees it: modules and `impl`
/// blocks are public.
pub open spec fn def_is_pub(defs: Seq<DefLink>, d: DefId) -> bool {
    match defs[d.0 as int] {
        DefLink::Module { .. } => true,
        DefLink::Impl => true,
        DefLink::Item { is_pub } => is_pub,
        DefLink::Function { is_pub, .. } => is_pub,
        DefLink::TypeAlias { is_pub, .. } => is_pub,
        DefLink::Struct { is_pub, .. } => is_pub,
        DefLink::Union { is_pub, .. } => is_pub,
        DefLink::Enum { is_pub, .. } => is_pub,
        DefLink::Adt { is_pub, .. } => is_pub,
    }
}

/// A symbol of module `target` may be imported into module `current`: the
/// module imports from itself, the symbol has no definition, or its
/// definition is public.
pub open spec fn visible(defs: Seq<DefLink>, def_id: Option<DefId>, current: DefId, target: DefId) -> bool {
    current == target || match def_id {
        None => true,
        Some(d) => def_is_pub(defs, d),
    }
}

/// May a symbol with definition `def_id`, declared in module `target_mod`,
/// be imported into module `current_mod`?
pub fn check_visibility(defs: &Vec<DefLink>, def_id: Option<DefId>, current_mod: DefId, target_mod: DefId) -> (r: bool)
    requires
        current_mod != target_mod ==> (def_id matches Some(d) ==> d.0 < defs@.len()),
    ensures
        r == visible(defs@, def_id, current_mod, target_mod),
{
    if current_mod == target_mod {
        return true;
    }
    let d = match def_id {
        Some(id) => id,
        None => return true,
    };
    match &defs[d.0 as usize] {
        DefLink::Module { .. } => true,
        DefLink::Impl => true,
        DefLink::Item { is_pub } => *is_pub,
        DefLink::Function { is_pub, .. } => *is_pub,
        DefLink::TypeAlias { is_pub, .. } => *is_pub,
        DefLink::Struct { is_pub, .. } => *is_pub,
        DefLink::Union { is_pub, .. } => *is_pub,
        DefLink::Enum { is_pub, .. } => *is_pub,
        DefLink::Adt { is_pub, .. } => *is_pub,
    }
}

/// A diagnostic as seen from outside: level, place, message, hints and
/// labelled places.
pub struct DiagView {
    pub level: DiagnosticLevel,
    pub span: Span,
    pub message: Seq<char>,
    pub hints: Seq<Seq<char>>,
    pub related: Seq<(Span, Seq<char>)>,
}

pub open spec fn diag_view(d: Diagnostic) -> DiagView {
    DiagView {
        level: d.level,
        span: d.primary_span,
        message: d.message@,
        hints: d.hint_texts(),
        related: d.related(),
    }
}

pub open spec fn diag_views(ds: Seq<Diagnostic>) -> Seq<DiagView> {
    ds.map_values(|d: Diagnostic| diag_view(d))
}

/// An error with no hints and no further places.
pub open spec fn plain_error(span: Span, message: Seq<char>) -> DiagView {
    DiagView { level: DiagnosticLevel::Error, span, message, hints: Seq::empty(), related: Seq::empty() }
}

/// What importing has built so far: the scopes, the diagnostics, the
/// current scope, and whether every name was imported.
pub struct ImportState {
    pub scopes: Seq<ScopeView>,
    pub diags: Seq<DiagView>,
    pub current: Option<ScopeId>,
    pub ok: bool,
}

/// Declaring the imported `name` in scope `into` as `info`, as
/// [`define_import`] does.
pub open spec fn bind_step(
    st: ImportState,
    names: Seq<Seq<char>>,
    into: ScopeId,
    name: SymbolId,
    info: SymbolInfo,
    is_reexport: bool,
    span: Span,
    emit_errors: bool,
) -> ImportState {
    let declared = SymbolInfo { is_pub: is_reexport, span, ..info };
    let syms = st.scopes[into.0 as int].symbols;
    let current = match st.current {
        Some(p) => Some(p),
        None => Some(into),
    };
    let text = symbol_text(names, name);
    if !syms.contains_key(name.0) {
        ImportState { scopes: defined_in(st.scopes, into, name.0, declared), current, ..st }
    } else if import_conflict(syms[name.0], declared, span, emit_errors) {
        ImportState {
            diags: st.diags.push(
                DiagView {
                    level: DiagnosticLevel::Error,
                    span,
                    message: imported_twice_message(text),
                    hints: seq![imported_twice_hint(text)],
                    related: seq![(syms[name.0].span, "previous definition was here"@)],
                },
            ),
            current,
            ..st
        }
    } else {
        ImportState { current, ..st }
    }
}

pub open spec fn private_message(name: Seq<char>, member: bool) -> Seq<char> {
    if member {
        "Symbol `"@ + name + "` is private and cannot be imported"@
    } else {
        "Symbol `"@ + name + "` is private"@
    }
}

pub open spec fn unknown_message(name: Seq<char>, member: bool) -> Seq<char> {
    if member {
        "Cannot find `"@ + name + "` in the target module"@
    } else {
        "Cannot find module or symbol `"@ + name + "`"@
    }
}

/// Importing `name` (bound as `alias`, if given) from the scope `from` of
/// module `target_mod` into the scope `into` of module `current_mod`.
pub open spec fn import_step(
    st: ImportState,
    defs: Seq<DefLink>,
    names: Seq<Seq<char>>,
    current_mod: DefId,
    into: ScopeId,
    target_mod: DefId,
    from: ScopeId,
    name: SymbolId,
    alias: Option<SymbolId>,
    span: Span,
    is_reexport: bool,
    emit_errors: bool,
    member: bool,
) -> ImportState {
    let syms = st.scopes[from.0 as int].symbols;
    let text = symbol_text(names, name);
    if syms.contains_key(name.0) {
        let info = syms[name.0];
        if !visible(defs, info.def_id, current_mod, target_mod) {
            ImportState {
                diags: if emit_errors {
                    st.diags.push(plain_error(span, private_message(text, member)))
                } else {
                    st.diags
                },
                ok: false,
                ..st
            }
        } else {
            let bound = match alias {
                Some(a) => a,
                None => name,
            };
            bind_step(st, names, into, bound, info, is_reexport, span, emit_errors)
        }
    } else {
        ImportState {
            diags: if emit_errors {
                st.diags.push(plain_error(span, unknown_message(text, member)))
            } else {
                st.diags
            },
            ok: false,
            ..st
        }
    }
}

/// Whether earlier names were all imported does not change what importing
/// one more does, but for the flag.
proof fn lemma_import_step_flag(
    st: ImportState,
    defs: Seq<DefLink>,
    names: Seq<Seq<char>>,
    current_mod: DefId,
    into: ScopeId,
    target_mod: DefId,
    from: ScopeId,
    name: SymbolId,
    alias: Option<SymbolId>,
    span: Span,
    is_reexport: bool,
    emit_errors: bool,
    member: bool,
)
    ensures
        ({
            let fresh = import_step(ImportState { ok: true, ..st }, defs, names, current_mod, into, target_mod, from, name, alias, span, is_reexport, emit_errors, member);
            import_step(st, defs, names, current_mod, into, target_mod, from, name, alias, span, is_reexport, emit_errors, member)
                == ImportState { ok: st.ok && fresh.ok, ..fresh }
        }),
{
}

/// Importing the members `ms` one after the other.
pub open spec fn members_run(
    st: ImportState,
    defs: Seq<DefLink>,
    names: Seq<Seq<char>>,
    current_mod: DefId,
    into: ScopeId,
    target_mod: DefId,
    from: ScopeId,
    ms: Seq<UseMember>,
    is_reexport: bool,
    emit_errors: bool,
) -> ImportState
    decreases ms.len(),
{
    if ms.len() == 0 {
        st
    } else {
        let prev = members_run(st, defs, names, current_mod, into, target_mod, from, ms.drop_last(), is_reexport, emit_errors);
        let m = ms.last();
        import_step(prev, defs, names, current_mod, into, target_mod, from, m.name, m.alias, m.span, is_reexport, emit_errors, true)
    }
}

/// The context as an import state.
pub open spec fn state_of(ctx: Context, ok: bool) -> ImportState {
    ImportState { scopes: ctx.scopes.scopes(), diags: diag_views(ctx.diagnostics@), current: ctx.scopes.current(), ok }
}

/// Only the scopes, the diagnostics and the current scope may differ.
pub open spec fn imports_kept(before: Context, after: Context) -> bool {
    &&& after.interner == before.interner
    &&& after.type_registry == before.type_registry
    &&& after.target == before.target
    &&& after.custom_defines == before.custom_defines
    &&& after.module_aliases == before.module_aliases
    &&& after.next_node_id == before.next_node_id
    &&& after.use_color == before.use_color
}

/// A `use` declaration as the import pass reads it.
pub struct ImportDef {
    pub path_kind: UsePathKind,
    /// The module path; for a `use` of one module or symbol its last
    /// segment is that name.
    pub path: Vec<SymbolId>,
    pub target: UseTarget,
    pub span: Span,
    /// `pub use`: the imported names are public again.
    pub is_reexport: bool,
}

/// Every symbol's definition is one of `defs`.
pub open spec fn defs_bounded(scopes: Seq<ScopeView>, defs: Seq<DefLink>) -> bool {
    forall|i: int, k: u32|
        0 <= i < scopes.len() && #[trigger] scopes[i].symbols.contains_key(k) ==> (scopes[i].symbols[k].def_id
            matches Some(d) ==> d.0 < defs.len())
}

/// A definition copied from one symbol to a new name keeps every
/// definition one of `defs`.
proof fn lemma_defs_bounded_define(scopes: Seq<ScopeView>, defs: Seq<DefLink>, into: ScopeId, name: u32, info: SymbolInfo)
    requires
        defs_bounded(scopes, defs),
        into.0 < scopes.len(),
        info.def_id matches Some(d) ==> d.0 < defs.len(),
    ensures
        defs_bounded(defined_in(scopes, into, name, info), defs),
{
    let s2 = defined_in(scopes, into, name, info);
    assert forall|i: int, k: u32| 0 <= i < s2.len() && #[trigger] s2[i].symbols.contains_key(k) implies (
    s2[i].symbols[k].def_id matches Some(d) ==> d.0 < defs.len()) by {
        if i != into.0 || k != name {
            assert(scopes[i].symbols.contains_key(k));
        }
    }
}

/// Declaring a copy of a symbol of the scopes, under any name and with
/// any visibility and place, keeps every symbol fitting the definitions.
proof fn lemma_links_fit_define(
    scopes: Seq<ScopeView>,
    defs: Seq<DefLink>,
    types: nat,
    into: ScopeId,
    name: u32,
    from: int,
    key: u32,
    is_pub: bool,
    span: Span,
)
    requires
        links_fit(scopes, defs, types),
        into.0 < scopes.len(),
        0 <= from < scopes.len(),
        scopes[from].symbols.contains_key(key),
    ensures
        links_fit(
            defined_in(scopes, into, name, SymbolInfo { is_pub, span, ..scopes[from].symbols[key] }),
            defs,
            types,
        ),
{
    let info = SymbolInfo { is_pub, span, ..scopes[from].symbols[key] };
    let s2 = defined_in(scopes, into, name, info);
    assert(scopes[from].symbols.contains_key(key));
    assert forall|i: int, k: u32| 0 <= i < s2.len() && #[trigger] s2[i].symbols.contains_key(k) implies {
        let sym = s2[i].symbols[k];
        &&& sym.type_id.0 < types
        &&& (sym.def_id matches Some(d) ==> d.0 < defs.len())
        &&& (sym.kind == SymbolKind::Module ==> (module_scope(defs, sym) matches Some(s) && s.0 < s2.len()))
        &&& (sym.kind == SymbolKind::Struct || sym.kind == SymbolKind::Union || sym.kind == SymbolKind::Enum
            || sym.kind == SymbolKind::Adt || sym.kind == SymbolKind::Trait ==> sym.def_id is Some)
        &&& (sym.kind == SymbolKind::TypeAlias ==> alias_params(defs, sym) is Some)
    } by {
        if i != into.0 || k != name {
            assert(scopes[i].symbols.contains_key(k));
        }
    }
}

/// One more diagnostic at the end shows as one more view at the end.
proof fn lemma_diag_views_push(before: Seq<Diagnostic>, after: Seq<Diagnostic>)
    requires
        after.len() == before.len() + 1,
        after.take(before.len() as int) == before,
    ensures
        diag_views(after) == diag_views(before).push(diag_view(after[before.len() as int])),
{
    assert forall|j: int| 0 <= j < before.len() implies after[j] == before[j] by {
        assert(after.take(before.len() as int)[j] == after[j]);
    }
    assert(diag_views(after) =~= diag_views(before).push(diag_view(after[before.len() as int])));
}

/// Import `name`, bound as `alias` where one is given, from the scope
/// `from` of module `target_mod` into the scope `into` of module
/// `current_mod`, as [`import_step`] says; the result says whether it was
/// imported.
pub fn import_one(
    ctx: &mut Context,
    defs: &Vec<DefLink>,
    current_mod: DefId,
    into: ScopeId,
    target_mod: DefId,
    from: ScopeId,
    name: SymbolId,
    alias: Option<SymbolId>,
    span: Span,
    is_reexport: bool,
    emit_errors: bool,
    member: bool,
) -> (r: bool)
    requires
        old(ctx).wf(),
        old(ctx).scopes.has_scope(into),
        old(ctx).scopes.has_scope(from),
        defs_bounded(old(ctx).scopes.scopes(), defs@),
        old(ctx).diagnostics@.len() < usize::MAX,
    ensures
        final(ctx).wf(),
        imports_kept(*old(ctx), *final(ctx)),
        final(ctx).scopes.scopes().len() == old(ctx).scopes.scopes().len(),
        links_fit(old(ctx).scopes.scopes(), defs@, old(ctx).type_registry@.len()) ==> links_fit(
            final(ctx).scopes.scopes(),
            defs@,
            final(ctx).type_registry@.len(),
        ),
        final(ctx).diagnostics@.len() <= old(ctx).diagnostics@.len() + 1,
        !emit_errors ==> final(ctx).diagnostics@.len() == old(ctx).diagnostics@.len(),
        defs_bounded(final(ctx).scopes.scopes(), defs@),
        state_of(*final(ctx), r) == import_step(
            state_of(*old(ctx), true),
            defs@,
            old(ctx).interner@,
            current_mod,
            into,
            target_mod,
            from,
            name,
            alias,
            span,
            is_reexport,
            emit_errors,
            member,
        ),
{
    let ghost names = ctx.interner@;
    let found: Option<SymbolInfo> = match ctx.scopes.resolve_in(from, name) {
        Some(s) => Some(*s),
        None => None,
    };
    match found {
        Some(info) => {
            proof {
                assert(ctx.scopes.scopes()[from.0 as int].symbols.contains_key(name.0));
            }
            if !check_visibility(defs, info.def_id, current_mod, target_mod) {
                if emit_errors {
                    let msg = if member {
                        concat3("Symbol `", ctx.resolve(name), "` is private and cannot be imported")
                    } else {
                        concat3("Symbol `", ctx.resolve(name), "` is private")
                    };
                    proof {
                        reveal_strlit("Symbol `");
                        reveal_strlit("` is private and cannot be imported");
                        reveal_strlit("` is private");
                    }
                    ctx.emit_error(span, msg);
                    proof {
                        lemma_diag_views_push(old(ctx).diagnostics@, ctx.diagnostics@);
                    }
                }
                proof {
                    assert(state_of(*ctx, false) =~= import_step(
                        state_of(*old(ctx), true), defs@, names, current_mod, into, target_mod, from, name,
                        alias, span, is_reexport, emit_errors, member));
                }
                return false;
            }
            let bound = match alias {
                Some(a) => a,
                None => name,
            };
            define_import(ctx, into, bound, info, is_reexport, span, emit_errors);
            proof {
                let syms = old(ctx).scopes.scopes()[into.0 as int].symbols;
                let declared = SymbolInfo { is_pub: is_reexport, span, ..info };
                if !syms.contains_key(bound.0) {
                    lemma_defs_bounded_define(old(ctx).scopes.scopes(), defs@, into, bound.0, declared);
                    if links_fit(old(ctx).scopes.scopes(), defs@, old(ctx).type_registry@.len()) {
                        lemma_links_fit_define(old(ctx).scopes.scopes(), defs@, old(ctx).type_registry@.len(),
                            into, bound.0, from.0 as int, name.0, is_reexport, span);
                    }
                }
                if syms.contains_key(bound.0) && import_conflict(syms[bound.0], declared, span, emit_errors) {
                    lemma_diag_views_push(old(ctx).diagnostics@, ctx.diagnostics@);
                    assert(diag_view(ctx.diagnostics@[old(ctx).diagnostics@.len() as int]) =~= DiagView {
                        level: DiagnosticLevel::Error,
                        span,
                        message: imported_twice_message(symbol_text(names, bound)),
                        hints: seq![imported_twice_hint(symbol_text(names, bound))],
                        related: seq![(syms[bound.0].span, "previous definition was here"@)],
                    });
                }
                assert(state_of(*ctx, true) =~= import_step(
                    state_of(*old(ctx), true), defs@, names, current_mod, into, target_mod, from, name,
                    alias, span, is_reexport, emit_errors, member));
            }
            true
        },
        None => {
            if emit_errors {
                let msg = if member {
                    concat3("Cannot find `", ctx.resolve(name), "` in the target module")
                } else {
                    concat3("Cannot find module or symbol `", ctx.resolve(name), "`")
                };
                proof {
                    reveal_strlit("Cannot find `");
                    reveal_strlit("` in the target module");
                    reveal_strlit("Cannot find module or symbol `");
                    reveal_strlit("`");
                }
                ctx.emit_error(span, msg);
                proof {
                    lemma_diag_views_push(old(ctx).diagnostics@, ctx.diagnostics@);
                }
            }
            proof {
                assert(state_of(*ctx, false) =~= import_step(
                    state_of(*old(ctx), true), defs@, names, current_mod, into, target_mod, from, name,
                    alias, span, is_reexport, emit_errors, member));
            }
            false
        },
    }
}

/// What resolving the `use` declaration `imp` in module `current_mod` does,
/// from `before` to `after`, with the result `r`: the module path is
/// resolved (all of it for a list of members, all but the last segment
/// for one name), and each name is then imported into the module's scope
/// as [`import_step`] says; a path that does not resolve is reported as
/// [`import_reported`] says.
pub open spec fn single_import_outcome(
    before: Context,
    after: Context,
    defs: Seq<DefLink>,
    current_mod: DefId,
    imp: ImportDef,
    emit_errors: bool,
    r: bool,
) -> bool {
    let names = before.interner@;
    let into = def_module(defs, current_mod).unwrap().0;
    let path = match imp.target {
        UseTarget::Module(_) => imp.path@.drop_last(),
        UseTarget::Members(_) => imp.path@,
    };
    let t = import_target(before.scopes.scopes(), defs, names, current_mod, imp.path_kind, path);
    match t {
        ImportTarget::Module(tm, ts) => {
            let st0 = state_of(before, true);
            let st = match imp.target {
                UseTarget::Module(alias) => import_step(
                    st0,
                    defs,
                    names,
                    current_mod,
                    into,
                    tm,
                    ts,
                    imp.path@.last(),
                    alias,
                    imp.span,
                    imp.is_reexport,
                    emit_errors,
                    false,
                ),
                UseTarget::Members(ms) => members_run(
                    st0,
                    defs,
                    names,
                    current_mod,
                    into,
                    tm,
                    ts,
                    ms@,
                    imp.is_reexport,
                    emit_errors,
                ),
            };
            state_of(after, r) == st && imports_kept(before, after)
        },
        _ => !r && if emit_errors {
            import_reported(before, after, names, path, t, imp.span)
        } else {
            after == before
        },
    }
}

/// The diagnostic that reports why an import path does not resolve.
pub open spec fn failure_view(names: Seq<Seq<char>>, path: Seq<SymbolId>, t: ImportTarget, span: Span) -> DiagView {
    match t {
        ImportTarget::ParentIsInit => plain_error(
            span,
            "Child modules are strictly forbidden from importing `init.kn` contents"@,
        ),
        ImportTarget::TopLevel => plain_error(
            span,
            "Cannot use `..` because the current module is a top-level module"@,
        ),
        ImportTarget::NotModule(i) => DiagView {
            level: DiagnosticLevel::Error,
            span,
            message: not_module_message(symbol_text(names, path[i as int])),
            hints: seq!["only modules can be used in the intermediate segments of an import path"@],
            related: Seq::empty(),
        },
        _ => plain_error(
            span,
            "Unresolved import: cannot find module `"@ + symbol_text(names, path[i_of(t) as int]) + "`"@,
        ),
    }
}

pub open spec fn i_of(t: ImportTarget) -> nat {
    match t {
        ImportTarget::Missing(i) => i,
        ImportTarget::NotModule(i) => i,
        _ => 0,
    }
}

/// Resolving the `use` declaration `imp` of module `current_mod` from the
/// state `st`: the path is resolved, and then each name imported as
/// [`import_step`] says; a path that does not resolve is reported where
/// errors are wanted. The flag of the result says whether every name was
/// imported.
pub open spec fn import_run(
    st: ImportState,
    defs: Seq<DefLink>,
    names: Seq<Seq<char>>,
    current_mod: DefId,
    imp: ImportDef,
    emit_errors: bool,
) -> ImportState {
    let into = def_module(defs, current_mod).unwrap().0;
    let path = match imp.target {
        UseTarget::Module(_) => imp.path@.drop_last(),
        UseTarget::Members(_) => imp.path@,
    };
    let t = import_target(st.scopes, defs, names, current_mod, imp.path_kind, path);
    let fresh = ImportState { ok: true, ..st };
    match t {
        ImportTarget::Module(tm, ts) => match imp.target {
            UseTarget::Module(alias) => import_step(
                fresh,
                defs,
                names,
                current_mod,
                into,
                tm,
                ts,
                imp.path@.last(),
                alias,
                imp.span,
                imp.is_reexport,
                emit_errors,
                false,
            ),
            UseTarget::Members(ms) => members_run(
                fresh,
                defs,
                names,
                current_mod,
                into,
                tm,
                ts,
                ms@,
                imp.is_reexport,
                emit_errors,
            ),
        },
        _ => ImportState {
            ok: false,
            diags: if emit_errors {
                st.diags.push(failure_view(names, path, t, imp.span))
            } else {
                st.diags
            },
            ..st
        },
    }
}

/// The number of names a `use` declaration imports.
pub open spec fn import_count(target: UseTarget) -> nat {
    match target {
        UseTarget::Module(_) => 1,
        UseTarget::Members(ms) => ms@.len(),
    }
}

/// Resolve the `use` declaration `imp` of module `current_mod`, declaring
/// what it imports in the module's scope. The result says whether every
/// name was imported; what fails is reported where `emit_errors` asks for
/// it.
pub fn resolve_single_import(
    ctx: &mut Context,
    defs: &Vec<DefLink>,
    current_mod: DefId,
    imp: &ImportDef,
    emit_errors: bool,
) -> (r: bool)
    requires
        old(ctx).wf(),
        old(ctx).scopes.has_scope(ScopeId(0)),
        links_fit(old(ctx).scopes.scopes(), defs@, old(ctx).type_registry@.len()),
        is_module_def(defs@, current_mod, old(ctx).scopes.scopes().len()),
        match def_module(defs@, current_mod).unwrap().1 {
            Some(p) => is_module_def(defs@, p, old(ctx).scopes.scopes().len()),
            None => true,
        },
        imp.target is Module ==> imp.path@.len() > 0,
        old(ctx).diagnostics@.len() + import_count(imp.target) < usize::MAX,
    ensures
        final(ctx).wf(),
        single_import_outcome(*old(ctx), *final(ctx), defs@, current_mod, *imp, emit_errors, r),
        imports_kept(*old(ctx), *final(ctx)),
        final(ctx).scopes.scopes().len() == old(ctx).scopes.scopes().len(),
        links_fit(final(ctx).scopes.scopes(), defs@, final(ctx).type_registry@.len()),
        final(ctx).diagnostics@.len() <= old(ctx).diagnostics@.len() + if emit_errors {
            import_count(imp.target) + 1
        } else {
            0
        },
        !emit_errors ==> final(ctx).diagnostics@.len() == old(ctx).diagnostics@.len(),
        state_of(*final(ctx), r) == import_run(state_of(*old(ctx), true), defs@, old(ctx).interner@, current_mod, *imp, emit_errors),
{
    let into = match &defs[current_mod.0 as usize] {
        DefLink::Module { scope, .. } => *scope,
        _ => {
            proof {
                assert(false);
            }
            return false;
        },
    };
    proof {
        assert(defs_bounded(old(ctx).scopes.scopes(), defs@)) by {
            assert forall|i: int, k: u32|
                0 <= i < old(ctx).scopes.scopes().len() && #[trigger] old(ctx).scopes.scopes()[i].symbols.contains_key(k)
                implies (old(ctx).scopes.scopes()[i].symbols[k].def_id matches Some(d) ==> d.0 < defs@.len()) by {
            }
        }
    }
    match &imp.target {
        UseTarget::Module(alias) => {
            let n = imp.path.len() - 1;
            let mut parent: Vec<SymbolId> = Vec::new();
            let mut k: usize = 0;
            while k < n
                invariant
                    n == imp.path@.len() - 1,
                    0 <= k <= n,
                    parent@ == imp.path@.take(k as int),
                decreases n - k,
            {
                parent.push(imp.path[k]);
                k = k + 1;
                proof {
                    assert(parent@ =~= imp.path@.take(k as int));
                }
            }
            proof {
                assert(parent@ =~= imp.path@.drop_last());
            }
            let last = imp.path[n];
            match resolve_import_path(ctx, defs, current_mod, imp.path_kind, &parent, imp.span, emit_errors) {
                None => {
                    proof {
                        if emit_errors {
                            lemma_diag_views_push(old(ctx).diagnostics@, ctx.diagnostics@);
                        }
                        assert(state_of(*ctx, false) =~= import_run(state_of(*old(ctx), true), defs@,
                            old(ctx).interner@, current_mod, *imp, emit_errors));
                    }
                    false
                },
                Some((tm, ts)) => {
                    proof {
                        assert(ctx.scopes.has_scope(ts));
                    }
                    import_one(ctx, defs, current_mod, into, tm, ts, last, *alias, imp.span, imp.is_reexport, emit_errors, false)
                },
            }
        },
        UseTarget::Members(members) => {
            match resolve_import_path(ctx, defs, current_mod, imp.path_kind, &imp.path, imp.span, emit_errors) {
                None => {
                    proof {
                        if emit_errors {
                            lemma_diag_views_push(old(ctx).diagnostics@, ctx.diagnostics@);
                        }
                        assert(state_of(*ctx, false) =~= import_run(state_of(*old(ctx), true), defs@,
                            old(ctx).interner@, current_mod, *imp, emit_errors));
                    }
                    false
                },
                Some((tm, ts)) => {
                    let ghost names = old(ctx).interner@;
                    let ghost st0 = state_of(*old(ctx), true);
                    let mut all = true;
                    let mut k: usize = 0;
                    while k < members.len()
                        invariant
                            0 <= k <= members@.len(),
                            names == old(ctx).interner@,
                            st0 == state_of(*old(ctx), true),
                            ctx.wf(),
                            imports_kept(*old(ctx), *ctx),
                            ctx.scopes.has_scope(into),
                            ctx.scopes.has_scope(ts),
                            defs_bounded(ctx.scopes.scopes(), defs@),
                            links_fit(ctx.scopes.scopes(), defs@, ctx.type_registry@.len()),
                            ctx.scopes.scopes().len() == old(ctx).scopes.scopes().len(),
                            ctx.diagnostics@.len() <= old(ctx).diagnostics@.len() + if emit_errors {
                                k as nat
                            } else {
                                0
                            },
                            !emit_errors ==> ctx.diagnostics@.len() == old(ctx).diagnostics@.len(),
                            old(ctx).diagnostics@.len() + members@.len() < usize::MAX,
                            state_of(*ctx, all) == members_run(
                                st0,
                                defs@,
                                names,
                                current_mod,
                                into,
                                tm,
                                ts,
                                members@.take(k as int),
                                imp.is_reexport,
                                emit_errors,
                            ),
                        decreases members.len() - k,
                    {
                        let ghost prev = *ctx;
                        let ghost prev_all = all;
                        let m = &members[k];
                        let ok = import_one(
                            ctx,
                            defs,
                            current_mod,
                            into,
                            tm,
                            ts,
                            m.name,
                            m.alias,
                            m.span,
                            imp.is_reexport,
                            emit_errors,
                            true,
                        );
                        all = all && ok;
                        proof {
                            lemma_import_step_flag(state_of(prev, prev_all), defs@, names, current_mod, into, tm, ts,
                                m.name, m.alias, m.span, imp.is_reexport, emit_errors, true);
                            assert(ImportState { ok: true, ..state_of(prev, prev_all) } == state_of(prev, true));
                            assert(prev.interner@ == names);
                            assert(state_of(*ctx, all) == ImportState { ok: prev_all && ok, ..state_of(*ctx, ok) });
                            assert(members@.take(k + 1).drop_last() =~= members@.take(k as int));
                            assert(members@.take(k + 1).last() == members@[k as int]);
                            assert(state_of(*ctx, all) =~= import_step(
                                state_of(prev, prev_all),
                                defs@,
                                names,
                                current_mod,
                                into,
                                tm,
                                ts,
                                m.name,
                                m.alias,
                                m.span,
                                imp.is_reexport,
                                emit_errors,
                                true,
                            ));
                        }
                        k = k + 1;
                    }
                    proof {
                        assert(members@.take(members@.len() as int) =~= members@);
                    }
                    all
                },
            }
        },
    }
}

/// The `use` declaration that `p` names: the `p.1`-th of module `p.0`.
pub open spec fn import_at(defs: Seq<DefLink>, p: (DefId, usize)) -> ImportDef {
    match defs[p.0.0 as int] {
        DefLink::Module { imports, .. } => imports@[p.1 as int],
        _ => vstd::pervasive::arbitrary(),
    }
}

/// `p` names a `use` declaration of a module.
pub open spec fn import_named(defs: Seq<DefLink>, p: (DefId, usize)) -> bool {
    &&& p.0.0 < defs.len()
    &&& match defs[p.0.0 as int] {
        DefLink::Module { imports, .. } => p.1 < imports@.len(),
        _ => false,
    }
}

/// Every module of `defs` fits the table of `nscopes` scopes: its scope is
/// one of them, the module it is declared in is a module, and each of its
/// `use` declarations of one name has a path.
pub open spec fn modules_fit(defs: Seq<DefLink>, nscopes: nat) -> bool {
    forall|d: int|
        0 <= d < defs.len() ==> match #[trigger] defs[d] {
            DefLink::Module { scope, parent, imports, .. } => {
                &&& scope.0 < nscopes
                &&& (parent matches Some(p) ==> is_module_def(defs, p, nscopes))
                &&& forall|j: int|
                    0 <= j < imports@.len() ==> ((#[trigger] imports@[j]).target is Module
                        ==> imports@[j].path@.len() > 0)
            },
            _ => true,
        }
}

/// The `use` declarations of the first `n` definitions, module by module
/// and in order within each module.
pub open spec fn imports_upto(defs: Seq<DefLink>, n: nat) -> Seq<(DefId, usize)>
    decreases n,
{
    if n == 0 || n > defs.len() {
        Seq::empty()
    } else {
        imports_upto(defs, (n - 1) as nat) + match defs[n - 1] {
            DefLink::Module { imports, .. } => Seq::new(
                imports@.len(),
                |j: int| (DefId((n - 1) as u32), j as usize),
            ),
            _ => Seq::empty(),
        }
    }
}

/// The most diagnostics that resolving the declarations `ps` with errors
/// wanted can add.
pub open spec fn import_budget(defs: Seq<DefLink>, ps: Seq<(DefId, usize)>) -> nat
    decreases ps.len(),
{
    if ps.len() == 0 {
        0
    } else {
        import_budget(defs, ps.drop_last()) + import_count(import_at(defs, ps.last()).target) + 1
    }
}

/// One pass over the declarations `ps`, in order: the state after it and
/// the declarations that did not resolve.
pub open spec fn import_pass(
    st: ImportState,
    defs: Seq<DefLink>,
    names: Seq<Seq<char>>,
    ps: Seq<(DefId, usize)>,
    emit_errors: bool,
) -> (ImportState, Seq<(DefId, usize)>)
    decreases ps.len(),
{
    if ps.len() == 0 {
        (ImportState { ok: true, ..st }, Seq::empty())
    } else {
        let (s1, un) = import_pass(st, defs, names, ps.drop_last(), emit_errors);
        let p = ps.last();
        let s2 = import_run(s1, defs, names, p.0, import_at(defs, p), emit_errors);
        (ImportState { ok: true, ..s2 }, if s2.ok {
            un
        } else {
            un.push(p)
        })
    }
}

/// Passes without errors over what is still unresolved, as long as each
/// pass resolves something.
pub open spec fn import_fixpoint(
    st: ImportState,
    defs: Seq<DefLink>,
    names: Seq<Seq<char>>,
    ps: Seq<(DefId, usize)>,
) -> (ImportState, Seq<(DefId, usize)>)
    decreases ps.len(),
{
    if ps.len() == 0 {
        (st, ps)
    } else {
        let (s1, un) = import_pass(st, defs, names, ps, false);
        if un.len() < ps.len() {
            import_fixpoint(s1, defs, names, un)
        } else {
            (s1, un)
        }
    }
}

proof fn lemma_budget_push(defs: Seq<DefLink>, xs: Seq<(DefId, usize)>, x: (DefId, usize))
    ensures
        import_budget(defs, xs.push(x)) == import_budget(defs, xs) + import_count(import_at(defs, x).target) + 1,
{
    assert(xs.push(x).drop_last() =~= xs);
}

proof fn lemma_budget_prefix(defs: Seq<DefLink>, xs: Seq<(DefId, usize)>, k: int)
    requires
        0 <= k <= xs.len(),
    ensures
        import_budget(defs, xs.take(k)) <= import_budget(defs, xs),
    decreases xs.len(),
{
    if k < xs.len() {
        assert(xs.drop_last().take(k) =~= xs.take(k));
        lemma_budget_prefix(defs, xs.drop_last(), k);
    } else {
        assert(xs.take(k) =~= xs);
    }
}

/// A pass leaves unresolved some of the declarations it was given, and no
/// more of the budget.
proof fn lemma_pass_unresolved(
    st: ImportState,
    defs: Seq<DefLink>,
    names: Seq<Seq<char>>,
    ps: Seq<(DefId, usize)>,
    emit_errors: bool,
)
    ensures
        ({
            let un = import_pass(st, defs, names, ps, emit_errors).1;
            &&& un.len() <= ps.len()
            &&& import_budget(defs, un) <= import_budget(defs, ps)
            &&& forall|q: (DefId, usize)| un.contains(q) ==> ps.contains(q)
        }),
    decreases ps.len(),
{
    if ps.len() > 0 {
        lemma_pass_unresolved(st, defs, names, ps.drop_last(), emit_errors);
        let (s1, un) = import_pass(st, defs, names, ps.drop_last(), emit_errors);
        let p = ps.last();
        lemma_budget_push(defs, un, p);
        assert(ps.drop_last().push(p) =~= ps);
        assert forall|q: (DefId, usize)| un.push(p).contains(q) implies ps.contains(q) by {
            if q == p {
                assert(ps[ps.len() - 1] == p);
            } else {
                let j = choose|j: int| 0 <= j < un.push(p).len() && un.push(p)[j] == q;
                assert(un[j] == q);
                assert(un.contains(q));
                let i = choose|i: int| 0 <= i < ps.drop_last().len() && ps.drop_last()[i] == q;
                assert(ps[i] == q);
            }
        }
        assert forall|q: (DefId, usize)| un.contains(q) implies ps.contains(q) by {
            let i = choose|i: int| 0 <= i < ps.drop_last().len() && ps.drop_last()[i] == q;
            assert(ps[i] == q);
        }
    }
}

/// The `use` declaration of module `m` at index `j`.
fn import_of<'a>(defs: &'a Vec<DefLink>, m: DefId, j: usize) -> (r: Option<&'a ImportDef>)
    requires
        import_named(defs@, (m, j)),
    ensures
        r == Some(&import_at(defs@, (m, j))),
{
    match &defs[m.0 as usize] {
        DefLink::Module { imports, .. } => Some(&imports[j]),
        _ => None,
    }
}

/// Resolve every `use` declaration of every module. Passes in which
/// errors are not reported are repeated over what is still unresolved as
/// long as each pass resolves something, since an import can depend on
/// another; what is left is then resolved once more with its errors
/// reported.
pub fn resolve_all(ctx: &mut Context, defs: &Vec<DefLink>)
    requires
        old(ctx).wf(),
        old(ctx).scopes.has_scope(ScopeId(0)),
        links_fit(old(ctx).scopes.scopes(), defs@, old(ctx).type_registry@.len()),
        modules_fit(defs@, old(ctx).scopes.scopes().len()),
        defs@.len() <= u32::MAX,
        old(ctx).diagnostics@.len() + import_budget(defs@, imports_upto(defs@, defs@.len())) < usize::MAX,
    ensures
        final(ctx).wf(),
        imports_kept(*old(ctx), *final(ctx)),
        ({
            let names = old(ctx).interner@;
            let (s1, rest) = import_fixpoint(
                state_of(*old(ctx), true),
                defs@,
                names,
                imports_upto(defs@, defs@.len()),
            );
            state_of(*final(ctx), true) == import_pass(s1, defs@, names, rest, true).0
        }),
{
    let mut pending: Vec<(DefId, usize)> = Vec::new();
    let mut i: usize = 0;
    while i < defs.len()
        invariant
            0 <= i <= defs@.len(),
            defs@.len() <= u32::MAX,
            pending@ == imports_upto(defs@, i as nat),
            forall|q: int| 0 <= q < pending@.len() ==> import_named(defs@, #[trigger] pending@[q]),
        decreases defs.len() - i,
    {
        let ghost before = pending@;
        match &defs[i] {
            DefLink::Module { imports, .. } => {
                let mut j: usize = 0;
                while j < imports.len()
                    invariant
                        0 <= j <= imports@.len(),
                        i < defs@.len(),
                        defs@.len() <= u32::MAX,
                        defs@[i as int] matches DefLink::Module { imports: im, .. } && im == imports,
                        pending@ == before + Seq::new(j as nat, |q: int| (DefId(i as u32), q as usize)),
                        forall|q: int| 0 <= q < pending@.len() ==> import_named(defs@, #[trigger] pending@[q]),
                    decreases imports.len() - j,
                {
                    pending.push((DefId(i as u32), j));
                    j = j + 1;
                    proof {
                        assert(pending@ =~= before + Seq::new(j as nat, |q: int| (DefId(i as u32), q as usize)));
                    }
                }
                proof {
                    assert(pending@ =~= imports_upto(defs@, (i + 1) as nat));
                }
            },
            _ => {
                proof {
                    assert(pending@ =~= imports_upto(defs@, (i + 1) as nat));
                }
            },
        }
        i = i + 1;
    }
    let ghost names = old(ctx).interner@;
    let ghost all = pending@;
    let ghost goal = import_fixpoint(state_of(*old(ctx), true), defs@, names, all);
    proof {
        assert(pending@ == imports_upto(defs@, defs@.len()));
    }
    let mut progress = true;
    while progress && pending.len() > 0
        invariant
            ctx.wf(),
            imports_kept(*old(ctx), *ctx),
            ctx.scopes.scopes().len() == old(ctx).scopes.scopes().len(),
            ctx.scopes.has_scope(ScopeId(0)),
            links_fit(ctx.scopes.scopes(), defs@, ctx.type_registry@.len()),
            modules_fit(defs@, old(ctx).scopes.scopes().len()),
            ctx.diagnostics@.len() == old(ctx).diagnostics@.len(),
            old(ctx).diagnostics@.len() + import_budget(defs@, all) < usize::MAX,
            import_budget(defs@, pending@) <= import_budget(defs@, all),
            forall|q: int| 0 <= q < pending@.len() ==> import_named(defs@, #[trigger] pending@[q]),
            names == old(ctx).interner@,
            goal == import_fixpoint(state_of(*old(ctx), true), defs@, names, all),
            if progress {
                import_fixpoint(state_of(*ctx, true), defs@, names, pending@) == goal
            } else {
                (state_of(*ctx, true), pending@) == goal
            },
        decreases pending@.len() + if progress { 1nat } else { 0nat },
    {
        let ghost s0 = state_of(*ctx, true);
        let ghost cur = pending@;
        progress = false;
        let mut unresolved: Vec<(DefId, usize)> = Vec::new();
        let mut k: usize = 0;
        proof {
            assert(cur.take(0) =~= Seq::<(DefId, usize)>::empty());
            assert(ImportState { ok: true, ..s0 } == s0);
        }
        while k < pending.len()
            invariant
                0 <= k <= pending@.len(),
                pending@ == cur,
                ctx.wf(),
                imports_kept(*old(ctx), *ctx),
                ctx.scopes.scopes().len() == old(ctx).scopes.scopes().len(),
                ctx.scopes.has_scope(ScopeId(0)),
                links_fit(ctx.scopes.scopes(), defs@, ctx.type_registry@.len()),
                modules_fit(defs@, old(ctx).scopes.scopes().len()),
                ctx.diagnostics@.len() == old(ctx).diagnostics@.len(),
                old(ctx).diagnostics@.len() + import_budget(defs@, all) < usize::MAX,
                import_budget(defs@, cur) <= import_budget(defs@, all),
                forall|q: int| 0 <= q < cur.len() ==> import_named(defs@, #[trigger] cur[q]),
                names == old(ctx).interner@,
                (state_of(*ctx, true), unresolved@) == import_pass(s0, defs@, names, cur.take(k as int), false),
                progress == (unresolved@.len() < k),
                unresolved@.len() <= k,
            decreases pending.len() - k,
        {
            let (m, j) = pending[k];
            proof {
                assert(import_named(defs@, cur[k as int]));
                lemma_budget_prefix(defs@, cur, k + 1);
                assert(cur.take(k + 1).drop_last() =~= cur.take(k as int));
                assert(cur.take(k + 1).last() == cur[k as int]);
                lemma_budget_push(defs@, cur.take(k as int), cur[k as int]);
                assert(cur.take(k as int).push(cur[k as int]) =~= cur.take(k + 1));
                assert(match defs@[m.0 as int] {
                    DefLink::Module { scope, parent, imports, .. } => {
                        &&& scope.0 < old(ctx).scopes.scopes().len()
                        &&& (parent matches Some(p) ==> is_module_def(defs@, p, old(ctx).scopes.scopes().len()))
                        &&& forall|jj: int|
                            0 <= jj < imports@.len() ==> ((#[trigger] imports@[jj]).target is Module
                                ==> imports@[jj].path@.len() > 0)
                    },
                    _ => true,
                });
            }
            let imp = import_of(defs, m, j).unwrap();
            let ghost prev = *ctx;
            let ok = resolve_single_import(ctx, defs, m, imp, false);
            if ok {
                progress = true;
            } else {
                unresolved.push((m, j));
            }
            proof {
                assert(state_of(*ctx, true) == ImportState { ok: true, ..state_of(*ctx, ok) });
                assert(prev.interner@ == names);
            }
            k = k + 1;
        }
        proof {
            assert(cur.take(cur.len() as int) =~= cur);
            lemma_pass_unresolved(s0, defs@, names, cur, false);
            assert forall|q: int| 0 <= q < unresolved@.len() implies import_named(defs@, #[trigger] unresolved@[q]) by {
                assert(unresolved@.contains(unresolved@[q]));
                assert(cur.contains(unresolved@[q]));
            }
        }
        pending = unresolved;
    }
    let ghost s1 = state_of(*ctx, true);
    let ghost rest = pending@;
    proof {
        assert((s1, rest) == goal);
        assert(pending@.take(0) =~= Seq::<(DefId, usize)>::empty());
        assert(ImportState { ok: true, ..s1 } == s1);
    }
    let mut k: usize = 0;
    while k < pending.len()
        invariant
            0 <= k <= pending@.len(),
            pending@ == rest,
            ctx.wf(),
            imports_kept(*old(ctx), *ctx),
            ctx.scopes.scopes().len() == old(ctx).scopes.scopes().len(),
            ctx.scopes.has_scope(ScopeId(0)),
            links_fit(ctx.scopes.scopes(), defs@, ctx.type_registry@.len()),
            modules_fit(defs@, old(ctx).scopes.scopes().len()),
            ctx.diagnostics@.len() <= old(ctx).diagnostics@.len() + import_budget(defs@, rest.take(k as int)),
            old(ctx).diagnostics@.len() + import_budget(defs@, all) < usize::MAX,
            import_budget(defs@, rest) <= import_budget(defs@, all),
            forall|q: int| 0 <= q < rest.len() ==> import_named(defs@, #[trigger] rest[q]),
            names == old(ctx).interner@,
            state_of(*ctx, true) == import_pass(s1, defs@, names, rest.take(k as int), true).0,
        decreases pending.len() - k,
    {
        let (m, j) = pending[k];
        proof {
            assert(import_named(defs@, rest[k as int]));
            lemma_budget_prefix(defs@, rest, k + 1);
            assert(rest.take(k + 1).drop_last() =~= rest.take(k as int));
            assert(rest.take(k + 1).last() == rest[k as int]);
            lemma_budget_push(defs@, rest.take(k as int), rest[k as int]);
            assert(rest.take(k as int).push(rest[k as int]) =~= rest.take(k + 1));
            assert(match defs@[m.0 as int] {
                DefLink::Module { scope, parent, imports, .. } => {
                    &&& scope.0 < old(ctx).scopes.scopes().len()
                    &&& (parent matches Some(p) ==> is_module_def(defs@, p, old(ctx).scopes.scopes().len()))
                    &&& forall|jj: int|
                        0 <= jj < imports@.len() ==> ((#[trigger] imports@[jj]).target is Module
                            ==> imports@[jj].path@.len() > 0)
                },
                _ => true,
            });
        }
        let imp = import_of(defs, m, j).unwrap();
        let ghost prev = *ctx;
        let ok = resolve_single_import(ctx, defs, m, imp, true);
        proof {
            assert(state_of(*ctx, true) == ImportState { ok: true, ..state_of(*ctx, ok) });
            assert(prev.interner@ == names);
        }
        k = k + 1;
    }
    proof {
        assert(rest.take(rest.len() as int) =~= rest);
    }
}

/// Privacy: a name whose definition is private to another module is never
/// imported; the scopes stay as they were and the import fails.
pub proof fn law_private_names_stay_private(
    st: ImportState,
    defs: Seq<DefLink>,
    names: Seq<Seq<char>>,
    current_mod: DefId,
    into: ScopeId,
    target_mod: DefId,
    from: ScopeId,
    name: SymbolId,
    alias: Option<SymbolId>,
    span: Span,
    is_reexport: bool,
    emit_errors: bool,
    member: bool,
)
    requires
        current_mod != target_mod,
        st.scopes[from.0 as int].symbols.contains_key(name.0),
        st.scopes[from.0 as int].symbols[name.0].def_id matches Some(d) && !def_is_pub(defs, d),
    ensures
        ({
            let r = import_step(st, defs, names, current_mod, into, target_mod, from, name, alias, span, is_reexport, emit_errors, member);
            r.scopes == st.scopes && !r.ok
        }),
{
}

/// Visibility across modules is the flag that the item was declared with:
/// a struct, union, enum, algebraic data type, type alias, function, trait
/// or global of another module may be imported exactly when it is `pub`;
/// modules and `impl` blocks always may; and within one module, or for a
/// symbol with no definition, every import is allowed.
pub proof fn law_visibility_follows_declaration(defs: Seq<DefLink>, d: DefId, current: DefId, target: DefId)
    requires
        d.0 < defs.len(),
    ensures
        visible(defs, Some(d), target, target),
        visible(defs, None, current, target),
        current != target ==> {
            let l = defs[d.0 as int];
            let v = visible(defs, Some(d), current, target);
            &&& l is Struct ==> (v <==> l->Struct_is_pub)
            &&& l is Union ==> (v <==> l->Union_is_pub)
            &&& l is Enum ==> (v <==> l->Enum_is_pub)
            &&& l is Adt ==> (v <==> l->Adt_is_pub)
            &&& l is TypeAlias ==> (v <==> l->TypeAlias_is_pub)
            &&& l is Function ==> (v <==> l->Function_is_pub)
            &&& l is Item ==> (v <==> l->Item_is_pub)
            &&& l is Module ==> v
            &&& l is Impl ==> v
        },
{
}

} // verus!
