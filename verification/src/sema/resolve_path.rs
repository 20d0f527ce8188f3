use crate::driver::context::{diagnostic_added, Context};
use crate::driver::diagnostic::DiagnosticLevel;
use crate::sema::resolve_types::{builtin_primitive, kind_to_string, resolve_builtin_primitive};
use crate::sema::scope::{lookup_in_scopes, ScopeId, ScopeView, SymbolInfo, SymbolKind};
use crate::sema::ty::{interned, DefId, PrimitiveType, TypeId, TypeKind, TypeShape};
use crate::sema::typeck::subst::{subst_run, subst_size, Substituter};
use crate::parser::ast::UsePathKind;
use crate::sema::resolve_imports::ImportDef;
use crate::utils::{concat3, decimal, decimal_text, symbol_text, text_eq, Span, SymbolId};
use std::collections::HashMap;
use vstd::prelude::*;

verus! {

broadcast use vstd::std_specs::hash::group_hash_axioms;

// Resolving a written path such as `a.b.T<u8>` to a type.

/// What resolving paths and imports reads of a definition: a module's
/// scope, the module it is declared in, its name and its `use`
/// declarations; the names of a type
/// alias's generic parameters; whether an item is public.
pub enum DefLink {
    Module { scope: ScopeId, parent: Option<DefId>, name: SymbolId, imports: Vec<ImportDef> },
    TypeAlias { params: Vec<SymbolId>, is_pub: bool },
    /// An `impl` block.
    Impl,
    /// A struct: its generic parameters and the types of its fields, as
    /// written (before the parameters are replaced).
    Struct { is_pub: bool, generics: Vec<SymbolId>, fields: Vec<TypeId> },
    /// A union, with the same parts as a struct.
    Union { is_pub: bool, generics: Vec<SymbolId>, fields: Vec<TypeId> },
    /// An enum, its backing integer type (`u32` where none is written) and
    /// the names of its variants in declaration order.
    Enum { is_pub: bool, backing: TypeId, variants: Vec<SymbolId> },
    /// An algebraic data type: its generic parameters, the type of its tag
    /// (`u32` where none is written) and the payload types of its variants
    /// that carry one, in order.
    Adt { is_pub: bool, generics: Vec<SymbolId>, tag: TypeId, payloads: Vec<TypeId> },
    /// A function: its name, and whether it is a compiler intrinsic such as
    /// `@sizeOf`.
    Function { is_pub: bool, name: SymbolId, is_intrinsic: bool },
    /// Any other item: a trait or a global.
    Item { is_pub: bool },
}

/// The scope of the module that `sym` names, if it names one.
pub open spec fn module_scope(defs: Seq<DefLink>, sym: SymbolInfo) -> Option<ScopeId> {
    match sym.def_id {
        Some(d) => if d.0 < defs.len() {
            match defs[d.0 as int] {
                DefLink::Module { scope, .. } => Some(scope),
                _ => None,
            }
        } else {
            None
        },
        None => None,
    }
}

/// The generic parameter names of the type alias that `sym` names, if it
/// names one.
pub open spec fn alias_params(defs: Seq<DefLink>, sym: SymbolInfo) -> Option<Seq<SymbolId>> {
    match sym.def_id {
        Some(d) => if d.0 < defs.len() {
            match defs[d.0 as int] {
                DefLink::TypeAlias { params, .. } => Some(params@),
                _ => None,
            }
        } else {
            None
        },
        None => None,
    }
}

/// Every symbol of the scopes fits the definitions and the registry: its
/// definition is one of `defs`, a module's definition is a module with a scope of the table, a type's or
/// trait's symbol has a definition, a type alias's definition is a type
/// alias, and every symbol's type is stored.
pub open spec fn links_fit(scopes: Seq<ScopeView>, defs: Seq<DefLink>, types: nat) -> bool {
    forall|i: int, k: u32|
        0 <= i < scopes.len() && #[trigger] scopes[i].symbols.contains_key(k) ==> {
            let sym = scopes[i].symbols[k];
            &&& sym.type_id.0 < types
            &&& (sym.def_id matches Some(d) ==> d.0 < defs.len())
            &&& (sym.kind == SymbolKind::Module ==> (module_scope(defs, sym) matches Some(s) && s.0
                < scopes.len()))
            &&& (sym.kind == SymbolKind::Struct || sym.kind == SymbolKind::Union || sym.kind
                == SymbolKind::Enum || sym.kind == SymbolKind::Adt || sym.kind == SymbolKind::Trait
                ==> sym.def_id is Some)
            &&& (sym.kind == SymbolKind::TypeAlias ==> alias_params(defs, sym) is Some)
        }
}

/// Where resolving a path ends.
pub enum PathTarget {
    /// A one-segment path that names a built-in type.
    Builtin(PrimitiveType),
    /// The segment at this index is not found.
    Missing(nat),
    /// The segment at this index, not the last, names something other
    /// than a module.
    NotModule(nat),
    /// The last segment names this symbol.
    Found(SymbolInfo),
}

/// The symbol that segment `i` names, looked up from `curr`: the first
/// segment through all enclosing scopes, a later one in `curr` alone.
pub open spec fn segment_symbol(scopes: Seq<ScopeView>, segs: Seq<SymbolId>, i: nat, curr: ScopeId) -> Option<SymbolInfo> {
    if i == 0 {
        lookup_in_scopes(scopes, Some(curr), segs[0].0)
    } else if curr.0 < scopes.len() && scopes[curr.0 as int].symbols.contains_key(segs[i as int].0) {
        Some(scopes[curr.0 as int].symbols[segs[i as int].0])
    } else {
        None
    }
}

/// Walking the segments from index `i` on, in scope `curr`: each segment
/// but the last must name a module, whose scope holds the next one.
pub open spec fn path_walk(scopes: Seq<ScopeView>, defs: Seq<DefLink>, segs: Seq<SymbolId>, i: nat, curr: ScopeId) -> PathTarget
    decreases segs.len() - i,
{
    if i >= segs.len() {
        PathTarget::Missing(i)
    } else {
        match segment_symbol(scopes, segs, i, curr) {
            None => PathTarget::Missing(i),
            Some(sym) => if i + 1 < segs.len() {
                if sym.kind == SymbolKind::Module {
                    match module_scope(defs, sym) {
                        Some(s) => path_walk(scopes, defs, segs, i + 1, s),
                        None => PathTarget::NotModule(i),
                    }
                } else {
                    PathTarget::NotModule(i)
                }
            } else {
                PathTarget::Found(sym)
            },
        }
    }
}

/// Where the path `segs`, written in scope `env`, leads. A one-segment
/// path that spells a built-in type is that type before any scope is
/// searched.
pub open spec fn path_target(
    scopes: Seq<ScopeView>,
    defs: Seq<DefLink>,
    names: Seq<Seq<char>>,
    segs: Seq<SymbolId>,
    env: ScopeId,
) -> PathTarget {
    if segs.len() == 1 && builtin_primitive(symbol_text(names, segs[0])) is Some {
        PathTarget::Builtin(builtin_primitive(symbol_text(names, segs[0])).unwrap())
    } else {
        path_walk(scopes, defs, segs, 0, env)
    }
}

/// Substituting in the target of the type alias that a path leads to
/// cannot run out of type ids.
pub open spec fn alias_fits(target: PathTarget, reg: Seq<TypeShape>) -> bool {
    match target {
        PathTarget::Found(sym) => sym.kind == SymbolKind::TypeAlias ==> reg.len() + subst_size(reg, sym.type_id)
            <= u32::MAX,
        _ => true,
    }
}

/// The bindings of a type alias's first `n` parameters to the arguments;
/// a parameter named twice takes its later argument.
pub open spec fn alias_bindings(params: Seq<SymbolId>, args: Seq<TypeId>, n: nat) -> Map<u32, TypeId>
    decreases n,
{
    if n == 0 {
        Map::empty()
    } else {
        alias_bindings(params, args, (n - 1) as nat).insert(params[n - 1].0, args[n - 1])
    }
}

pub open spec fn missing_message(i: nat, name: Seq<char>) -> Seq<char> {
    if i == 0 {
        "Cannot find type `"@ + name + "` in this scope"@
    } else {
        "Cannot find `"@ + name + "` in the target module"@
    }
}

pub open spec fn not_module_message(name: Seq<char>) -> Seq<char> {
    "`"@ + name + "` is not a module"@
}

pub open spec fn alias_arity_message(name: Seq<char>, expected: nat, given: nat) -> Seq<char> {
    "Type alias `"@ + name + "` expects "@ + decimal(expected) + " generic arguments, but "@
        + decimal(given) + " were provided"@
}

pub open spec fn not_a_type_message(name: Seq<char>, kind: Seq<char>) -> Seq<char> {
    "`"@ + name + "` is a "@ + kind + ", not a type"@
}

/// How a symbol kind is named in messages.
pub open spec fn kind_name(kind: SymbolKind) -> Seq<char> {
    match kind {
        SymbolKind::Var => "variable"@,
        SymbolKind::Const => "constant"@,
        SymbolKind::Static => "static variable"@,
        SymbolKind::Function => "function"@,
        SymbolKind::Module => "module"@,
        SymbolKind::Struct => "struct"@,
        SymbolKind::Enum => "enum"@,
        SymbolKind::Union => "union"@,
        SymbolKind::Adt => "algebraic data type"@,
        SymbolKind::Trait => "trait"@,
        SymbolKind::TypeAlias => "type alias"@,
        SymbolKind::TypeParam => "type parameter"@,
    }
}

/// `after` holds the diagnostics of `before` and nothing more.
pub open spec fn nothing_reported(before: Context, after: Context) -> bool {
    &&& after.diagnostics@ == before.diagnostics@
    &&& after.error_count == before.error_count
}

/// `after` holds the diagnostics of `before` and one more: an error at
/// `span` with the message `msg`, no hints and no further places.
pub open spec fn error_reported(before: Context, after: Context, span: Span, msg: Seq<char>) -> bool {
    let n = before.diagnostics@.len();
    &&& after.diagnostics@.len() == n + 1
    &&& after.diagnostics@.take(n as int) == before.diagnostics@
    &&& after.diagnostics@[n as int].level == DiagnosticLevel::Error
    &&& after.diagnostics@[n as int].primary_span == span
    &&& after.diagnostics@[n as int].message@ == msg
    &&& after.diagnostics@[n as int].hint_texts() == Seq::<Seq<char>>::empty()
    &&& after.diagnostics@[n as int].related() == Seq::<(Span, Seq<char>)>::empty()
    &&& after.error_count == before.error_count + 1
}

/// Everything but the diagnostics, the registry and the current scope is
/// as it was.
pub open spec fn rest_kept(before: Context, after: Context) -> bool {
    &&& after.interner == before.interner
    &&& after.scopes.scopes() == before.scopes.scopes()
    &&& after.target == before.target
    &&& after.custom_defines == before.custom_defines
    &&& after.module_aliases == before.module_aliases
    &&& after.next_node_id == before.next_node_id
    &&& after.use_color == before.use_color
}

/// What resolving a path that leads to `sym` does, with the generic
/// arguments `args`: the result, the types it interns and what it reports.
pub open spec fn found_outcome(
    before: Context,
    after: Context,
    defs: Seq<DefLink>,
    sym: SymbolInfo,
    last: Seq<char>,
    args: Seq<TypeId>,
    span: Span,
    r: TypeId,
) -> bool {
    let reg0 = before.type_registry@;
    let reg1 = after.type_registry@;
    match sym.kind {
        SymbolKind::Struct | SymbolKind::Union | SymbolKind::Enum => (reg1, r) == interned(
            reg0,
            TypeShape::Def(sym.def_id.unwrap(), args),
        ) && nothing_reported(before, after),
        SymbolKind::Adt => (reg1, r) == interned(reg0, TypeShape::Adt(sym.def_id.unwrap(), args))
            && nothing_reported(before, after),
        SymbolKind::Trait => (reg1, r) == interned(
            reg0,
            TypeShape::TraitObject(sym.def_id.unwrap(), args),
        ) && nothing_reported(before, after),
        SymbolKind::TypeParam => r == sym.type_id && reg1 == reg0 && if args.len() == 0 {
            nothing_reported(before, after)
        } else {
            error_reported(before, after, span, "Type parameters cannot take generic arguments"@)
        },
        SymbolKind::TypeAlias => if args.len() == 0 {
            r == sym.type_id && reg1 == reg0 && nothing_reported(before, after)
        } else {
            let params = alias_params(defs, sym).unwrap();
            if params.len() != args.len() {
                r == TypeId::spec_error() && reg1 == reg0 && error_reported(
                    before,
                    after,
                    span,
                    alias_arity_message(last, params.len(), args.len()),
                )
            } else {
                (reg1, r) == subst_run(reg0, alias_bindings(params, args, params.len()), sym.type_id)
                    && nothing_reported(before, after)
            }
        },
        _ => r == TypeId::spec_error() && reg1 == reg0 && error_reported(
            before,
            after,
            span,
            not_a_type_message(last, kind_name(sym.kind)),
        ),
    }
}

fn message2(a: &str, b: &str) -> (s: String)
    ensures
        s@ == a@ + b@,
{
    let s = concat3(a, b, "");
    proof {
        reveal_strlit("");
        assert(s@ =~= a@ + b@);
    }
    s
}

/// Resolve the path `segments`, written in scope `env_scope` with the
/// resolved generic arguments `generics`, to a type. A one-segment path that
/// spells a built-in type is that type; otherwise the first segment is
/// looked up from `env_scope`, which becomes the current scope, and each
/// later one inside the module that the segment before it names. A
/// missing segment, a segment before the last that is not a module, or a
/// last segment that does not name a type is reported and gives the error
/// type. Structs, unions, enums, algebraic data types and traits become
/// types over the arguments; a type parameter is its own type; a type
/// alias with arguments is its target with its parameters replaced.
pub fn resolve_path_type(
    ctx: &mut Context,
    defs: &Vec<DefLink>,
    segments: &Vec<SymbolId>,
    generics: Vec<TypeId>,
    env_scope: ScopeId,
    span: Span,
) -> (r: TypeId)
    requires
        old(ctx).wf(),
        old(ctx).scopes.has_scope(env_scope),
        links_fit(old(ctx).scopes.scopes(), defs@, old(ctx).type_registry@.len()),
        forall|j: int| 0 <= j < generics@.len() ==> old(ctx).type_registry.contains(#[trigger] generics@[j]),
        old(ctx).type_registry@.len() < u32::MAX,
        old(ctx).diagnostics@.len() < usize::MAX,
        alias_fits(
            path_target(old(ctx).scopes.scopes(), defs@, old(ctx).interner@, segments@, env_scope),
            old(ctx).type_registry@,
        ),
    ensures
        final(ctx).wf(),
        rest_kept(*old(ctx), *final(ctx)),
        segments@.len() == 0 ==> r == TypeId::spec_error() && *final(ctx) == *old(ctx),
        segments@.len() > 0 ==> {
            let names = old(ctx).interner@;
            match path_target(old(ctx).scopes.scopes(), defs@, names, segments@, env_scope) {
                PathTarget::Builtin(p) => {
                    &&& r == TypeId::spec_primitive(p)
                    &&& final(ctx).type_registry == old(ctx).type_registry
                    &&& final(ctx).scopes.current() == old(ctx).scopes.current()
                    &&& if generics@.len() == 0 {
                        nothing_reported(*old(ctx), *final(ctx))
                    } else {
                        error_reported(
                            *old(ctx),
                            *final(ctx),
                            span,
                            "Primitive types do not take generic arguments"@,
                        )
                    }
                },
                PathTarget::Missing(i) => {
                    &&& r == TypeId::spec_error()
                    &&& final(ctx).type_registry == old(ctx).type_registry
                    &&& final(ctx).scopes.current() == Some(env_scope)
                    &&& error_reported(
                        *old(ctx),
                        *final(ctx),
                        span,
                        missing_message(i, symbol_text(names, segments@[i as int])),
                    )
                },
                PathTarget::NotModule(i) => {
                    &&& r == TypeId::spec_error()
                    &&& final(ctx).type_registry == old(ctx).type_registry
                    &&& final(ctx).scopes.current() == Some(env_scope)
                    &&& error_reported(
                        *old(ctx),
                        *final(ctx),
                        span,
                        not_module_message(symbol_text(names, segments@[i as int])),
                    )
                },
                PathTarget::Found(sym) => {
                    &&& final(ctx).scopes.current() == Some(env_scope)
                    &&& found_outcome(
                        *old(ctx),
                        *final(ctx),
                        defs@,
                        sym,
                        symbol_text(names, segments@.last()),
                        generics@,
                        span,
                        r,
                    )
                },
            }
        },
{
    if segments.len() == 0 {
        return TypeId::error();
    }
    if segments.len() == 1 {
        let prim = resolve_builtin_primitive(ctx.resolve(segments[0]));
        if let Some(prim_id) = prim {
            if generics.len() > 0 {
                ctx.emit_error(span, "Primitive types do not take generic arguments".to_owned());
            }
            return prim_id;
        }
    }
    ctx.scopes.set_current_scope(env_scope);
    let ghost mid = *ctx;
    let ghost scopes = ctx.scopes.scopes();
    let ghost goal = path_walk(scopes, defs@, segments@, 0, env_scope);
    proof {
        assert(path_target(old(ctx).scopes.scopes(), defs@, old(ctx).interner@, segments@, env_scope) == goal);
    }
    let mut curr = env_scope;
    let mut i: usize = 0;
    loop
        invariant
            ctx.wf(),
            *ctx == mid,
            rest_kept(*old(ctx), mid),
            mid.type_registry == old(ctx).type_registry,
            nothing_reported(*old(ctx), mid),
            segments@.len() > 0,
            path_target(old(ctx).scopes.scopes(), defs@, old(ctx).interner@, segments@, env_scope) == goal,
            scopes == ctx.scopes.scopes(),
            ctx.scopes.current() == Some(env_scope),
            0 <= i < segments@.len(),
            curr.0 < scopes.len(),
            i == 0 ==> curr == env_scope,
            path_walk(scopes, defs@, segments@, i as nat, curr) == goal,
            links_fit(scopes, defs@, ctx.type_registry@.len()),
            forall|j: int| 0 <= j < generics@.len() ==> ctx.type_registry.contains(#[trigger] generics@[j]),
            ctx.type_registry@.len() < u32::MAX,
            ctx.diagnostics@.len() < usize::MAX,
            alias_fits(goal, ctx.type_registry@),
        decreases segments.len() - i,
    {
        let seg = segments[i];
        let found: Option<SymbolInfo> = if i == 0 {
            match ctx.scopes.resolve(seg) {
                Some(s) => Some(*s),
                None => None,
            }
        } else {
            match ctx.scopes.resolve_in(curr, seg) {
                Some(s) => Some(*s),
                None => None,
            }
        };
        proof {
            assert(found == segment_symbol(scopes, segments@, i as nat, curr));
        }
        match found {
            None => {
                report_missing(ctx, seg, i, span);
                return TypeId::error();
            },
            Some(s) => {
                proof {
                    let k = lemma_segment_member(scopes, segments@, i as nat, curr);
                    assert(scopes[k].symbols.contains_key(seg.0));
                }
                if i + 1 < segments.len() {
                    if s.kind == SymbolKind::Module {
                        let d = s.def_id.unwrap();
                        match &defs[d.0 as usize] {
                            DefLink::Module { scope: sc, .. } => {
                                curr = *sc;
                                i = i + 1;
                            },
                            _ => {
                                proof {
                                    assert(false);
                                }
                                return TypeId::error();
                            },
                        }
                    } else {
                        let msg = concat3("`", ctx.resolve(seg), "` is not a module");
                        proof {
                            reveal_strlit("`");
                            reveal_strlit("` is not a module");
                        }
                        ctx.emit_error(span, msg);
                        return TypeId::error();
                    }
                } else {
                    let r = finish_path(ctx, defs, s, seg, generics, span);
                    return r;
                }
            },
        }
    }
}

/// Report that the segment `seg` at index `i` of a path is not found.
fn report_missing(ctx: &mut Context, seg: SymbolId, i: usize, span: Span)
    requires
        old(ctx).wf(),
        old(ctx).diagnostics@.len() < usize::MAX,
    ensures
        final(ctx).wf(),
        diagnostic_added(
            *old(ctx),
            *final(ctx),
            DiagnosticLevel::Error,
            span,
            missing_message(i as nat, symbol_text(old(ctx).interner@, seg)),
            Seq::empty(),
            Seq::empty(),
        ),
{
    let msg = if i == 0 {
        concat3("Cannot find type `", ctx.resolve(seg), "` in this scope")
    } else {
        concat3("Cannot find `", ctx.resolve(seg), "` in the target module")
    };
    proof {
        reveal_strlit("Cannot find type `");
        reveal_strlit("` in this scope");
        reveal_strlit("Cannot find `");
        reveal_strlit("` in the target module");
    }
    ctx.emit_error(span, msg);
}

/// Where the symbol that a segment names is stored: a scope of the table
/// whose symbols hold the segment's name.
proof fn lemma_segment_member(scopes: Seq<ScopeView>, segs: Seq<SymbolId>, i: nat, curr: ScopeId) -> (k: int)
    requires
        i < segs.len(),
        segment_symbol(scopes, segs, i, curr) is Some,
    ensures
        0 <= k < scopes.len(),
        scopes[k].symbols.contains_key(segs[i as int].0),
        scopes[k].symbols[segs[i as int].0] == segment_symbol(scopes, segs, i, curr).unwrap(),
{
    if i == 0 {
        lemma_lookup_member(scopes, Some(curr), segs[0].0)
    } else {
        curr.0 as int
    }
}

proof fn lemma_lookup_member(scopes: Seq<ScopeView>, from: Option<ScopeId>, name: u32) -> (k: int)
    requires
        lookup_in_scopes(scopes, from, name) is Some,
    ensures
        0 <= k < scopes.len(),
        scopes[k].symbols.contains_key(name),
        scopes[k].symbols[name] == lookup_in_scopes(scopes, from, name).unwrap(),
    decreases
        match from {
            Some(s) => s.0 + 1,
            None => 0,
        },
{
    let s = from.unwrap();
    if scopes[s.0 as int].symbols.contains_key(name) {
        s.0 as int
    } else {
        let p = scopes[s.0 as int].parent.unwrap();
        lemma_lookup_member(scopes, Some(p), name)
    }
}

/// The type that the symbol `sym` at the end of a path stands for, with the
/// generic arguments `generics`; `last` is the path's last segment.
fn finish_path(
    ctx: &mut Context,
    defs: &Vec<DefLink>,
    sym: SymbolInfo,
    last: SymbolId,
    generics: Vec<TypeId>,
    span: Span,
) -> (r: TypeId)
    requires
        old(ctx).wf(),
        sym.type_id.0 < old(ctx).type_registry@.len(),
        sym.kind == SymbolKind::Struct || sym.kind == SymbolKind::Union || sym.kind == SymbolKind::Enum
            || sym.kind == SymbolKind::Adt || sym.kind == SymbolKind::Trait ==> sym.def_id is Some,
        sym.kind == SymbolKind::TypeAlias ==> alias_params(defs@, sym) is Some,
        forall|j: int| 0 <= j < generics@.len() ==> old(ctx).type_registry.contains(#[trigger] generics@[j]),
        old(ctx).type_registry@.len() < u32::MAX,
        old(ctx).diagnostics@.len() < usize::MAX,
        sym.kind == SymbolKind::TypeAlias ==> old(ctx).type_registry@.len() + subst_size(
            old(ctx).type_registry@,
            sym.type_id,
        ) <= u32::MAX,
    ensures
        final(ctx).wf(),
        rest_kept(*old(ctx), *final(ctx)),
        final(ctx).scopes == old(ctx).scopes,
        found_outcome(
            *old(ctx),
            *final(ctx),
            defs@,
            sym,
            symbol_text(old(ctx).interner@, last),
            generics@,
            span,
            r,
        ),
{
    match sym.kind {
        SymbolKind::Struct | SymbolKind::Union | SymbolKind::Enum => {
            let d = sym.def_id.unwrap();
            ctx.type_registry.intern(TypeKind::Def(d, generics))
        },
        SymbolKind::Adt => {
            let d = sym.def_id.unwrap();
            ctx.type_registry.intern(TypeKind::Adt(d, generics))
        },
        SymbolKind::Trait => {
            let d = sym.def_id.unwrap();
            ctx.type_registry.intern(TypeKind::TraitObject(d, generics))
        },
        SymbolKind::TypeParam => {
            if generics.len() > 0 {
                ctx.emit_error(span, "Type parameters cannot take generic arguments".to_owned());
            }
            sym.type_id
        },
        SymbolKind::TypeAlias => {
            if generics.len() == 0 {
                return sym.type_id;
            }
            let d = sym.def_id.unwrap();
            match &defs[d.0 as usize] {
                DefLink::TypeAlias { params, .. } => {
                    if params.len() != generics.len() {
                        let a = concat3("Type alias `", ctx.resolve(last), "` expects ");
                        let e = decimal_text(params.len());
                        let b = concat3(a.as_str(), e.as_str(), " generic arguments, but ");
                        let g = decimal_text(generics.len());
                        let c = concat3(b.as_str(), g.as_str(), " were provided");
                        proof {
                            reveal_strlit("Type alias `");
                            reveal_strlit("` expects ");
                            reveal_strlit(" generic arguments, but ");
                            reveal_strlit(" were provided");
                        }
                        ctx.emit_error(span, c);
                        TypeId::error()
                    } else {
                        let mut map: HashMap<u32, TypeId> = HashMap::new();
                        let mut k: usize = 0;
                        while k < params.len()
                            invariant
                                0 <= k <= params@.len(),
                                params@.len() == generics@.len(),
                                map@ == alias_bindings(params@, generics@, k as nat),
                                forall|j: int| 0 <= j < generics@.len() ==> ctx.type_registry.contains(#[trigger] generics@[j]),
                                forall|key: u32| #[trigger] map@.contains_key(key) ==> ctx.type_registry.contains(map@[key]),
                            decreases params.len() - k,
                        {
                            map.insert(params[k].0, generics[k]);
                            k = k + 1;
                        }
                        let sub = Substituter::new(&map);
                        sub.substitute(&mut ctx.type_registry, sym.type_id)
                    }
                },
                _ => {
                    proof {
                        assert(false);
                    }
                    TypeId::error()
                },
            }
        },
        _ => {
            let a = concat3("`", ctx.resolve(last), "` is a ");
            let msg = concat3(a.as_str(), kind_to_string(sym.kind), ", not a type");
            proof {
                reveal_strlit("`");
                reveal_strlit("` is a ");
                reveal_strlit(", not a type");
            }
            ctx.emit_error(span, msg);
            TypeId::error()
        },
    }
}

/// The module that definition `d` is, if it is one: its scope, the module
/// it is declared in and its name.
pub open spec fn def_module(defs: Seq<DefLink>, d: DefId) -> Option<(ScopeId, Option<DefId>, SymbolId)> {
    if d.0 < defs.len() {
        match defs[d.0 as int] {
            DefLink::Module { scope, parent, name, .. } => Some((scope, parent, name)),
            _ => None,
        }
    } else {
        None
    }
}

/// Definition `d` is a module whose scope is one of the table.
pub open spec fn is_module_def(defs: Seq<DefLink>, d: DefId, nscopes: nat) -> bool {
    def_module(defs, d) matches Some(m) && m.0.0 < nscopes
}

/// Definition `d` is the module named `init`.
pub open spec fn is_init_module(defs: Seq<DefLink>, names: Seq<Seq<char>>, d: DefId) -> bool {
    def_module(defs, d) matches Some(m) && symbol_text(names, m.2) == "init"@
}

/// Where an import path ends.
pub enum ImportTarget {
    /// The module and its scope.
    Module(DefId, ScopeId),
    /// `..` from a module declared in the `init` module.
    ParentIsInit,
    /// `..` from a module that is declared in no module.
    TopLevel,
    /// The segment at this index names something other than a module.
    NotModule(nat),
    /// The segment at this index is not found.
    Missing(nat),
}

/// Walking the segments of an import path from index `i` on, in module
/// `m` with scope `scope`: each segment must name a module of that scope.
pub open spec fn import_walk(
    scopes: Seq<ScopeView>,
    defs: Seq<DefLink>,
    path: Seq<SymbolId>,
    i: nat,
    m: DefId,
    scope: ScopeId,
) -> ImportTarget
    decreases path.len() - i,
{
    if i >= path.len() {
        ImportTarget::Module(m, scope)
    } else if scope.0 < scopes.len() && scopes[scope.0 as int].symbols.contains_key(path[i as int].0) {
        let sym = scopes[scope.0 as int].symbols[path[i as int].0];
        if sym.kind == SymbolKind::Module && sym.def_id is Some {
            match def_module(defs, sym.def_id.unwrap()) {
                Some(t) => import_walk(scopes, defs, path, i + 1, sym.def_id.unwrap(), t.0),
                None => ImportTarget::NotModule(i),
            }
        } else {
            ImportTarget::NotModule(i)
        }
    } else {
        ImportTarget::Missing(i)
    }
}

/// Where an import path of the given kind, written in module `current`,
/// leads: an absolute path starts at the root module, a relative one at
/// `current`, and one with `..` at the module `current` is declared in.
pub open spec fn import_target(
    scopes: Seq<ScopeView>,
    defs: Seq<DefLink>,
    names: Seq<Seq<char>>,
    current: DefId,
    kind: UsePathKind,
    path: Seq<SymbolId>,
) -> ImportTarget {
    match kind {
        UsePathKind::Absolute => import_walk(scopes, defs, path, 0, DefId(0), ScopeId(0)),
        UsePathKind::Relative => import_walk(scopes, defs, path, 0, current, def_module(defs, current).unwrap().0),
        UsePathKind::Super => match def_module(defs, current).unwrap().1 {
            Some(p) => if is_init_module(defs, names, p) {
                ImportTarget::ParentIsInit
            } else {
                import_walk(scopes, defs, path, 0, p, def_module(defs, p).unwrap().0)
            },
            None => ImportTarget::TopLevel,
        },
    }
}

/// What resolving an import path reports, if errors are wanted.
pub open spec fn import_reported(before: Context, after: Context, names: Seq<Seq<char>>, path: Seq<SymbolId>, target: ImportTarget, span: Span) -> bool {
    match target {
        ImportTarget::Module(_, _) => after == before,
        ImportTarget::ParentIsInit => diagnostic_added(
            before,
            after,
            DiagnosticLevel::Error,
            span,
            "Child modules are strictly forbidden from importing `init.kn` contents"@,
            Seq::empty(),
            Seq::empty(),
        ),
        ImportTarget::TopLevel => diagnostic_added(
            before,
            after,
            DiagnosticLevel::Error,
            span,
            "Cannot use `..` because the current module is a top-level module"@,
            Seq::empty(),
            Seq::empty(),
        ),
        ImportTarget::NotModule(i) => diagnostic_added(
            before,
            after,
            DiagnosticLevel::Error,
            span,
            not_module_message(symbol_text(names, path[i as int])),
            seq!["only modules can be used in the intermediate segments of an import path"@],
            Seq::empty(),
        ),
        ImportTarget::Missing(i) => diagnostic_added(
            before,
            after,
            DiagnosticLevel::Error,
            span,
            "Unresolved import: cannot find module `"@ + symbol_text(names, path[i as int]) + "`"@,
            Seq::empty(),
            Seq::empty(),
        ),
    }
}

/// Resolve the module path of an import written in module `current`: the
/// module it names and that module's scope, or `None` where a segment is
/// missing or not a module, or `..` cannot be used. Those failures are
/// reported where `emit_errors` asks for it.
pub fn resolve_import_path(
    ctx: &mut Context,
    defs: &Vec<DefLink>,
    current: DefId,
    kind: UsePathKind,
    path: &Vec<SymbolId>,
    span: Span,
    emit_errors: bool,
) -> (r: Option<(DefId, ScopeId)>)
    requires
        old(ctx).wf(),
        old(ctx).diagnostics@.len() < usize::MAX,
        old(ctx).scopes.has_scope(ScopeId(0)),
        links_fit(old(ctx).scopes.scopes(), defs@, old(ctx).type_registry@.len()),
        is_module_def(defs@, current, old(ctx).scopes.scopes().len()),
        match def_module(defs@, current).unwrap().1 {
            Some(p) => is_module_def(defs@, p, old(ctx).scopes.scopes().len()),
            None => true,
        },
    ensures
        r matches Some(found) ==> found.1.0 < old(ctx).scopes.scopes().len(),
        ({
            let target = import_target(
                old(ctx).scopes.scopes(),
                defs@,
                old(ctx).interner@,
                current,
                kind,
                path@,
            );
            &&& r == match target {
                ImportTarget::Module(m, s) => Some((m, s)),
                _ => None,
            }
            &&& if emit_errors {
                import_reported(*old(ctx), *final(ctx), old(ctx).interner@, path@, target, span)
            } else {
                *final(ctx) == *old(ctx)
            }
        }),
{
    let ghost scopes = ctx.scopes.scopes();
    let (mut curr_mod, mut curr_scope) = match kind {
        UsePathKind::Absolute => (DefId(0), ScopeId(0)),
        UsePathKind::Relative => match &defs[current.0 as usize] {
            DefLink::Module { scope, .. } => (current, *scope),
            _ => {
                proof {
                    assert(false);
                }
                return None;
            },
        },
        UsePathKind::Super => {
            let parent = match &defs[current.0 as usize] {
                DefLink::Module { parent, .. } => *parent,
                _ => {
                    proof {
                        assert(false);
                    }
                    return None;
                },
            };
            match parent {
                Some(p) => match &defs[p.0 as usize] {
                    DefLink::Module { scope, name, .. } => {
                        if text_eq(ctx.resolve(*name), "init") {
                            if emit_errors {
                                proof {
                                    reveal_strlit("Child modules are strictly forbidden from importing `init.kn` contents");
                                }
                                ctx.emit_error(
                                    span,
                                    "Child modules are strictly forbidden from importing `init.kn` contents".to_owned(),
                                );
                            }
                            return None;
                        }
                        (p, *scope)
                    },
                    _ => {
                        proof {
                            assert(false);
                        }
                        return None;
                    },
                },
                None => {
                    if emit_errors {
                        proof {
                            reveal_strlit("Cannot use `..` because the current module is a top-level module");
                        }
                        ctx.emit_error(
                            span,
                            "Cannot use `..` because the current module is a top-level module".to_owned(),
                        );
                    }
                    return None;
                },
            }
        },
    };
    let ghost goal = import_target(scopes, defs@, old(ctx).interner@, current, kind, path@);
    assert(*ctx == *old(ctx));
    let mut i: usize = 0;
    while i < path.len()
        invariant
            *ctx == *old(ctx),
            goal == import_target(old(ctx).scopes.scopes(), defs@, old(ctx).interner@, current, kind, path@),
            ctx.wf(),
            scopes == ctx.scopes.scopes(),
            ctx.diagnostics@.len() < usize::MAX,
            0 <= i <= path@.len(),
            curr_scope.0 < scopes.len(),
            links_fit(scopes, defs@, ctx.type_registry@.len()),
            import_walk(scopes, defs@, path@, i as nat, curr_mod, curr_scope) == goal,
        decreases path.len() - i,
    {
        let seg = path[i];
        let found: Option<SymbolInfo> = match ctx.scopes.resolve_in(curr_scope, seg) {
            Some(s) => Some(*s),
            None => None,
        };
        match found {
            Some(sym) => {
                if sym.kind == SymbolKind::Module && sym.def_id.is_some() {
                    let d = sym.def_id.unwrap();
                    proof {
                        assert(scopes[curr_scope.0 as int].symbols.contains_key(seg.0));
                    }
                    match &defs[d.0 as usize] {
                        DefLink::Module { scope, .. } => {
                            curr_mod = d;
                            curr_scope = *scope;
                            i = i + 1;
                        },
                        _ => {
                            proof {
                                assert(false);
                            }
                            return None;
                        },
                    }
                } else {
                    if emit_errors {
                        let msg = concat3("`", ctx.resolve(seg), "` is not a module");
                        proof {
                            reveal_strlit("`");
                            reveal_strlit("` is not a module");
                            reveal_strlit("only modules can be used in the intermediate segments of an import path");
                        }
                        let b = ctx.struct_error(span, msg).with_hint(
                            "only modules can be used in the intermediate segments of an import path".to_owned(),
                        );
                        proof {
                            assert(b.pending().hint_texts() =~= seq![
                                "only modules can be used in the intermediate segments of an import path"@,
                            ]);
                        }
                        b.emit(ctx);
                    }
                    return None;
                }
            },
            None => {
                if emit_errors {
                    let msg = concat3("Unresolved import: cannot find module `", ctx.resolve(seg), "`");
                    proof {
                        reveal_strlit("Unresolved import: cannot find module `");
                        reveal_strlit("`");
                    }
                    ctx.emit_error(span, msg);
                }
                return None;
            },
        }
    }
    Some((curr_mod, curr_scope))
}

} // verus!
