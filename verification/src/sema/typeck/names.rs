use super::expr::ExprChecker;
use crate::driver::context::{diagnostic_added, Context};
use crate::driver::diagnostic::DiagnosticLevel;
use crate::parser::ast::NodeId;
use crate::sema::scope::{defined_in, SymbolInfo, SymbolKind};
use crate::sema::ty::{interned, PrimitiveType, TypeId, TypeKind, TypeShape};
use crate::utils::{concat3, interned_str, symbol_text, Span, SymbolId};
use vstd::prelude::*;

verus! {

// Typing names: identifiers, `self`, and the bindings of `let` and
// `static`.

/// The symbol `name` resolves to from the current scope of `ctx`.
pub open spec fn visible(ctx: Context, name: SymbolId) -> Option<SymbolInfo> {
    ctx.scopes.lookup_from(ctx.scopes.current(), name.0)
}

/// `after` differs from `before` at most in its type registry.
pub open spec fn only_types_changed(before: Context, after: Context) -> bool {
    &&& after.interner == before.interner
    &&& after.diagnostics == before.diagnostics
    &&& after.error_count == before.error_count
    &&& after.scopes == before.scopes
    &&& after.target == before.target
    &&& after.custom_defines == before.custom_defines
    &&& after.module_aliases == before.module_aliases
    &&& after.next_node_id == before.next_node_id
    &&& after.use_color == before.use_color
}

pub open spec fn undeclared_message(name: Seq<char>) -> Seq<char> {
    "use of undeclared identifier `"@ + name + "`"@
}

impl ExprChecker {
    /// The type of the identifier `name`: the type of the symbol it
    /// resolves to, the function item type for a function, or the error
    /// type with an error reported where nothing is declared.
    pub fn check_identifier(&self, ctx: &mut Context, name: SymbolId, span: Span) -> (r: TypeId)
        requires
            old(ctx).wf(),
            old(ctx).diagnostics@.len() < usize::MAX,
            old(ctx).type_registry@.len() < u32::MAX,
            visible(*old(ctx), name) matches Some(info) ==> (info.kind == SymbolKind::Function
                ==> info.def_id is Some),
        ensures
            final(ctx).wf(),
            match visible(*old(ctx), name) {
                Some(info) => if info.kind == SymbolKind::Function {
                    &&& (final(ctx).type_registry@, r) == interned(
                        old(ctx).type_registry@,
                        TypeShape::FnDef(info.def_id.unwrap(), Seq::empty()),
                    )
                    &&& only_types_changed(*old(ctx), *final(ctx))
                } else {
                    r == info.type_id && *final(ctx) == *old(ctx)
                },
                None => {
                    &&& r == TypeId::spec_error()
                    &&& diagnostic_added(
                        *old(ctx),
                        *final(ctx),
                        DiagnosticLevel::Error,
                        span,
                        undeclared_message(symbol_text(old(ctx).interner@, name)),
                        seq!["make sure the variable or function is defined before using it"@],
                        Seq::empty(),
                    )
                },
            },
    {
        let found: Option<SymbolInfo> = match ctx.scopes.resolve(name) {
            Some(info) => Some(*info),
            None => None,
        };
        match found {
            Some(info) => {
                if info.kind == SymbolKind::Function {
                    let d = info.def_id.unwrap();
                    ctx.type_registry.intern(TypeKind::FnDef(d, Vec::new()))
                } else {
                    info.type_id
                }
            },
            None => {
                let msg = concat3("use of undeclared identifier `", ctx.resolve(name), "`");
                let b = ctx.struct_error(span, msg).with_hint(
                    "make sure the variable or function is defined before using it".to_owned(),
                );
                let _ = b.emit(ctx);
                TypeId::error()
            },
        }
    }

    /// The type of `self`: that of the `self` variable, else that of the
    /// `Self` type, else the error type with an error reported. Both names
    /// are interned first.
    pub fn check_self_value(&self, ctx: &mut Context, span: Span) -> (r: TypeId)
        requires
            old(ctx).wf(),
            old(ctx).diagnostics@.len() < usize::MAX,
            old(ctx).interner@.len() + 2 <= u32::MAX,
        ensures
            final(ctx).wf(),
            ({
                let (n1, i1) = interned_str(old(ctx).interner@, "self"@);
                let (n2, i2) = interned_str(n1, "Self"@);
                let scopes = old(ctx).scopes;
                &&& final(ctx).interner@ == n2
                &&& final(ctx).scopes == old(ctx).scopes
                &&& final(ctx).type_registry == old(ctx).type_registry
                &&& final(ctx).target == old(ctx).target
                &&& final(ctx).custom_defines == old(ctx).custom_defines
                &&& final(ctx).module_aliases == old(ctx).module_aliases
                &&& final(ctx).next_node_id == old(ctx).next_node_id
                &&& final(ctx).use_color == old(ctx).use_color
                &&& match (scopes.lookup_from(scopes.current(), i1), scopes.lookup_from(
                    scopes.current(),
                    i2,
                )) {
                    (Some(info), _) => r == info.type_id && final(ctx).diagnostics
                        == old(ctx).diagnostics && final(ctx).error_count == old(ctx).error_count,
                    (None, Some(info)) => r == info.type_id && final(ctx).diagnostics
                        == old(ctx).diagnostics && final(ctx).error_count == old(ctx).error_count,
                    (None, None) => {
                        let n = old(ctx).diagnostics@.len();
                        &&& r == TypeId::spec_error()
                        &&& final(ctx).diagnostics@.len() == n + 1
                        &&& final(ctx).diagnostics@.take(n as int) == old(ctx).diagnostics@
                        &&& final(ctx).diagnostics@[n as int].level == DiagnosticLevel::Error
                        &&& final(ctx).diagnostics@[n as int].primary_span == span
                        &&& final(ctx).diagnostics@[n as int].message@
                            == "`self` is not available in this context"@
                        &&& final(ctx).diagnostics@[n as int].hint_texts() == seq![
                            "the `self` keyword is only valid inside method implementations"@,
                        ]
                        &&& final(ctx).error_count == old(ctx).error_count + 1
                    },
                }
            }),
    {
        let self_var = ctx.intern("self");
        let self_type = ctx.intern("Self");
        let found: Option<SymbolInfo> = match ctx.scopes.resolve(self_var) {
            Some(info) => Some(*info),
            None => match ctx.scopes.resolve(self_type) {
                Some(info) => Some(*info),
                None => None,
            },
        };
        match found {
            Some(info) => info.type_id,
            None => {
                let b = ctx.struct_error(
                    span,
                    "`self` is not available in this context".to_owned(),
                ).with_hint(
                    "the `self` keyword is only valid inside method implementations".to_owned(),
                );
                let _ = b.emit(ctx);
                TypeId::error()
            },
        }
    }

    /// Bind `name` in the current scope to the type of its initializer, as
    /// a variable (or a static); a name already bound there keeps its
    /// first binding. The binding itself has type `void`.
    pub fn check_let_or_static(
        &self,
        ctx: &mut Context,
        node_id: NodeId,
        name: SymbolId,
        init_ty: TypeId,
        is_static: bool,
        span: Span,
    ) -> (r: TypeId)
        requires
            old(ctx).wf(),
            old(ctx).scopes.current() is Some,
        ensures
            final(ctx).wf(),
            r == TypeId::spec_primitive(PrimitiveType::Void),
            ({
                let c = old(ctx).scopes.current().unwrap();
                let info = SymbolInfo {
                    kind: if is_static {
                        SymbolKind::Static
                    } else {
                        SymbolKind::Var
                    },
                    node_id,
                    type_id: init_ty,
                    def_id: None,
                    span,
                    is_pub: false,
                };
                if old(ctx).scopes.scopes()[c.0 as int].symbols.contains_key(name.0) {
                    final(ctx).scopes.scopes() == old(ctx).scopes.scopes()
                } else {
                    final(ctx).scopes.scopes() == defined_in(old(ctx).scopes.scopes(), c, name.0, info)
                }
            }),
            final(ctx).scopes.current() == old(ctx).scopes.current(),
            final(ctx).interner == old(ctx).interner,
            final(ctx).diagnostics == old(ctx).diagnostics,
            final(ctx).error_count == old(ctx).error_count,
            final(ctx).type_registry == old(ctx).type_registry,
            final(ctx).target == old(ctx).target,
            final(ctx).custom_defines == old(ctx).custom_defines,
            final(ctx).module_aliases == old(ctx).module_aliases,
            final(ctx).next_node_id == old(ctx).next_node_id,
            final(ctx).use_color == old(ctx).use_color,
    {
        let kind = if is_static {
            SymbolKind::Static
        } else {
            SymbolKind::Var
        };
        let info = SymbolInfo { kind, node_id, type_id: init_ty, def_id: None, span, is_pub: false };
        let _ = ctx.scopes.define(name, info);
        TypeId::primitive(PrimitiveType::Void)
    }
}

} // verus!
