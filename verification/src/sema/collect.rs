use crate::driver::context::{diagnostic_added, Context};
use crate::driver::diagnostic::DiagnosticLevel;
use crate::parser::ast::NodeId;
use crate::sema::scope::{defined_in, SymbolInfo, SymbolKind};
use crate::sema::ty::{DefId, TypeId};
use crate::utils::{concat3, symbol_text, text_eq, Span, SymbolId};
use vstd::prelude::*;

verus! {

// Declaring the names of items in the scopes.

pub open spec fn defined_twice_message(name: Seq<char>) -> Seq<char> {
    "the name `"@ + name + "` is defined multiple times"@
}

pub open spec fn defined_once_hint(name: Seq<char>) -> Seq<char> {
    "`"@ + name + "` must be defined only once in the same scope"@
}

pub open spec fn previous_definition_label(name: Seq<char>) -> Seq<char> {
    "previous definition of `"@ + name + "` was here"@
}

/// Declare `name` in the current scope, its type not known yet. The name
/// `_` is not declared. A name already declared in the scope keeps its
/// declaration, and an error points at both places.
pub fn define_symbol(
    ctx: &mut Context,
    name: SymbolId,
    kind: SymbolKind,
    node_id: NodeId,
    def_id: Option<DefId>,
    span: Span,
    is_pub: bool,
)
    requires
        old(ctx).wf(),
        old(ctx).scopes.current() is Some,
        old(ctx).diagnostics@.len() < usize::MAX,
    ensures
        final(ctx).wf(),
        ({
            let text = symbol_text(old(ctx).interner@, name);
            let c = old(ctx).scopes.current().unwrap();
            let syms = old(ctx).scopes.scopes()[c.0 as int].symbols;
            let info = SymbolInfo { kind, node_id, type_id: TypeId::spec_error(), def_id, span, is_pub };
            if text == "_"@ {
                *final(ctx) == *old(ctx)
            } else if syms.contains_key(name.0) {
                diagnostic_added(
                    *old(ctx),
                    *final(ctx),
                    DiagnosticLevel::Error,
                    span,
                    defined_twice_message(text),
                    seq![defined_once_hint(text)],
                    seq![(syms[name.0].span, previous_definition_label(text))],
                )
            } else {
                &&& final(ctx).scopes.scopes() == defined_in(old(ctx).scopes.scopes(), c, name.0, info)
                &&& final(ctx).scopes.current() == old(ctx).scopes.current()
                &&& final(ctx).interner == old(ctx).interner
                &&& final(ctx).diagnostics == old(ctx).diagnostics
                &&& final(ctx).error_count == old(ctx).error_count
                &&& final(ctx).type_registry == old(ctx).type_registry
                &&& final(ctx).target == old(ctx).target
                &&& final(ctx).custom_defines == old(ctx).custom_defines
                &&& final(ctx).module_aliases == old(ctx).module_aliases
                &&& final(ctx).next_node_id == old(ctx).next_node_id
                &&& final(ctx).use_color == old(ctx).use_color
            }
        }),
{
    if text_eq(ctx.resolve(name), "_") {
        return;
    }
    let info = SymbolInfo { kind, node_id, type_id: TypeId::error(), def_id, span, is_pub };
    match ctx.scopes.define(name, info) {
        Ok(()) => {},
        Err(old_info) => {
            let name_str = ctx.resolve(name);
            let msg = concat3("the name `", name_str, "` is defined multiple times");
            let hint = concat3("`", name_str, "` must be defined only once in the same scope");
            let label = concat3("previous definition of `", name_str, "` was here");
            let b = ctx.struct_error(span, msg).with_hint(hint).with_span_label(old_info.span, label);
            proof {
                let text = symbol_text(ctx.interner@, name);
                assert(Seq::<Seq<char>>::empty().push(defined_once_hint(text)) =~= seq![
                    defined_once_hint(text),
                ]);
                assert(Seq::<(Span, Seq<char>)>::empty().push((old_info.span, previous_definition_label(text)))
                    =~= seq![(old_info.span, previous_definition_label(text))]);
            }
            let _ = b.emit(ctx);
        },
    }
}

} // verus!
