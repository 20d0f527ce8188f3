use crate::driver::context::Context;
use crate::parser::ast::{GenericParam, NodeId};
use crate::sema::scope::{defined_in, ScopeId, ScopeView, SymbolInfo, SymbolKind};
use crate::sema::ty::{interned, PrimitiveType, TypeId, TypeKind, TypeShape};
use crate::utils::{interned_str, text_eq, Span, SymbolId};
use vstd::prelude::*;

verus! {

// Pieces of resolving written types.

/// The primitive type that a built-in type name stands for.
pub open spec fn builtin_primitive(name: Seq<char>) -> Option<PrimitiveType> {
    if name == "void"@ {
        Some(PrimitiveType::Void)
    } else if name == "bool"@ {
        Some(PrimitiveType::Bool)
    } else if name == "i8"@ {
        Some(PrimitiveType::I8)
    } else if name == "i16"@ {
        Some(PrimitiveType::I16)
    } else if name == "i32"@ {
        Some(PrimitiveType::I32)
    } else if name == "i64"@ {
        Some(PrimitiveType::I64)
    } else if name == "i128"@ {
        Some(PrimitiveType::I128)
    } else if name == "isize"@ {
        Some(PrimitiveType::ISize)
    } else if name == "u8"@ {
        Some(PrimitiveType::U8)
    } else if name == "u16"@ {
        Some(PrimitiveType::U16)
    } else if name == "u32"@ {
        Some(PrimitiveType::U32)
    } else if name == "u64"@ {
        Some(PrimitiveType::U64)
    } else if name == "u128"@ {
        Some(PrimitiveType::U128)
    } else if name == "usize"@ {
        Some(PrimitiveType::USize)
    } else if name == "f32"@ {
        Some(PrimitiveType::F32)
    } else if name == "f64"@ {
        Some(PrimitiveType::F64)
    } else if name == "str"@ {
        Some(PrimitiveType::Str)
    } else {
        None
    }
}

/// A fixed-width integer primitive: its width in bits and whether it is
/// signed.
pub open spec fn width_and_sign(p: PrimitiveType) -> Option<(nat, bool)> {
    match p {
        PrimitiveType::I8 => Some((8, true)),
        PrimitiveType::I16 => Some((16, true)),
        PrimitiveType::I32 => Some((32, true)),
        PrimitiveType::I64 => Some((64, true)),
        PrimitiveType::I128 => Some((128, true)),
        PrimitiveType::U8 => Some((8, false)),
        PrimitiveType::U16 => Some((16, false)),
        PrimitiveType::U32 => Some((32, false)),
        PrimitiveType::U64 => Some((64, false)),
        PrimitiveType::U128 => Some((128, false)),
        _ => None,
    }
}

/// Built-in type names name distinct types, and the integer names say
/// what they name: `iN` is the signed and `uN` the unsigned integer of
/// `N` bits, for `N` of 8, 16, 32, 64 and 128.
pub proof fn law_builtin_type_names(a: Seq<char>, b: Seq<char>)
    ensures
        builtin_primitive(a) is Some && builtin_primitive(a) == builtin_primitive(b) ==> a == b,
        width_and_sign(builtin_primitive("i8"@).unwrap()) == Some((8nat, true)),
        width_and_sign(builtin_primitive("i16"@).unwrap()) == Some((16nat, true)),
        width_and_sign(builtin_primitive("i32"@).unwrap()) == Some((32nat, true)),
        width_and_sign(builtin_primitive("i64"@).unwrap()) == Some((64nat, true)),
        width_and_sign(builtin_primitive("i128"@).unwrap()) == Some((128nat, true)),
        width_and_sign(builtin_primitive("u8"@).unwrap()) == Some((8nat, false)),
        width_and_sign(builtin_primitive("u16"@).unwrap()) == Some((16nat, false)),
        width_and_sign(builtin_primitive("u32"@).unwrap()) == Some((32nat, false)),
        width_and_sign(builtin_primitive("u64"@).unwrap()) == Some((64nat, false)),
        width_and_sign(builtin_primitive("u128"@).unwrap()) == Some((128nat, false)),
        builtin_primitive("bool"@) == Some(PrimitiveType::Bool),
        builtin_primitive("usize"@) == Some(PrimitiveType::USize),
        builtin_primitive("isize"@) == Some(PrimitiveType::ISize),
        builtin_primitive("f32"@) == Some(PrimitiveType::F32),
        builtin_primitive("f64"@) == Some(PrimitiveType::F64),
        builtin_primitive("void"@) == Some(PrimitiveType::Void),
{
    reveal_strlit("void");
    reveal_strlit("bool");
    reveal_strlit("i8");
    reveal_strlit("i16");
    reveal_strlit("i32");
    reveal_strlit("i64");
    reveal_strlit("i128");
    reveal_strlit("isize");
    reveal_strlit("u8");
    reveal_strlit("u16");
    reveal_strlit("u32");
    reveal_strlit("u64");
    reveal_strlit("u128");
    reveal_strlit("usize");
    reveal_strlit("f32");
    reveal_strlit("f64");
    reveal_strlit("str");
    assert("void"@.len() == 4 && "void"@[0] == 'v' && "void"@[1] == 'o' && "void"@[2] == 'i' && "void"@[3] == 'd');
    assert("bool"@.len() == 4 && "bool"@[0] == 'b' && "bool"@[1] == 'o' && "bool"@[2] == 'o' && "bool"@[3] == 'l');
    assert("i8"@.len() == 2 && "i8"@[0] == 'i' && "i8"@[1] == '8');
    assert("i16"@.len() == 3 && "i16"@[0] == 'i' && "i16"@[1] == '1' && "i16"@[2] == '6');
    assert("i32"@.len() == 3 && "i32"@[0] == 'i' && "i32"@[1] == '3' && "i32"@[2] == '2');
    assert("i64"@.len() == 3 && "i64"@[0] == 'i' && "i64"@[1] == '6' && "i64"@[2] == '4');
    assert("i128"@.len() == 4 && "i128"@[0] == 'i' && "i128"@[1] == '1' && "i128"@[2] == '2' && "i128"@[3] == '8');
    assert("isize"@.len() == 5 && "isize"@[0] == 'i' && "isize"@[1] == 's' && "isize"@[2] == 'i' && "isize"@[3] == 'z' && "isize"@[4] == 'e');
    assert("u8"@.len() == 2 && "u8"@[0] == 'u' && "u8"@[1] == '8');
    assert("u16"@.len() == 3 && "u16"@[0] == 'u' && "u16"@[1] == '1' && "u16"@[2] == '6');
    assert("u32"@.len() == 3 && "u32"@[0] == 'u' && "u32"@[1] == '3' && "u32"@[2] == '2');
    assert("u64"@.len() == 3 && "u64"@[0] == 'u' && "u64"@[1] == '6' && "u64"@[2] == '4');
    assert("u128"@.len() == 4 && "u128"@[0] == 'u' && "u128"@[1] == '1' && "u128"@[2] == '2' && "u128"@[3] == '8');
    assert("usize"@.len() == 5 && "usize"@[0] == 'u' && "usize"@[1] == 's' && "usize"@[2] == 'i' && "usize"@[3] == 'z' && "usize"@[4] == 'e');
    assert("f32"@.len() == 3 && "f32"@[0] == 'f' && "f32"@[1] == '3' && "f32"@[2] == '2');
    assert("f64"@.len() == 3 && "f64"@[0] == 'f' && "f64"@[1] == '6' && "f64"@[2] == '4');
    assert("str"@.len() == 3 && "str"@[0] == 's' && "str"@[1] == 't' && "str"@[2] == 'r');
}

/// The reserved type of a built-in type name such as `i32` or `usize`.
pub fn resolve_builtin_primitive(name: &str) -> (r: Option<TypeId>)
    ensures
        r == match builtin_primitive(name@) {
            Some(p) => Some(TypeId::spec_primitive(p)),
            None => None,
        },
{
    let p = if text_eq(name, "void") {
        PrimitiveType::Void
    } else if text_eq(name, "bool") {
        PrimitiveType::Bool
    } else if text_eq(name, "i8") {
        PrimitiveType::I8
    } else if text_eq(name, "i16") {
        PrimitiveType::I16
    } else if text_eq(name, "i32") {
        PrimitiveType::I32
    } else if text_eq(name, "i64") {
        PrimitiveType::I64
    } else if text_eq(name, "i128") {
        PrimitiveType::I128
    } else if text_eq(name, "isize") {
        PrimitiveType::ISize
    } else if text_eq(name, "u8") {
        PrimitiveType::U8
    } else if text_eq(name, "u16") {
        PrimitiveType::U16
    } else if text_eq(name, "u32") {
        PrimitiveType::U32
    } else if text_eq(name, "u64") {
        PrimitiveType::U64
    } else if text_eq(name, "u128") {
        PrimitiveType::U128
    } else if text_eq(name, "usize") {
        PrimitiveType::USize
    } else if text_eq(name, "f32") {
        PrimitiveType::F32
    } else if text_eq(name, "f64") {
        PrimitiveType::F64
    } else if text_eq(name, "str") {
        PrimitiveType::Str
    } else {
        return None;
    };
    Some(TypeId::primitive(p))
}

/// How a symbol of this kind is named in messages about it.
pub fn kind_to_string(kind: SymbolKind) -> (r: &'static str)
    ensures
        r@ == (match kind {
            SymbolKind::Var => "variable"@,
            SymbolKind::Const => "constant"@,
            SymbolKind::Static => "static variable"@,
            SymbolKind::Function => "function"@,
            SymbolKind::Module => "module"@,
            SymbolKind::Struct => "struct"@,
            SymbolKind::Enum => "enum"@,
            SymbolKind::Union => "union"@,
            SymbolKind::Adt => "algebraic data type"@,
            SymbolKind::Trait => "trait"@,
            SymbolKind::TypeAlias => "type alias"@,
            SymbolKind::TypeParam => "type parameter"@,
        }),
{
    match kind {
        SymbolKind::Var => "variable",
        SymbolKind::Const => "constant",
        SymbolKind::Static => "static variable",
        SymbolKind::Function => "function",
        SymbolKind::Module => "module",
        SymbolKind::Struct => "struct",
        SymbolKind::Enum => "enum",
        SymbolKind::Union => "union",
        SymbolKind::Adt => "algebraic data type",
        SymbolKind::Trait => "trait",
        SymbolKind::TypeAlias => "type alias",
        SymbolKind::TypeParam => "type parameter",
    }
}

/// Make `scope` current and bind `Self` in it to `target_ty`, as a type
/// alias with a fresh node id; where `Self` is already bound there, that
/// binding stays.
pub fn bind_self_type(ctx: &mut Context, target_ty: TypeId, scope: ScopeId, span: Span)
    requires
        old(ctx).wf(),
        old(ctx).scopes.has_scope(scope),
        old(ctx).interner@.len() < u32::MAX,
        old(ctx).next_node_id < u32::MAX,
    ensures
        final(ctx).wf(),
        ({
            let (names, sid) = interned_str(old(ctx).interner@, "Self"@);
            let info = SymbolInfo {
                kind: SymbolKind::TypeAlias,
                node_id: NodeId(old(ctx).next_node_id),
                type_id: target_ty,
                def_id: None,
                span,
                is_pub: false,
            };
            &&& final(ctx).interner@ == names
            &&& final(ctx).next_node_id == old(ctx).next_node_id + 1
            &&& final(ctx).scopes.current() == Some(scope)
            &&& if old(ctx).scopes.scopes()[scope.0 as int].symbols.contains_key(sid) {
                final(ctx).scopes.scopes() == old(ctx).scopes.scopes()
            } else {
                final(ctx).scopes.scopes() == defined_in(old(ctx).scopes.scopes(), scope, sid, info)
            }
        }),
        final(ctx).diagnostics == old(ctx).diagnostics,
        final(ctx).error_count == old(ctx).error_count,
        final(ctx).type_registry == old(ctx).type_registry,
        final(ctx).target == old(ctx).target,
        final(ctx).custom_defines == old(ctx).custom_defines,
        final(ctx).module_aliases == old(ctx).module_aliases,
        final(ctx).use_color == old(ctx).use_color,
{
    ctx.scopes.set_current_scope(scope);
    let self_sym = ctx.intern("Self");
    let node_id = ctx.next_node_id();
    let info = SymbolInfo {
        kind: SymbolKind::TypeAlias,
        node_id,
        type_id: target_ty,
        def_id: None,
        span,
        is_pub: false,
    };
    let _ = ctx.scopes.define(self_sym, info);
}

/// Binding one generic parameter in `scope`: its parameter type is looked
/// up or added, and it is declared as a type parameter with the next node
/// id (unless the scope declares the name already).
pub open spec fn bind_step(
    st: (Seq<ScopeView>, Seq<TypeShape>, nat),
    scope: ScopeId,
    p: GenericParam,
) -> (Seq<ScopeView>, Seq<TypeShape>, nat) {
    let (types, ty) = interned(st.1, TypeShape::Param(p.name));
    let info = SymbolInfo {
        kind: SymbolKind::TypeParam,
        node_id: NodeId(st.2 as u32),
        type_id: ty,
        def_id: None,
        span: p.span,
        is_pub: false,
    };
    let scopes = if st.0[scope.0 as int].symbols.contains_key(p.name.0) {
        st.0
    } else {
        defined_in(st.0, scope, p.name.0, info)
    };
    (scopes, types, st.2 + 1)
}

/// Binding the generic parameters `ps` in order.
pub open spec fn bind_fold(
    st: (Seq<ScopeView>, Seq<TypeShape>, nat),
    scope: ScopeId,
    ps: Seq<GenericParam>,
) -> (Seq<ScopeView>, Seq<TypeShape>, nat)
    decreases ps.len(),
{
    if ps.len() == 0 {
        st
    } else {
        bind_step(bind_fold(st, scope, ps.drop_last()), scope, ps.last())
    }
}

/// Make `scope` current and declare the generic parameters in it, each as
/// a type parameter whose type is the parameter type of its name.
pub fn bind_generics(ctx: &mut Context, generics: &Vec<GenericParam>, scope: ScopeId)
    requires
        old(ctx).wf(),
        old(ctx).scopes.has_scope(scope),
        old(ctx).type_registry@.len() + generics@.len() < u32::MAX,
        old(ctx).next_node_id + generics@.len() <= u32::MAX,
    ensures
        final(ctx).wf(),
        final(ctx).scopes.current() == Some(scope),
        (final(ctx).scopes.scopes(), final(ctx).type_registry@, final(ctx).next_node_id as nat)
            == bind_fold(
            (old(ctx).scopes.scopes(), old(ctx).type_registry@, old(ctx).next_node_id as nat),
            scope,
            generics@,
        ),
        final(ctx).interner == old(ctx).interner,
        final(ctx).diagnostics == old(ctx).diagnostics,
        final(ctx).error_count == old(ctx).error_count,
        final(ctx).target == old(ctx).target,
        final(ctx).custom_defines == old(ctx).custom_defines,
        final(ctx).module_aliases == old(ctx).module_aliases,
        final(ctx).use_color == old(ctx).use_color,
{
    ctx.scopes.set_current_scope(scope);
    let ghost start = (old(ctx).scopes.scopes(), old(ctx).type_registry@, old(ctx).next_node_id as nat);
    let mut i: usize = 0;
    assert(generics@.take(0) =~= Seq::<GenericParam>::empty());
    while i < generics.len()
        invariant
            0 <= i <= generics.len(),
            ctx.wf(),
            ctx.scopes.current() == Some(scope),
            ctx.scopes.has_scope(scope),
            ctx.type_registry@.len() <= old(ctx).type_registry@.len() + i,
            ctx.next_node_id == old(ctx).next_node_id + i,
            old(ctx).type_registry@.len() + generics@.len() < u32::MAX,
            old(ctx).next_node_id + generics@.len() <= u32::MAX,
            start == (old(ctx).scopes.scopes(), old(ctx).type_registry@, old(ctx).next_node_id as nat),
            (ctx.scopes.scopes(), ctx.type_registry@, ctx.next_node_id as nat) == bind_fold(
                start,
                scope,
                generics@.take(i as int),
            ),
            ctx.interner == old(ctx).interner,
            ctx.diagnostics == old(ctx).diagnostics,
            ctx.error_count == old(ctx).error_count,
            ctx.target == old(ctx).target,
            ctx.custom_defines == old(ctx).custom_defines,
            ctx.module_aliases == old(ctx).module_aliases,
            ctx.use_color == old(ctx).use_color,
        decreases generics.len() - i,
    {
        let p = &generics[i];
        let ghost before = (ctx.scopes.scopes(), ctx.type_registry@, ctx.next_node_id as nat);
        let param_ty = ctx.type_registry.intern(TypeKind::Param(p.name));
        let node_id = ctx.next_node_id();
        let info = SymbolInfo {
            kind: SymbolKind::TypeParam,
            node_id,
            type_id: param_ty,
            def_id: None,
            span: p.span,
            is_pub: false,
        };
        let _ = ctx.scopes.define(p.name, info);
        proof {
            assert(generics@.take(i + 1).drop_last() =~= generics@.take(i as int));
            assert(generics@.take(i + 1).last() == generics@[i as int]);
            assert((ctx.scopes.scopes(), ctx.type_registry@, ctx.next_node_id as nat) == bind_step(
                before,
                scope,
                generics@[i as int],
            ));
        }
        i = i + 1;
    }
    proof {
        assert(generics@.take(generics@.len() as int) =~= generics@);
    }
}

} // verus!
