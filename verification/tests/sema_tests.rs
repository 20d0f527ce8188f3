use kernc::sema::typeck::layout::{compute_type_align, compute_type_size};
use kernc::sema::resolve_path::DefLink;
use kernc::sema::typeck::report::{check_switch_exhaustiveness, report_coercion, report_issue, report_issues, report_switch_exhaustiveness};
use kernc::sema::typeck::intrinsics::{fold_int_intrinsic, int_intrinsic, IntIntrinsic};
use kernc::sema::typeck::rules::{CastCheck, TypeIssue};
use kernc::sema::resolve_types::{kind_to_string, resolve_builtin_primitive};
use kernc::sema::scope::{ScopeId, SymbolInfo, SymbolKind, SymbolTable};
use kernc::sema::ty::{PrimitiveType, TypeId, TypeKind, TypeRegistry};
use kernc::sema::typeck::const_eval::{
    align_to, eval_binary, eval_unary, expect_usize, primitive_align, primitive_size, ConstEvalError,
    ConstScalar,
};
use kernc::sema::typeck::expr::{Coercion, ExprChecker};
use kernc::sema::typeck::subst::Substituter;
use kernc::parser::ast::{BinaryOperator, DataLiteralKind, Expr, ExprKind, NodeId, SwitchCase, SwitchPattern, UnaryOperator};
use kernc::sema::typeck::const_expr::{eval_const_tree, eval_inner, eval_math, eval_usize, ConstFailure};
use kernc::sema::ty::DefId;
use kernc::utils::{Span, SymbolId};
use std::collections::HashMap;

fn info(kind: SymbolKind, ty: TypeId) -> SymbolInfo {
    SymbolInfo {
        kind,
        node_id: NodeId(0),
        type_id: ty,
        def_id: None,
        span: Span::new(0, 1),
        is_pub: false,
    }
}

#[test]
fn reserved_type_ids() {
    assert_eq!(TypeId::primitive(PrimitiveType::Void), TypeId(0));
    assert_eq!(TypeId::primitive(PrimitiveType::I32), TypeId(4));
    assert_eq!(TypeId::primitive(PrimitiveType::USize), TypeId(15));
    assert_eq!(TypeId::primitive(PrimitiveType::Str), TypeId(16));
    assert_eq!(TypeId::error(), TypeId(17));
    let reg = TypeRegistry::new();
    assert_eq!(reg.get(TypeId(4)), &TypeKind::Primitive(PrimitiveType::I32));
    assert_eq!(reg.get(TypeId(17)), &TypeKind::Error);
}

#[test]
fn registry_interns_each_shape_once() {
    let mut reg = TypeRegistry::new();
    let i32_ty = TypeId::primitive(PrimitiveType::I32);
    let p1 = reg.intern(TypeKind::Pointer(i32_ty));
    let p2 = reg.intern(TypeKind::Pointer(i32_ty));
    assert_eq!(p1, p2);
    assert_eq!(p1, TypeId(18));
    let s = reg.intern(TypeKind::Slice(i32_ty));
    assert_eq!(s, TypeId(19));
    assert_ne!(s, p1);
    // A primitive is found at its reserved id.
    assert_eq!(reg.intern(TypeKind::Primitive(PrimitiveType::Bool)), TypeId(1));
    // The error shape is found at its reserved id too.
    assert_eq!(reg.intern(TypeKind::Error), TypeId::error());
    assert_eq!(reg.intern(TypeKind::Pointer(TypeId::primitive(PrimitiveType::U8))), TypeId(20));
    assert_eq!(reg.get(p1), &TypeKind::Pointer(i32_ty));
}

#[test]
fn registry_normalize_and_mut() {
    let mut reg = TypeRegistry::new();
    let i32_ty = TypeId::primitive(PrimitiveType::I32);
    let m = reg.intern(TypeKind::Mut(i32_ty));
    let alias = reg.intern(TypeKind::Alias(SymbolId(5), m));
    assert_eq!(reg.normalize(alias), m);
    assert!(reg.is_mut(alias));
    assert_eq!(reg.strip_mut(alias), i32_ty);
    assert!(!reg.is_mut(i32_ty));
    assert_eq!(reg.strip_mut(i32_ty), i32_ty);
    assert!(reg.is_integer(i32_ty));
    assert!(!reg.is_integer(TypeId::primitive(PrimitiveType::F64)));
    assert!(reg.is_float(TypeId::primitive(PrimitiveType::F32)));
}

#[test]
fn registry_elem_type() {
    let mut reg = TypeRegistry::new();
    let u8_ty = TypeId::primitive(PrimitiveType::U8);
    let arr = reg.intern(TypeKind::Array { elem: u8_ty, len: 4 });
    let m = reg.intern(TypeKind::Mut(arr));
    let p = reg.intern(TypeKind::Pointer(u8_ty));
    assert_eq!(reg.get_elem_type(arr), Some(u8_ty));
    assert_eq!(reg.get_elem_type(m), Some(u8_ty));
    assert_eq!(reg.get_elem_type(p), Some(u8_ty));
    assert_eq!(reg.get_elem_type(u8_ty), None);
}

#[test]
fn symbol_table_define_and_resolve() {
    let mut t = SymbolTable::new();
    let x = SymbolId(1);
    let i32_ty = TypeId::primitive(PrimitiveType::I32);
    assert_eq!(t.current_scope_id(), Some(ScopeId(0)));
    assert_eq!(t.define(x, info(SymbolKind::Var, i32_ty)), Ok(()));
    assert_eq!(t.resolve(x).map(|i| i.type_id), Some(i32_ty));
    assert_eq!(t.resolve_local(x).map(|i| i.kind), Some(SymbolKind::Var));
    // A second definition in the same scope is refused with the first.
    let again = t.define(x, info(SymbolKind::Const, TypeId::primitive(PrimitiveType::Bool)));
    assert_eq!(again.map_err(|i| i.kind), Err(SymbolKind::Var));
    assert_eq!(t.resolve(SymbolId(2)), None);
}

#[test]
fn symbol_table_scopes_shadow_and_restore() {
    let mut t = SymbolTable::new();
    let x = SymbolId(1);
    let i32_ty = TypeId::primitive(PrimitiveType::I32);
    let bool_ty = TypeId::primitive(PrimitiveType::Bool);
    t.define(x, info(SymbolKind::Var, i32_ty)).unwrap();
    let inner = t.enter_scope();
    assert_eq!(inner, ScopeId(1));
    assert_eq!(t.current_scope_id(), Some(inner));
    // Visible from the inner scope, but not local to it.
    assert_eq!(t.resolve(x).map(|i| i.type_id), Some(i32_ty));
    assert!(t.resolve_local(x).is_none());
    t.define(x, info(SymbolKind::Var, bool_ty)).unwrap();
    assert_eq!(t.resolve(x).map(|i| i.type_id), Some(bool_ty));
    assert_eq!(t.resolve_in(ScopeId(0), x).map(|i| i.type_id), Some(i32_ty));
    t.exit_scope();
    assert_eq!(t.current_scope_id(), Some(ScopeId(0)));
    assert_eq!(t.resolve(x).map(|i| i.type_id), Some(i32_ty));
    t.set_current_scope(inner);
    assert_eq!(t.resolve(x).map(|i| i.type_id), Some(bool_ty));
}

#[test]
fn symbol_table_update_type_innermost() {
    let mut t = SymbolTable::new();
    let x = SymbolId(3);
    let i32_ty = TypeId::primitive(PrimitiveType::I32);
    let u64_ty = TypeId::primitive(PrimitiveType::U64);
    t.define(x, info(SymbolKind::Var, i32_ty)).unwrap();
    t.enter_scope();
    t.update_type(x, u64_ty);
    assert_eq!(t.resolve_in(ScopeId(0), x).map(|i| i.type_id), Some(u64_ty));
    // Updating an unknown name changes nothing.
    t.update_type(SymbolId(99), i32_ty);
    assert_eq!(t.resolve(SymbolId(99)), None);
}

#[test]
fn const_eval_integer_arithmetic() {
    assert_eq!(
        eval_binary(BinaryOperator::Add, &ConstScalar::Int(2), &ConstScalar::Int(3)),
        Ok(ConstScalar::Int(5))
    );
    assert_eq!(
        eval_binary(BinaryOperator::Add, &ConstScalar::Int(i128::MAX), &ConstScalar::Int(1)),
        Ok(ConstScalar::Int(i128::MIN))
    );
    assert_eq!(
        eval_binary(BinaryOperator::Multiply, &ConstScalar::Int(-4), &ConstScalar::Int(6)),
        Ok(ConstScalar::Int(-24))
    );
    assert_eq!(
        eval_binary(BinaryOperator::Divide, &ConstScalar::Int(-7), &ConstScalar::Int(2)),
        Ok(ConstScalar::Int(-3))
    );
    assert_eq!(
        eval_binary(BinaryOperator::Modulo, &ConstScalar::Int(-7), &ConstScalar::Int(2)),
        Ok(ConstScalar::Int(-1))
    );
    assert_eq!(
        eval_binary(BinaryOperator::Modulo, &ConstScalar::Int(7), &ConstScalar::Int(-2)),
        Ok(ConstScalar::Int(1))
    );
    assert_eq!(
        eval_binary(BinaryOperator::ShiftLeft, &ConstScalar::Int(1), &ConstScalar::Int(10)),
        Ok(ConstScalar::Int(1024))
    );
    assert_eq!(
        eval_binary(BinaryOperator::ShiftRight, &ConstScalar::Int(-16), &ConstScalar::Int(2)),
        Ok(ConstScalar::Int(-4))
    );
    assert_eq!(
        eval_binary(BinaryOperator::BitwiseXor, &ConstScalar::Int(0b1100), &ConstScalar::Int(0b1010)),
        Ok(ConstScalar::Int(0b0110))
    );
    assert_eq!(
        eval_binary(BinaryOperator::LessThan, &ConstScalar::Int(1), &ConstScalar::Int(2)),
        Ok(ConstScalar::Bool(true))
    );
}

#[test]
fn const_eval_errors() {
    assert_eq!(
        eval_binary(BinaryOperator::Divide, &ConstScalar::Int(1), &ConstScalar::Int(0)),
        Err(ConstEvalError::DivisionByZero)
    );
    assert_eq!(
        eval_binary(BinaryOperator::Modulo, &ConstScalar::Int(1), &ConstScalar::Int(0)),
        Err(ConstEvalError::ModuloByZero)
    );
    assert_eq!(
        eval_binary(BinaryOperator::LogicalAnd, &ConstScalar::Int(1), &ConstScalar::Int(0)),
        Err(ConstEvalError::UnsupportedIntOperator)
    );
    assert_eq!(
        eval_binary(BinaryOperator::Add, &ConstScalar::Bool(true), &ConstScalar::Bool(false)),
        Err(ConstEvalError::UnsupportedBoolOperator)
    );
    assert_eq!(
        eval_binary(BinaryOperator::Equal, &ConstScalar::Int(1), &ConstScalar::Bool(true)),
        Err(ConstEvalError::MismatchedOperands)
    );
    assert_eq!(
        eval_unary(UnaryOperator::LogicalNot, &ConstScalar::Int(1)),
        Err(ConstEvalError::InvalidUnaryOperand)
    );
    assert_eq!(expect_usize(&ConstScalar::Int(-1)), Err(ConstEvalError::NegativeWhereUnsigned));
    assert_eq!(expect_usize(&ConstScalar::Bool(true)), Err(ConstEvalError::ExpectedInteger));
}

#[test]
fn const_eval_booleans_and_unary() {
    assert_eq!(
        eval_binary(BinaryOperator::LogicalOr, &ConstScalar::Bool(false), &ConstScalar::Bool(true)),
        Ok(ConstScalar::Bool(true))
    );
    assert_eq!(
        eval_binary(BinaryOperator::NotEqual, &ConstScalar::Bool(true), &ConstScalar::Bool(true)),
        Ok(ConstScalar::Bool(false))
    );
    assert_eq!(eval_unary(UnaryOperator::Negate, &ConstScalar::Int(5)), Ok(ConstScalar::Int(-5)));
    assert_eq!(
        eval_unary(UnaryOperator::Negate, &ConstScalar::Int(i128::MIN)),
        Ok(ConstScalar::Int(i128::MIN))
    );
    assert_eq!(eval_unary(UnaryOperator::BitwiseNot, &ConstScalar::Int(0)), Ok(ConstScalar::Int(-1)));
    assert_eq!(eval_unary(UnaryOperator::LogicalNot, &ConstScalar::Bool(true)), Ok(ConstScalar::Bool(false)));
    assert_eq!(expect_usize(&ConstScalar::Int(12)), Ok(12));
}

#[test]
fn layout_of_primitives() {
    assert_eq!(primitive_size(PrimitiveType::U16, 8), 2);
    assert_eq!(primitive_size(PrimitiveType::USize, 4), 4);
    assert_eq!(primitive_size(PrimitiveType::I128, 8), 16);
    assert_eq!(primitive_size(PrimitiveType::Void, 8), 0);
    assert_eq!(primitive_align(PrimitiveType::Bool, 8), 1);
    assert_eq!(primitive_align(PrimitiveType::F64, 8), 8);
    assert_eq!(primitive_align(PrimitiveType::Void, 8), 1);
    assert_eq!(align_to(13, 8), 16);
    assert_eq!(align_to(16, 8), 16);
    assert_eq!(align_to(0, 16), 0);
    assert_eq!(align_to(5, 1), 5);
}

#[test]
fn coercion_rules() {
    let mut reg = TypeRegistry::new();
    let c = ExprChecker::new(None);
    let i32_ty = TypeId::primitive(PrimitiveType::I32);
    let mut_i32 = reg.intern(TypeKind::Mut(i32_ty));
    let ptr = reg.intern(TypeKind::Pointer(i32_ty));
    let ptr_mut = reg.intern(TypeKind::Pointer(mut_i32));
    let slice = reg.intern(TypeKind::Slice(i32_ty));
    let slice_mut = reg.intern(TypeKind::Slice(mut_i32));
    let arr = reg.intern(TypeKind::Array { elem: i32_ty, len: 3 });
    assert_eq!(c.check_coercion(&reg, i32_ty, i32_ty), Coercion::Accepted);
    assert_eq!(c.check_coercion(&reg, i32_ty, mut_i32), Coercion::Accepted);
    assert_eq!(c.check_coercion(&reg, ptr, ptr_mut), Coercion::Accepted);
    assert_eq!(c.check_coercion(&reg, ptr_mut, ptr), Coercion::Mismatched);
    assert_eq!(c.check_coercion(&reg, slice, slice_mut), Coercion::Accepted);
    assert_eq!(c.check_coercion(&reg, slice, arr), Coercion::Accepted);
    assert_eq!(c.check_coercion(&reg, slice_mut, arr), Coercion::ImmutableArrayToMutableSlice);
    assert_eq!(c.check_coercion(&reg, i32_ty, TypeId::error()), Coercion::Accepted);
    assert_eq!(
        c.check_coercion(&reg, i32_ty, TypeId::primitive(PrimitiveType::Bool)),
        Coercion::Mismatched
    );
    assert!(c.is_mutable_pointer(&reg, ptr_mut));
    assert!(!c.is_mutable_pointer(&reg, ptr));
}

#[test]
fn unify_binds_parameters() {
    let mut reg = TypeRegistry::new();
    let c = ExprChecker::new(None);
    let t = reg.intern(TypeKind::Param(SymbolId(7)));
    let ptr_t = reg.intern(TypeKind::Pointer(t));
    let i32_ty = TypeId::primitive(PrimitiveType::I32);
    let ptr_i32 = reg.intern(TypeKind::Pointer(i32_ty));
    let (ok, map) = c.unify(&reg, ptr_t, ptr_i32, HashMap::new());
    assert!(ok);
    assert_eq!(map.get(&7), Some(&i32_ty));
    // A parameter already bound must meet the same type again.
    let (ok2, _) = c.unify(&reg, t, TypeId::primitive(PrimitiveType::Bool), map.clone());
    assert!(!ok2);
    let (ok3, _) = c.unify(&reg, t, i32_ty, map);
    assert!(ok3);
    // Different shapes do not unify.
    let slice_i32 = reg.intern(TypeKind::Slice(i32_ty));
    let (ok4, _) = c.unify(&reg, ptr_t, slice_i32, HashMap::new());
    assert!(!ok4);
}

#[test]
fn substitute_replaces_bound_parameters() {
    let mut reg = TypeRegistry::new();
    let t = reg.intern(TypeKind::Param(SymbolId(7)));
    let ptr_t = reg.intern(TypeKind::Pointer(t));
    let i32_ty = TypeId::primitive(PrimitiveType::I32);
    let mut map = HashMap::new();
    map.insert(7u32, i32_ty);
    let s = Substituter::new(&map);
    let r = s.substitute(&mut reg, ptr_t);
    assert_eq!(reg.get(r), &TypeKind::Pointer(i32_ty));
    assert_eq!(reg.intern(TypeKind::Pointer(i32_ty)), r);
    // Unbound parameters and primitives stay.
    let u = reg.intern(TypeKind::Param(SymbolId(8)));
    assert_eq!(s.substitute(&mut reg, u), u);
    assert_eq!(s.substitute(&mut reg, i32_ty), i32_ty);
    // An empty map changes nothing.
    let empty = HashMap::new();
    let s0 = Substituter::new(&empty);
    assert_eq!(s0.substitute(&mut reg, ptr_t), ptr_t);
}

#[test]
fn substitute_leaves_types_without_bound_parameters() {
    let mut reg = TypeRegistry::new();
    let i32_ty = TypeId::primitive(PrimitiveType::I32);
    let u = reg.intern(TypeKind::Param(SymbolId(8)));
    let list_u = reg.intern(TypeKind::Def(kernc::sema::ty::DefId(2), vec![u, i32_ty]));
    let f = reg.intern(TypeKind::Function { params: vec![list_u], ret: i32_ty, is_variadic: false });
    let mut map = HashMap::new();
    map.insert(7u32, TypeId::primitive(PrimitiveType::Bool));
    let s = Substituter::new(&map);
    assert_eq!(s.substitute(&mut reg, list_u), list_u);
    assert_eq!(s.substitute(&mut reg, f), f);
    // Nothing new was interned: the next new type gets the next id.
    let next = reg.intern(TypeKind::Slice(f));
    assert_eq!(next, TypeId(f.0 + 1));
    // Binding the parameter that occurs rebuilds the types around it.
    let mut map2 = HashMap::new();
    map2.insert(8u32, i32_ty);
    let s2 = Substituter::new(&map2);
    let f2 = s2.substitute(&mut reg, f);
    assert_ne!(f2, f);
    match reg.get(f2) {
        TypeKind::Function { params, ret, is_variadic } => {
            assert_eq!(*ret, i32_ty);
            assert!(!is_variadic);
            assert_eq!(reg.get(params[0]), &TypeKind::Def(kernc::sema::ty::DefId(2), vec![i32_ty, i32_ty]));
        }
        other => panic!("unexpected {:?}", other),
    }
    // The same substitution again gives the same type.
    assert_eq!(s2.substitute(&mut reg, f), f2);
}

#[test]
fn builtin_primitive_names() {
    assert_eq!(resolve_builtin_primitive("i32"), Some(TypeId(4)));
    assert_eq!(resolve_builtin_primitive("usize"), Some(TypeId(15)));
    assert_eq!(resolve_builtin_primitive("str"), Some(TypeId(16)));
    assert_eq!(resolve_builtin_primitive("void"), Some(TypeId(0)));
    assert_eq!(resolve_builtin_primitive("Point"), None);
    assert_eq!(resolve_builtin_primitive("I32"), None);
    assert_eq!(kind_to_string(SymbolKind::Adt), "algebraic data type");
    assert_eq!(kind_to_string(SymbolKind::TypeParam), "type parameter");
    assert_eq!(kernc::sema::typeck::const_eval::kind_to_string(SymbolKind::Var), "variable (`let`)");
    assert_eq!(kernc::sema::typeck::const_eval::kind_to_string(SymbolKind::Trait), "symbol");
}

#[test]
fn exit_scope_hides_child_definitions() {
    let mut t = SymbolTable::new();
    let x = SymbolId(1);
    let y = SymbolId(2);
    let i32_ty = TypeId::primitive(PrimitiveType::I32);
    t.define(x, info(SymbolKind::Var, i32_ty)).unwrap();
    t.enter_scope();
    t.define(y, info(SymbolKind::Var, i32_ty)).unwrap();
    assert!(t.resolve(y).is_some());
    t.exit_scope();
    assert_eq!(t.current_scope_id(), Some(ScopeId(0)));
    assert!(t.resolve(y).is_none());
    assert_eq!(t.resolve(x).map(|i| i.type_id), Some(i32_ty));
}

#[test]
fn rule_and_evaluator_messages() {
    assert_eq!(TypeIssue::Coercion(Coercion::Mismatched).message(), "mismatched types");
    assert_eq!(
        TypeIssue::PointerArithmetic.message(),
        "implicit pointer arithmetic is strictly forbidden in Kern"
    );
    assert_eq!(
        TypeIssue::WrongArgumentCount { expected: 2, provided: 13 }.message(),
        "function expects exactly 2 arguments, but 13 were provided"
    );
    assert_eq!(
        TypeIssue::TooFewVariadicArguments { expected: 1, provided: 0 }.message(),
        "function expects at least 1 arguments, but 0 were provided"
    );
    assert_eq!(
        TypeIssue::ArrayLengthMismatch { found: 3, expected: 120 }.message(),
        "array literal length (3) does not match expected length (120)"
    );
    assert_eq!(CastCheck::Invalid.message(), Some("invalid `as` cast".to_string()));
    assert_eq!(CastCheck::Allowed.message(), None);
    assert_eq!(ConstEvalError::DivisionByZero.message(), "division by zero in constant expression");
}

#[test]
fn set_current_scope_takes_any_id() {
    let mut t = SymbolTable::new();
    t.set_current_scope(ScopeId(7));
    assert_eq!(t.current_scope_id(), Some(ScopeId(7)));
    t.set_current_scope(ScopeId(0));
    assert_eq!(t.current_scope_id(), Some(ScopeId(0)));
}

#[test]
fn constant_integer_intrinsics() {
    assert_eq!(int_intrinsic("@popCount"), Some(IntIntrinsic::PopCount));
    assert_eq!(int_intrinsic("@bswap"), Some(IntIntrinsic::Bswap));
    assert_eq!(int_intrinsic("@sizeOf"), None);
    assert_eq!(fold_int_intrinsic(IntIntrinsic::PopCount, -1, 32, true), 32);
    assert_eq!(fold_int_intrinsic(IntIntrinsic::PopCount, 0b1011, 8, false), 3);
    assert_eq!(fold_int_intrinsic(IntIntrinsic::Clz, 1, 32, false), 31);
    assert_eq!(fold_int_intrinsic(IntIntrinsic::Clz, 0, 32, false), 32);
    assert_eq!(fold_int_intrinsic(IntIntrinsic::Clz, -1, 128, true), 0);
    assert_eq!(fold_int_intrinsic(IntIntrinsic::Ctz, 8, 16, false), 3);
    assert_eq!(fold_int_intrinsic(IntIntrinsic::Ctz, 0, 16, false), 16);
    assert_eq!(fold_int_intrinsic(IntIntrinsic::IntCast, 200, 8, true), -56);
    assert_eq!(fold_int_intrinsic(IntIntrinsic::IntCast, -1, 8, false), 255);
    assert_eq!(fold_int_intrinsic(IntIntrinsic::IntCast, -5, 128, true), -5);
    assert_eq!(fold_int_intrinsic(IntIntrinsic::IntCast, -1, 64, false), 0xFFFF_FFFF_FFFF_FFFF);
    assert_eq!(fold_int_intrinsic(IntIntrinsic::IntCast, 300, 16, true), 300);
    assert_eq!(fold_int_intrinsic(IntIntrinsic::Bswap, 0x1234, 16, false), 0x3412);
    assert_eq!(fold_int_intrinsic(IntIntrinsic::Bswap, 0x1122_3344, 32, false), 0x4433_2211);
    assert_eq!(fold_int_intrinsic(IntIntrinsic::Bswap, 0xAB, 8, false), 0xAB);
    assert_eq!(fold_int_intrinsic(IntIntrinsic::Bswap, 1, 128, false), 1i128 << 120);
    assert_eq!(fold_int_intrinsic(IntIntrinsic::Bswap, 0x80, 128, false), i128::MIN);
}

#[test]
fn rule_issues_reported_as_diagnostics() {
    let mut ctx = kernc::driver::context::Context::new(false);
    report_issue(&mut ctx, Span::new(1, 2), TypeIssue::AssignToImmutable);
    let d = &ctx.diagnostics[0];
    assert_eq!(d.message, "cannot assign to an immutable variable or location");
    assert_eq!(d.hints, vec!["consider using the `mut` type modifier in the declaration".to_string()]);
    report_issues(
        &mut ctx,
        Span::new(3, 4),
        &vec![TypeIssue::ReceiverNeedsPointer, TypeIssue::IndexNotInteger],
    );
    assert_eq!(ctx.diagnostics.len(), 3);
    assert_eq!(ctx.diagnostics[1].hints.len(), 2);
    assert_eq!(ctx.diagnostics[1].hints[0], "the method expects a pointer receiver");
    assert_eq!(ctx.diagnostics[2].message, "index must be an integer type");
    assert_eq!(ctx.error_count, 3);
}

#[test]
fn coercion_reported_where_refused() {
    let mut ctx = kernc::driver::context::Context::new(false);
    let checker = ExprChecker::new(None);
    let i32_ty = TypeId::primitive(PrimitiveType::I32);
    let u8_ty = TypeId::primitive(PrimitiveType::U8);
    assert!(report_coercion(&mut ctx, &checker, Span::new(0, 1), i32_ty, i32_ty));
    assert_eq!(ctx.diagnostics.len(), 0);
    assert!(!report_coercion(&mut ctx, &checker, Span::new(0, 1), i32_ty, u8_ty));
    assert_eq!(ctx.diagnostics.len(), 1);
    assert_eq!(ctx.diagnostics[0].message, "mismatched types");
    // Immutable array to mutable slice.
    let arr = ctx.type_registry.intern(TypeKind::Array { elem: u8_ty, len: 3 });
    let mut_u8 = ctx.type_registry.intern(TypeKind::Mut(u8_ty));
    let slice_mut = ctx.type_registry.intern(TypeKind::Slice(mut_u8));
    assert!(!report_coercion(&mut ctx, &checker, Span::new(0, 1), slice_mut, arr));
    assert_eq!(
        ctx.diagnostics[1].message,
        "cannot implicitly convert an immutable array to a mutable slice `[]mut T`"
    );
}

#[test]
fn switch_exhaustiveness_reported() {
    let mut ctx = kernc::driver::context::Context::new(false);
    let red = ctx.intern("Red");
    let blue = ctx.intern("Blue");
    report_switch_exhaustiveness(&mut ctx, true, &vec![], Span::new(0, 1));
    assert_eq!(ctx.diagnostics.len(), 0);
    report_switch_exhaustiveness(&mut ctx, true, &vec![red, blue], Span::new(0, 1));
    assert_eq!(ctx.diagnostics[0].message, "switch expression is not exhaustive");
    assert_eq!(ctx.diagnostics[0].hints, vec!["missing enum variants: Red, Blue".to_string()]);
    report_switch_exhaustiveness(&mut ctx, false, &vec![], Span::new(0, 1));
    assert_eq!(ctx.diagnostics[1].message, "switch expression must be exhaustive");
}

#[test]
fn type_sizes_and_alignments() {
    let mut reg = TypeRegistry::new();
    let p = |x: PrimitiveType| TypeId::primitive(x);
    let t = SymbolId(40);
    let param_t = reg.intern(TypeKind::Param(t));
    let defs = vec![
        DefLink::Struct { is_pub: true, generics: vec![], fields: vec![p(PrimitiveType::U8), p(PrimitiveType::U32), p(PrimitiveType::U16)] },
        DefLink::Union { is_pub: true, generics: vec![], fields: vec![p(PrimitiveType::U8), p(PrimitiveType::U64)] },
        DefLink::Enum { is_pub: true, backing: p(PrimitiveType::U16), variants: vec![] },
        DefLink::Adt { is_pub: true, generics: vec![], tag: p(PrimitiveType::U32), payloads: vec![p(PrimitiveType::U8), p(PrimitiveType::U64)] },
        DefLink::Struct { is_pub: true, generics: vec![t], fields: vec![param_t, p(PrimitiveType::U8)] },
    ];
    let s = reg.intern(TypeKind::Def(kernc::sema::ty::DefId(0), vec![]));
    let u = reg.intern(TypeKind::Def(kernc::sema::ty::DefId(1), vec![]));
    let e = reg.intern(TypeKind::Def(kernc::sema::ty::DefId(2), vec![]));
    let a = reg.intern(TypeKind::Adt(kernc::sema::ty::DefId(3), vec![]));
    let g = reg.intern(TypeKind::Def(kernc::sema::ty::DefId(4), vec![p(PrimitiveType::U32)]));
    let ptr = reg.intern(TypeKind::Pointer(p(PrimitiveType::U8)));
    let slice = reg.intern(TypeKind::Slice(p(PrimitiveType::U8)));
    let arr = reg.intern(TypeKind::Array { elem: p(PrimitiveType::U16), len: 3 });
    let arr_s = reg.intern(TypeKind::Array { elem: s, len: 2 });
    assert_eq!(compute_type_size(&mut reg, &defs, 8, s), 12);
    assert_eq!(compute_type_align(&mut reg, &defs, 8, s), 4);
    assert_eq!(compute_type_size(&mut reg, &defs, 8, u), 8);
    assert_eq!(compute_type_align(&mut reg, &defs, 8, u), 8);
    assert_eq!(compute_type_size(&mut reg, &defs, 8, e), 2);
    assert_eq!(compute_type_size(&mut reg, &defs, 8, a), 16);
    assert_eq!(compute_type_align(&mut reg, &defs, 8, a), 8);
    assert_eq!(compute_type_size(&mut reg, &defs, 8, g), 8);
    assert_eq!(compute_type_align(&mut reg, &defs, 8, g), 4);
    assert_eq!(compute_type_size(&mut reg, &defs, 8, ptr), 8);
    assert_eq!(compute_type_size(&mut reg, &defs, 4, ptr), 4);
    assert_eq!(compute_type_size(&mut reg, &defs, 8, slice), 16);
    assert_eq!(compute_type_align(&mut reg, &defs, 8, slice), 8);
    assert_eq!(compute_type_size(&mut reg, &defs, 8, arr), 6);
    assert_eq!(compute_type_align(&mut reg, &defs, 8, arr), 2);
    assert_eq!(compute_type_size(&mut reg, &defs, 8, arr_s), 24);
    assert_eq!(compute_type_size(&mut reg, &defs, 8, TypeId::error()), 0);
    assert_eq!(compute_type_align(&mut reg, &defs, 8, p(PrimitiveType::U128)), 16);
}

fn cx(kind: ExprKind, at: usize) -> Expr {
    Expr { id: NodeId(0), span: Span::new(at, at + 1), kind }
}

fn bin(l: Expr, op: BinaryOperator, r: Expr) -> Expr {
    cx(ExprKind::Binary { lhs: Box::new(l), op, rhs: Box::new(r) }, 50)
}

fn const_info(kind: SymbolKind, def: Option<u32>) -> SymbolInfo {
    SymbolInfo {
        kind,
        node_id: NodeId(0),
        type_id: TypeId::error(),
        def_id: def.map(DefId),
        span: Span::new(0, 1),
        is_pub: false,
    }
}

#[test]
fn constant_trees_evaluate() {
    let mut ctx = kernc::driver::context::Context::new(false);
    let globals: Vec<Option<Expr>> = vec![];
    // (2 + 3) * -4 == -20
    let e = bin(
        bin(cx(ExprKind::Integer(2), 0), BinaryOperator::Add, cx(ExprKind::Integer(3), 2)),
        BinaryOperator::Multiply,
        cx(ExprKind::Unary { op: UnaryOperator::Negate, operand: Box::new(cx(ExprKind::Integer(4), 5)) }, 4),
    );
    assert_eq!(eval_inner(&mut ctx, &globals, &e, 0), Ok(ConstScalar::Int(-20)));
    let e = bin(cx(ExprKind::Char('A'), 0), BinaryOperator::LessThan, cx(ExprKind::Integer(66), 1));
    assert_eq!(eval_inner(&mut ctx, &globals, &e, 0), Ok(ConstScalar::Bool(true)));
    let e = cx(
        ExprKind::DataInit { type_node: None, literal: DataLiteralKind::Scalar(Box::new(cx(ExprKind::Bool(true), 1))) },
        0,
    );
    assert_eq!(eval_inner(&mut ctx, &globals, &e, 0), Ok(ConstScalar::Bool(true)));
    assert_eq!(ctx.diagnostics.len(), 0);

    let e = bin(cx(ExprKind::Integer(1), 0), BinaryOperator::Divide, cx(ExprKind::Integer(0), 2));
    assert_eq!(
        eval_inner(&mut ctx, &globals, &e, 0),
        Err(ConstFailure::Op(ConstEvalError::DivisionByZero))
    );
    assert_eq!(ctx.diagnostics.len(), 1);
    assert_eq!(ctx.diagnostics[0].message, "division by zero in constant expression");
    assert_eq!(ctx.diagnostics[0].primary_span, Span::new(50, 51));

    // The first failing operand decides.
    let e = bin(
        bin(cx(ExprKind::Bool(true), 0), BinaryOperator::Add, cx(ExprKind::Bool(false), 1)),
        BinaryOperator::Add,
        cx(ExprKind::Identifier(SymbolId(9)), 3),
    );
    assert_eq!(
        eval_const_tree(&ctx.scopes, &globals, &e, 0),
        Err((ConstFailure::Op(ConstEvalError::UnsupportedBoolOperator), Span::new(50, 51)))
    );

    let e = cx(ExprKind::Float(0), 7);
    assert_eq!(eval_inner(&mut ctx, &globals, &e, 0), Err(ConstFailure::NotScalar));
    assert_eq!(ctx.diagnostics.len(), 1);
    let e = cx(ExprKind::Identifier(SymbolId(9)), 7);
    assert_eq!(eval_inner(&mut ctx, &globals, &e, 0), Err(ConstFailure::Undeclared));
    assert_eq!(ctx.diagnostics[1].message, "use of undeclared identifier in constant expression");
    assert_eq!(ctx.diagnostics[1].primary_span, Span::new(7, 8));
    let e = cx(ExprKind::Integer(1), 0);
    assert_eq!(eval_inner(&mut ctx, &globals, &e, 101), Err(ConstFailure::TooDeep));
    assert_eq!(ctx.diagnostics[2].message, "constant evaluation exceeded maximum recursion depth");
    assert_eq!(
        ctx.diagnostics[2].hints,
        vec!["check for circular references in your `const` declarations".to_string()]
    );
    assert_eq!(eval_inner(&mut ctx, &globals, &e, 100), Ok(ConstScalar::Int(1)));
}

#[test]
fn constant_names_resolve_through_globals() {
    let mut ctx = kernc::driver::context::Context::new(false);
    let size = ctx.intern("SIZE");
    let twice = ctx.intern("TWICE");
    let selfish = ctx.intern("LOOP");
    let var = ctx.intern("counter");
    let other = ctx.intern("OTHER");
    ctx.scopes.define(size, const_info(SymbolKind::Const, Some(0))).unwrap();
    ctx.scopes.define(twice, const_info(SymbolKind::Const, Some(1))).unwrap();
    ctx.scopes.define(selfish, const_info(SymbolKind::Const, Some(2))).unwrap();
    ctx.scopes.define(var, const_info(SymbolKind::Var, None)).unwrap();
    ctx.scopes.define(other, const_info(SymbolKind::Const, Some(3))).unwrap();
    let globals: Vec<Option<Expr>> = vec![
        Some(cx(ExprKind::Integer(16), 0)),
        Some(bin(cx(ExprKind::Identifier(size), 1), BinaryOperator::Multiply, cx(ExprKind::Integer(2), 2))),
        Some(cx(ExprKind::Identifier(selfish), 3)),
        None,
    ];
    let e = cx(ExprKind::Identifier(twice), 9);
    assert_eq!(eval_inner(&mut ctx, &globals, &e, 0), Ok(ConstScalar::Int(32)));
    assert_eq!(eval_usize(&mut ctx, &globals, &e), Ok(32));
    assert_eq!(eval_math(&mut ctx, &globals, &e), Ok(32));
    assert_eq!(ctx.diagnostics.len(), 0);

    // A const that names itself stops at the depth limit.
    let e = cx(ExprKind::Identifier(selfish), 9);
    assert_eq!(eval_inner(&mut ctx, &globals, &e, 0), Err(ConstFailure::TooDeep));
    assert_eq!(ctx.diagnostics.len(), 1);
    assert_eq!(ctx.diagnostics[0].message, "constant evaluation exceeded maximum recursion depth");

    let e = cx(ExprKind::Identifier(var), 9);
    assert_eq!(eval_inner(&mut ctx, &globals, &e, 0), Err(ConstFailure::NotConstant(var, SymbolKind::Var)));
    assert_eq!(ctx.diagnostics[1].message, "`counter` is a variable (`let`), not a compile-time constant");
    assert_eq!(
        ctx.diagnostics[1].hints,
        vec!["only `const` variables can be used in constant expressions".to_string()]
    );

    let e = cx(ExprKind::Identifier(other), 9);
    assert_eq!(eval_inner(&mut ctx, &globals, &e, 0), Err(ConstFailure::NotGlobal));
    assert_eq!(ctx.diagnostics.len(), 2);

    let neg = cx(ExprKind::Unary { op: UnaryOperator::Negate, operand: Box::new(cx(ExprKind::Identifier(size), 1)) }, 0);
    assert_eq!(
        eval_usize(&mut ctx, &globals, &neg),
        Err(ConstFailure::Op(ConstEvalError::NegativeWhereUnsigned))
    );
    assert_eq!(ctx.diagnostics[2].message, "constant expression cannot evaluate to a negative number here");
    assert_eq!(
        ctx.diagnostics[2].hints,
        vec!["array lengths and similar contexts require positive integers".to_string()]
    );
    let b = cx(ExprKind::Bool(false), 4);
    assert_eq!(eval_usize(&mut ctx, &globals, &b), Err(ConstFailure::Op(ConstEvalError::ExpectedInteger)));
    assert_eq!(ctx.diagnostics[3].message, "expected an integer constant");
    assert_eq!(eval_math(&mut ctx, &globals, &neg), Ok(-16));
    assert_eq!(eval_math(&mut ctx, &globals, &b), Err(ConstFailure::Op(ConstEvalError::ExpectedInteger)));
    assert_eq!(ctx.error_count, 5);
}

fn case_of(names: &[SymbolId]) -> SwitchCase {
    SwitchCase {
        patterns: names.iter().map(|n| SwitchPattern::Value(cx(ExprKind::EnumLiteral(*n), 0))).collect(),
        body: cx(ExprKind::Integer(0), 0),
        span: Span::new(0, 1),
    }
}

#[test]
fn switches_must_cover_their_cases() {
    let mut ctx = kernc::driver::context::Context::new(false);
    let checker = ExprChecker::new(None);
    let red = ctx.intern("Red");
    let green = ctx.intern("Green");
    let blue = ctx.intern("Blue");
    let defs = vec![
        DefLink::Enum { is_pub: true, backing: TypeId::primitive(PrimitiveType::U32), variants: vec![red, green, blue] },
        DefLink::Struct { is_pub: true, generics: vec![], fields: vec![] },
    ];
    let color = ctx.type_registry.intern(TypeKind::Def(DefId(0), vec![]));
    let mut_color = ctx.type_registry.intern(TypeKind::Mut(color));
    let point = ctx.type_registry.intern(TypeKind::Def(DefId(1), vec![]));
    let span = Span::new(4, 9);

    let all = vec![case_of(&[red]), case_of(&[green, blue])];
    check_switch_exhaustiveness(&mut ctx, &checker, &defs, color, &all, false, span);
    assert_eq!(ctx.diagnostics.len(), 0);

    let some = vec![case_of(&[green])];
    check_switch_exhaustiveness(&mut ctx, &checker, &defs, mut_color, &some, true, span);
    assert_eq!(ctx.diagnostics.len(), 0);
    check_switch_exhaustiveness(&mut ctx, &checker, &defs, mut_color, &some, false, span);
    assert_eq!(ctx.diagnostics.len(), 1);
    assert_eq!(ctx.diagnostics[0].message, "switch expression is not exhaustive");
    assert_eq!(ctx.diagnostics[0].hints, vec!["missing enum variants: Red, Blue".to_string()]);
    assert_eq!(ctx.diagnostics[0].primary_span, span);

    check_switch_exhaustiveness(&mut ctx, &checker, &defs, point, &all, false, span);
    check_switch_exhaustiveness(&mut ctx, &checker, &defs, TypeId::primitive(PrimitiveType::I32), &vec![], false, span);
    assert_eq!(ctx.diagnostics.len(), 3);
    assert_eq!(ctx.diagnostics[1].message, "switch expression must be exhaustive");
    assert_eq!(ctx.diagnostics[2].hints, vec!["consider adding an `else =>` catch-all branch".to_string()]);
}
