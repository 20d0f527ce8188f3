use kernc::parser::ast::{BinaryOperator, UnaryOperator};
use kernc::sema::ty::{DefId, PrimitiveType, TypeId, TypeKind, TypeRegistry};
use kernc::sema::typeck::expr::{Coercion, ExprChecker};
use kernc::sema::typeck::rules::{CastCheck, TypeIssue};
use kernc::utils::SymbolId;

fn prim(p: PrimitiveType) -> TypeId {
    TypeId::primitive(p)
}

#[test]
fn binary_arithmetic_and_comparison() {
    let mut reg = TypeRegistry::new();
    let c = ExprChecker::new(None);
    let i32_ty = prim(PrimitiveType::I32);
    let mut_i32 = reg.intern(TypeKind::Mut(i32_ty));
    let ptr = reg.intern(TypeKind::Pointer(i32_ty));
    assert_eq!(c.check_binary_types(&reg, BinaryOperator::Add, mut_i32, i32_ty), (i32_ty, vec![]));
    assert_eq!(
        c.check_binary_types(&reg, BinaryOperator::Add, ptr, i32_ty),
        (TypeId::error(), vec![TypeIssue::PointerArithmetic])
    );
    assert_eq!(
        c.check_binary_types(&reg, BinaryOperator::Subtract, i32_ty, prim(PrimitiveType::Bool)),
        (TypeId::error(), vec![TypeIssue::Coercion(Coercion::Mismatched)])
    );
    assert_eq!(
        c.check_binary_types(&reg, BinaryOperator::LessThan, i32_ty, i32_ty),
        (prim(PrimitiveType::Bool), vec![])
    );
    assert_eq!(
        c.check_binary_types(&reg, BinaryOperator::Equal, TypeId::error(), i32_ty),
        (TypeId::error(), vec![])
    );
}

#[test]
fn binary_logical_and_bitwise() {
    let reg = TypeRegistry::new();
    let c = ExprChecker::new(None);
    let b = prim(PrimitiveType::Bool);
    let i32_ty = prim(PrimitiveType::I32);
    let f64_ty = prim(PrimitiveType::F64);
    assert_eq!(c.check_binary_types(&reg, BinaryOperator::LogicalAnd, b, b), (b, vec![]));
    assert_eq!(
        c.check_binary_types(&reg, BinaryOperator::LogicalOr, i32_ty, f64_ty),
        (
            b,
            vec![
                TypeIssue::Coercion(Coercion::Mismatched),
                TypeIssue::Coercion(Coercion::Mismatched)
            ]
        )
    );
    assert_eq!(c.check_binary_types(&reg, BinaryOperator::BitwiseAnd, i32_ty, i32_ty), (i32_ty, vec![]));
    assert_eq!(
        c.check_binary_types(&reg, BinaryOperator::ShiftLeft, f64_ty, f64_ty),
        (f64_ty, vec![TypeIssue::BitwiseNeedsIntegers])
    );
    assert_eq!(
        c.check_binary_types(&reg, BinaryOperator::BitwiseOr, f64_ty, i32_ty),
        (
            TypeId::error(),
            vec![TypeIssue::BitwiseNeedsIntegers, TypeIssue::Coercion(Coercion::Mismatched)]
        )
    );
}

#[test]
fn unary_rules() {
    let mut reg = TypeRegistry::new();
    let c = ExprChecker::new(None);
    let i32_ty = prim(PrimitiveType::I32);
    let (p, issues) = c.check_unary_types(&mut reg, UnaryOperator::AddressOf, i32_ty);
    assert!(issues.is_empty());
    assert_eq!(reg.get(p), &TypeKind::Pointer(i32_ty));
    assert_eq!(c.check_unary_types(&mut reg, UnaryOperator::PointerDeRef, p), (i32_ty, vec![]));
    assert_eq!(
        c.check_unary_types(&mut reg, UnaryOperator::PointerDeRef, i32_ty),
        (TypeId::error(), vec![TypeIssue::DerefNonPointer])
    );
    let arr = reg.intern(TypeKind::Array { elem: i32_ty, len: 2 });
    assert_eq!(
        c.check_unary_types(&mut reg, UnaryOperator::LengthOf, arr),
        (prim(PrimitiveType::USize), vec![])
    );
    assert_eq!(
        c.check_unary_types(&mut reg, UnaryOperator::LengthOf, i32_ty),
        (TypeId::error(), vec![TypeIssue::LengthOfNonArray])
    );
    let b = prim(PrimitiveType::Bool);
    assert_eq!(
        c.check_unary_types(&mut reg, UnaryOperator::Negate, b),
        (b, vec![TypeIssue::NegateNonNumeric])
    );
    let f32_ty = prim(PrimitiveType::F32);
    assert_eq!(c.check_unary_types(&mut reg, UnaryOperator::Negate, f32_ty), (f32_ty, vec![]));
    assert_eq!(
        c.check_unary_types(&mut reg, UnaryOperator::LogicalNot, i32_ty),
        (b, vec![TypeIssue::Coercion(Coercion::Mismatched)])
    );
    assert_eq!(
        c.check_unary_types(&mut reg, UnaryOperator::BitwiseNot, f32_ty),
        (f32_ty, vec![TypeIssue::BitwiseNotNonInteger])
    );
    assert_eq!(
        c.check_unary_types(&mut reg, UnaryOperator::Negate, TypeId::error()),
        (TypeId::error(), vec![])
    );
}

#[test]
fn unary_operand_expectations() {
    let mut reg = TypeRegistry::new();
    let c = ExprChecker::new(None);
    let u8_ty = prim(PrimitiveType::U8);
    let p = reg.intern(TypeKind::Pointer(u8_ty));
    assert_eq!(c.unary_operand_expected(&reg, UnaryOperator::AddressOf, Some(p)), Some(u8_ty));
    assert_eq!(c.unary_operand_expected(&reg, UnaryOperator::AddressOf, Some(u8_ty)), None);
    assert_eq!(c.unary_operand_expected(&reg, UnaryOperator::Negate, Some(u8_ty)), Some(u8_ty));
    assert_eq!(c.unary_operand_expected(&reg, UnaryOperator::LogicalNot, Some(u8_ty)), None);
}

#[test]
fn cast_rules() {
    let mut reg = TypeRegistry::new();
    let c = ExprChecker::new(None);
    let i32_ty = prim(PrimitiveType::I32);
    let u64_ty = prim(PrimitiveType::U64);
    let f32_ty = prim(PrimitiveType::F32);
    let p = reg.intern(TypeKind::Pointer(i32_ty));
    let slice = reg.intern(TypeKind::Slice(i32_ty));
    assert_eq!(c.check_cast(&reg, i32_ty, u64_ty), CastCheck::Allowed);
    assert_eq!(c.check_cast(&reg, p, u64_ty), CastCheck::Allowed);
    assert_eq!(c.check_cast(&reg, u64_ty, p), CastCheck::Allowed);
    assert_eq!(c.check_cast(&reg, slice, p), CastCheck::Allowed);
    assert_eq!(c.check_cast(&reg, f32_ty, i32_ty), CastCheck::Invalid);
    assert_eq!(c.check_cast(&reg, f32_ty, f32_ty), CastCheck::Allowed);
    let obj = reg.intern(TypeKind::TraitObject(DefId(3), vec![]));
    let mut_obj = reg.intern(TypeKind::Mut(obj));
    let mut_i32 = reg.intern(TypeKind::Mut(i32_ty));
    let p_mut = reg.intern(TypeKind::Pointer(mut_i32));
    assert_eq!(c.check_cast(&reg, p, obj), CastCheck::NeedsTraitImpl(DefId(3)));
    assert_eq!(c.check_cast(&reg, p, mut_obj), CastCheck::ReadOnlyToMutableTraitObject);
    assert_eq!(c.check_cast(&reg, p_mut, mut_obj), CastCheck::NeedsTraitImpl(DefId(3)));
    assert_eq!(c.check_cast(&reg, i32_ty, obj), CastCheck::NotPointerToTraitObject);
}

#[test]
fn base_type_and_mutability() {
    let mut reg = TypeRegistry::new();
    let c = ExprChecker::new(None);
    let i32_ty = prim(PrimitiveType::I32);
    let mut_i32 = reg.intern(TypeKind::Mut(i32_ty));
    let p_mut = reg.intern(TypeKind::Pointer(mut_i32));
    let p = reg.intern(TypeKind::Pointer(i32_ty));
    let mut_p = reg.intern(TypeKind::Mut(p));
    let alias = reg.intern(TypeKind::Alias(SymbolId(1), p_mut));
    assert_eq!(c.get_base_type_and_mut(&reg, i32_ty), (i32_ty, false));
    assert_eq!(c.get_base_type_and_mut(&reg, mut_i32), (i32_ty, true));
    assert_eq!(c.get_base_type_and_mut(&reg, p_mut), (i32_ty, true));
    assert_eq!(c.get_base_type_and_mut(&reg, mut_p), (i32_ty, false));
    assert_eq!(c.get_base_type_and_mut(&reg, alias), (i32_ty, true));
}

#[test]
fn index_and_slice_rules() {
    let mut reg = TypeRegistry::new();
    let c = ExprChecker::new(None);
    let u8_ty = prim(PrimitiveType::U8);
    let usize_ty = prim(PrimitiveType::USize);
    let arr = reg.intern(TypeKind::Array { elem: u8_ty, len: 8 });
    let mut_arr = reg.intern(TypeKind::Mut(arr));
    assert_eq!(c.check_index_types(&mut reg, arr, usize_ty), (u8_ty, vec![]));
    let (e, issues) = c.check_index_types(&mut reg, mut_arr, usize_ty);
    assert!(issues.is_empty());
    assert_eq!(reg.get(e), &TypeKind::Mut(u8_ty));
    assert_eq!(
        c.check_index_types(&mut reg, u8_ty, prim(PrimitiveType::Bool)),
        (TypeId::error(), vec![TypeIssue::IndexNotInteger, TypeIssue::IndexNonArray])
    );
    assert_eq!(c.check_index_types(&mut reg, TypeId::error(), usize_ty), (TypeId::error(), vec![]));

    let (s, issues) = c.check_slice_types(&mut reg, arr, Some(usize_ty), None);
    assert!(issues.is_empty());
    assert_eq!(reg.get(s), &TypeKind::Slice(u8_ty));
    let (s2, _) = c.check_slice_types(&mut reg, mut_arr, None, None);
    assert_eq!(reg.get(s2), &TypeKind::Slice(e));
    assert_eq!(
        c.check_slice_types(&mut reg, u8_ty, Some(prim(PrimitiveType::F32)), Some(prim(PrimitiveType::Bool))),
        (
            TypeId::error(),
            vec![
                TypeIssue::SliceStartNotInteger,
                TypeIssue::SliceEndNotInteger,
                TypeIssue::SliceNonArray
            ]
        )
    );
}

#[test]
fn assign_undef_and_return_rules() {
    let mut reg = TypeRegistry::new();
    let mut c = ExprChecker::new(Some(prim(PrimitiveType::I32)));
    let i32_ty = prim(PrimitiveType::I32);
    let mut_i32 = reg.intern(TypeKind::Mut(i32_ty));
    assert_eq!(
        c.check_assign_types(&reg, mut_i32, i32_ty),
        (prim(PrimitiveType::Void), vec![])
    );
    assert_eq!(
        c.check_assign_types(&reg, i32_ty, i32_ty),
        (prim(PrimitiveType::Void), vec![TypeIssue::AssignToImmutable])
    );
    assert_eq!(
        c.check_assign_types(&reg, i32_ty, TypeId::error()),
        (TypeId::error(), vec![TypeIssue::AssignToImmutable])
    );
    assert_eq!(c.check_undef(Some(i32_ty)), Ok(i32_ty));
    assert_eq!(c.check_undef(None), Err(TypeIssue::UndefWithoutType));
    assert!(!c.has_returned);
    assert_eq!(c.check_return_types(&reg, None), vec![TypeIssue::MissingReturnValue]);
    assert!(c.has_returned);
    assert_eq!(c.check_return_types(&reg, Some(i32_ty)), vec![]);
    assert_eq!(
        c.check_return_types(&reg, Some(prim(PrimitiveType::Bool))),
        vec![TypeIssue::Coercion(Coercion::Mismatched)]
    );
    let mut v = ExprChecker::new(None);
    assert_eq!(v.check_return_types(&reg, None), vec![]);
}

use kernc::parser::ast::{Expr, ExprKind, NodeId, SwitchCase, SwitchPattern};
use kernc::utils::Span;

fn enum_lit(n: u32) -> Expr {
    Expr { id: NodeId(0), span: Span::new(0, 1), kind: ExprKind::EnumLiteral(SymbolId(n)) }
}

fn case(patterns: Vec<SwitchPattern>) -> SwitchCase {
    SwitchCase {
        patterns,
        body: Expr { id: NodeId(1), span: Span::new(0, 1), kind: ExprKind::Break },
        span: Span::new(0, 1),
    }
}

#[test]
fn call_arity_rules() {
    let c = ExprChecker::new(None);
    assert_eq!(c.check_call_arity(2, 2, false, false), None);
    assert_eq!(
        c.check_call_arity(1, 2, false, false),
        Some(TypeIssue::WrongArgumentCount { expected: 2, provided: 1 })
    );
    assert_eq!(c.check_call_arity(1, 2, true, false), None);
    assert_eq!(
        c.check_call_arity(3, 2, true, false),
        Some(TypeIssue::WrongArgumentCount { expected: 1, provided: 3 })
    );
    assert_eq!(c.check_call_arity(5, 1, false, true), None);
    assert_eq!(
        c.check_call_arity(0, 1, false, true),
        Some(TypeIssue::TooFewVariadicArguments { expected: 1, provided: 0 })
    );
    assert_eq!(c.check_call_arity(0, 0, true, false), None);
}

#[test]
fn variadic_argument_promotion() {
    let mut reg = TypeRegistry::new();
    let c = ExprChecker::new(None);
    assert_eq!(c.check_variadic_argument(&reg, prim(PrimitiveType::U8)), Some(TypeIssue::VariadicSmallInteger));
    assert_eq!(c.check_variadic_argument(&reg, prim(PrimitiveType::I16)), Some(TypeIssue::VariadicSmallInteger));
    assert_eq!(c.check_variadic_argument(&reg, prim(PrimitiveType::F32)), Some(TypeIssue::VariadicF32));
    assert_eq!(c.check_variadic_argument(&reg, prim(PrimitiveType::I32)), None);
    assert_eq!(c.check_variadic_argument(&reg, prim(PrimitiveType::F64)), None);
    assert_eq!(c.check_variadic_argument(&reg, TypeId::error()), None);
    let m = reg.intern(TypeKind::Mut(prim(PrimitiveType::U16)));
    assert_eq!(c.check_variadic_argument(&reg, m), Some(TypeIssue::VariadicSmallInteger));
}

#[test]
fn method_receiver_rules() {
    let mut reg = TypeRegistry::new();
    let c = ExprChecker::new(None);
    let s = reg.intern(TypeKind::Def(DefId(1), vec![]));
    let p = reg.intern(TypeKind::Pointer(s));
    assert_eq!(c.check_method_receiver(&reg, p, p), vec![]);
    assert_eq!(
        c.check_method_receiver(&reg, p, s),
        vec![TypeIssue::Coercion(Coercion::Mismatched), TypeIssue::ReceiverNeedsPointer]
    );
    assert_eq!(
        c.check_method_receiver(&reg, s, p),
        vec![TypeIssue::Coercion(Coercion::Mismatched)]
    );
}

#[test]
fn switch_unhandled_variants() {
    let c = ExprChecker::new(None);
    let variants = vec![SymbolId(10), SymbolId(11), SymbolId(12)];
    let cases = vec![
        case(vec![SwitchPattern::Value(enum_lit(11))]),
        case(vec![SwitchPattern::Range { start: enum_lit(10), end: enum_lit(12), inclusive: true }]),
    ];
    assert_eq!(c.unhandled_variants(&variants, &cases), vec![SymbolId(10), SymbolId(12)]);
    let all = vec![case(vec![
        SwitchPattern::Value(enum_lit(12)),
        SwitchPattern::Value(enum_lit(10)),
    ]), case(vec![SwitchPattern::Value(enum_lit(11))])];
    assert_eq!(c.unhandled_variants(&variants, &all), vec![]);
    assert_eq!(c.unhandled_variants(&variants, &vec![]), variants);
}

#[test]
fn array_and_repeat_literal_rules() {
    let mut reg = TypeRegistry::new();
    let c = ExprChecker::new(None);
    let u8_ty = prim(PrimitiveType::U8);
    let arr3 = reg.intern(TypeKind::Array { elem: u8_ty, len: 3 });
    assert_eq!(c.literal_element_type(&reg, arr3), Some(u8_ty));
    assert_eq!(c.literal_element_type(&reg, u8_ty), None);
    assert_eq!(c.check_array_literal_types(&reg, arr3, &vec![u8_ty, u8_ty, u8_ty]), (arr3, vec![]));
    assert_eq!(
        c.check_array_literal_types(&reg, arr3, &vec![u8_ty, prim(PrimitiveType::Bool)]),
        (
            arr3,
            vec![
                TypeIssue::ArrayLengthMismatch { found: 2, expected: 3 },
                TypeIssue::Coercion(Coercion::Mismatched)
            ]
        )
    );
    assert_eq!(
        c.check_array_literal_types(&reg, u8_ty, &vec![u8_ty]),
        (TypeId::error(), vec![TypeIssue::ArrayLiteralNeedsArrayType])
    );
    assert_eq!(
        c.check_repeat_literal_types(&reg, arr3, u8_ty, prim(PrimitiveType::USize)),
        (arr3, vec![])
    );
    assert_eq!(
        c.check_repeat_literal_types(&reg, arr3, prim(PrimitiveType::Bool), prim(PrimitiveType::F32)),
        (
            arr3,
            vec![TypeIssue::Coercion(Coercion::Mismatched), TypeIssue::RepeatCountNotInteger]
        )
    );
    assert_eq!(
        c.check_repeat_literal_types(&reg, u8_ty, u8_ty, u8_ty),
        (TypeId::error(), vec![TypeIssue::RepeatLiteralNeedsArrayType])
    );
}

use kernc::driver::context::Context;
use kernc::sema::scope::{SymbolInfo, SymbolKind};

fn var_info(ty: TypeId) -> SymbolInfo {
    SymbolInfo {
        kind: SymbolKind::Var,
        node_id: NodeId(0),
        type_id: ty,
        def_id: None,
        span: Span::new(0, 1),
        is_pub: false,
    }
}

#[test]
fn identifier_typing() {
    let mut ctx = Context::new(false);
    let c = ExprChecker::new(None);
    let x = ctx.intern("x");
    let f = ctx.intern("f");
    let i32_ty = prim(PrimitiveType::I32);
    ctx.scopes.define(x, var_info(i32_ty)).unwrap();
    let mut fi = var_info(TypeId::error());
    fi.kind = SymbolKind::Function;
    fi.def_id = Some(DefId(9));
    ctx.scopes.define(f, fi).unwrap();
    assert_eq!(c.check_identifier(&mut ctx, x, Span::new(0, 1)), i32_ty);
    let fty = c.check_identifier(&mut ctx, f, Span::new(0, 1));
    assert_eq!(ctx.type_registry.get(fty), &TypeKind::FnDef(DefId(9), vec![]));
    assert!(!ctx.has_errors());
    let y = ctx.intern("y");
    assert_eq!(c.check_identifier(&mut ctx, y, Span::new(3, 4)), TypeId::error());
    assert_eq!(ctx.diagnostics[0].message, "use of undeclared identifier `y`");
    assert_eq!(
        ctx.diagnostics[0].hints,
        vec!["make sure the variable or function is defined before using it".to_string()]
    );
}

#[test]
fn self_value_typing() {
    let mut ctx = Context::new(false);
    let c = ExprChecker::new(None);
    assert_eq!(c.check_self_value(&mut ctx, Span::new(0, 4)), TypeId::error());
    assert_eq!(ctx.diagnostics[0].message, "`self` is not available in this context");
    let self_ty = ctx.intern("Self");
    let p = ctx.type_registry.intern(TypeKind::Def(DefId(1), vec![]));
    ctx.scopes.define(self_ty, var_info(p)).unwrap();
    assert_eq!(c.check_self_value(&mut ctx, Span::new(0, 4)), p);
    let self_var = ctx.intern("self");
    let q = ctx.type_registry.intern(TypeKind::Pointer(p));
    ctx.scopes.define(self_var, var_info(q)).unwrap();
    assert_eq!(c.check_self_value(&mut ctx, Span::new(0, 4)), q);
    assert_eq!(ctx.error_count, 1);
}

#[test]
fn let_binds_in_current_scope() {
    let mut ctx = Context::new(false);
    let c = ExprChecker::new(None);
    let x = ctx.intern("x");
    let i32_ty = prim(PrimitiveType::I32);
    let void = prim(PrimitiveType::Void);
    assert_eq!(c.check_let_or_static(&mut ctx, NodeId(3), x, i32_ty, false, Span::new(0, 5)), void);
    let info = *ctx.scopes.resolve(x).unwrap();
    assert_eq!(info.kind, SymbolKind::Var);
    assert_eq!(info.type_id, i32_ty);
    assert_eq!(info.node_id, NodeId(3));
    // A second binding in the same scope keeps the first.
    c.check_let_or_static(&mut ctx, NodeId(4), x, prim(PrimitiveType::Bool), true, Span::new(0, 5));
    assert_eq!(ctx.scopes.resolve(x).unwrap().type_id, i32_ty);
    ctx.scopes.enter_scope();
    c.check_let_or_static(&mut ctx, NodeId(5), x, prim(PrimitiveType::Bool), true, Span::new(0, 5));
    assert_eq!(ctx.scopes.resolve(x).unwrap().kind, SymbolKind::Static);
}

use kernc::sema::typeck::rules::PatternTypes;

#[test]
fn if_for_and_switch_rules() {
    let reg = TypeRegistry::new();
    let c = ExprChecker::new(None);
    let b = prim(PrimitiveType::Bool);
    let i32_ty = prim(PrimitiveType::I32);
    let void = prim(PrimitiveType::Void);
    assert_eq!(c.check_if_types(&reg, b, i32_ty, Some(i32_ty)), (i32_ty, vec![]));
    assert_eq!(c.check_if_types(&reg, b, i32_ty, None), (void, vec![]));
    assert_eq!(
        c.check_if_types(&reg, i32_ty, i32_ty, Some(b)),
        (
            i32_ty,
            vec![
                TypeIssue::Coercion(Coercion::Mismatched),
                TypeIssue::Coercion(Coercion::Mismatched)
            ]
        )
    );
    assert_eq!(c.check_for_condition(&reg, Some(b)), vec![]);
    assert_eq!(c.check_for_condition(&reg, None), vec![]);
    assert_eq!(
        c.check_for_condition(&reg, Some(i32_ty)),
        vec![TypeIssue::Coercion(Coercion::Mismatched)]
    );
    let pats = vec![PatternTypes::Value(i32_ty), PatternTypes::Range(i32_ty, b)];
    assert_eq!(
        c.check_switch_patterns(&reg, i32_ty, &pats),
        vec![TypeIssue::Coercion(Coercion::Mismatched)]
    );
    let (common, issues) = c.check_switch_arm(&reg, None, i32_ty);
    assert_eq!((common, issues), (Some(i32_ty), vec![]));
    let (common2, issues2) = c.check_switch_arm(&reg, common, b);
    assert_eq!(common2, Some(i32_ty));
    assert_eq!(issues2, vec![TypeIssue::Coercion(Coercion::Mismatched)]);
}

use kernc::parser::ast::GenericParam;
use kernc::sema::collect::define_symbol;
use kernc::sema::resolve_types::{bind_generics, bind_self_type};
use kernc::sema::scope::ScopeId;

#[test]
fn define_symbol_reports_duplicates() {
    let mut ctx = Context::new(false);
    let a = ctx.intern("a");
    let underscore = ctx.intern("_");
    define_symbol(&mut ctx, a, SymbolKind::Function, NodeId(1), Some(DefId(7)), Span::new(0, 3), true);
    let info = *ctx.scopes.resolve(a).unwrap();
    assert_eq!(info.kind, SymbolKind::Function);
    assert_eq!(info.type_id, TypeId::error());
    assert_eq!(info.def_id, Some(DefId(7)));
    assert!(info.is_pub);
    define_symbol(&mut ctx, underscore, SymbolKind::Var, NodeId(2), None, Span::new(4, 5), false);
    assert!(ctx.scopes.resolve(underscore).is_none());
    assert!(!ctx.has_errors());
    define_symbol(&mut ctx, a, SymbolKind::Struct, NodeId(3), None, Span::new(10, 11), false);
    assert_eq!(ctx.error_count, 1);
    let d = &ctx.diagnostics[0];
    assert_eq!(d.message, "the name `a` is defined multiple times");
    assert_eq!(d.hints, vec!["`a` must be defined only once in the same scope".to_string()]);
    assert_eq!(
        d.related_spans,
        vec![(Span::new(0, 3), "previous definition of `a` was here".to_string())]
    );
    assert_eq!(ctx.scopes.resolve(a).unwrap().kind, SymbolKind::Function);
}

#[test]
fn binding_self_and_generics() {
    let mut ctx = Context::new(false);
    let inner = ctx.scopes.enter_scope();
    ctx.scopes.exit_scope();
    let target = ctx.type_registry.intern(TypeKind::Def(DefId(1), vec![]));
    bind_self_type(&mut ctx, target, inner, Span::new(2, 3));
    assert_eq!(ctx.scopes.current_scope_id(), Some(inner));
    let self_sym = ctx.intern("Self");
    let info = *ctx.scopes.resolve(self_sym).unwrap();
    assert_eq!(info.kind, SymbolKind::TypeAlias);
    assert_eq!(info.type_id, target);
    assert_eq!(info.node_id, NodeId(0));

    let t = ctx.intern("T");
    let u = ctx.intern("U");
    let generics = vec![
        GenericParam { name: t, constraints: vec![], span: Span::new(1, 2) },
        GenericParam { name: u, constraints: vec![], span: Span::new(3, 4) },
    ];
    bind_generics(&mut ctx, &generics, ScopeId(0));
    assert_eq!(ctx.scopes.current_scope_id(), Some(ScopeId(0)));
    let ti = *ctx.scopes.resolve(t).unwrap();
    assert_eq!(ti.kind, SymbolKind::TypeParam);
    assert_eq!(ctx.type_registry.get(ti.type_id), &TypeKind::Param(t));
    assert_eq!(ti.node_id, NodeId(1));
    assert_eq!(ctx.scopes.resolve(u).unwrap().node_id, NodeId(2));
    assert_eq!(ctx.next_node_id, 3);
}

use kernc::sema::resolve_imports::define_import;

#[test]
fn importing_names() {
    let mut ctx = Context::new(false);
    let m = ctx.scopes.enter_scope();
    ctx.scopes.exit_scope();
    let x = ctx.intern("x");
    let mut info = var_info(prim(PrimitiveType::I32));
    info.def_id = Some(DefId(5));
    define_import(&mut ctx, m, x, info, true, Span::new(7, 8), true);
    assert_eq!(ctx.scopes.current_scope_id(), Some(ScopeId(0)));
    let got = *ctx.scopes.resolve_in(m, x).unwrap();
    assert!(got.is_pub);
    assert_eq!(got.span, Span::new(7, 8));
    // The same definition imported again from elsewhere is tolerated.
    define_import(&mut ctx, m, x, info, false, Span::new(20, 21), true);
    assert!(!ctx.has_errors());
    // A different definition under the same name is reported.
    let mut other = info;
    other.def_id = Some(DefId(6));
    define_import(&mut ctx, m, x, other, false, Span::new(30, 31), true);
    assert_eq!(ctx.error_count, 1);
    assert_eq!(ctx.diagnostics[0].message, "the name `x` is defined multiple times");
    assert_eq!(
        ctx.diagnostics[0].hints,
        vec!["`x` was already imported or defined in this module".to_string()]
    );
    assert_eq!(
        ctx.diagnostics[0].related_spans,
        vec![(Span::new(7, 8), "previous definition was here".to_string())]
    );
    // Without errors wanted nothing is reported.
    define_import(&mut ctx, m, x, other, false, Span::new(40, 41), false);
    assert_eq!(ctx.error_count, 1);
    assert_eq!(ctx.scopes.resolve_in(m, x).unwrap().def_id, Some(DefId(5)));
}
