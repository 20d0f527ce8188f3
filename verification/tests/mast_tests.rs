use kernc::driver::context::Context;
use kernc::mast::capture::{check_capture, finish_lambda, is_local, lambda_frames, lift_lambda};
use std::collections::HashMap;
use kernc::mast::ast::{BitIntrinsicKind, MastBlock, MastCastKind, MastExpr, MastExprKind, MastFunction, MonoId};
use kernc::mast::call::{intrinsic_of, lower_normal_call, Intrinsic};
use kernc::mast::mono::MonoCache;
use kernc::sema::resolve_path::DefLink;
use kernc::mast::lower::{
    asm_clobber_constraint, asm_config_constraints, asm_constraint_string, asm_input_constraint,
    asm_output_constraint, determine_cast_kind, join_strings, read_asm_config, apply_implicit_cast,
    strip_mut_modifier,
};
use kernc::parser::ast::{DataLiteralKind, Expr, ExprKind, NodeId, StructFieldInit};
use kernc::sema::ty::{PrimitiveType, TypeId, TypeKind, TypeRegistry};
use kernc::utils::{Interner, Span, SymbolId};

fn prim(p: PrimitiveType) -> TypeId {
    TypeId::primitive(p)
}

fn e(kind: ExprKind) -> Expr {
    Expr { id: NodeId(0), span: Span::new(0, 1), kind }
}

fn field(name: SymbolId, value: Expr) -> StructFieldInit {
    StructFieldInit { name, value, span: Span::new(0, 1) }
}

fn strings(v: &[&str]) -> Vec<String> {
    v.iter().map(|s| s.to_string()).collect()
}

#[test]
fn mast_expr_new() {
    let x = MastExpr::new(prim(PrimitiveType::I32), MastExprKind::Integer(7), Span::new(2, 3));
    assert_eq!(x.ty, prim(PrimitiveType::I32));
    assert_eq!(x.span, Span::new(2, 3));
    assert!(matches!(x.kind, MastExprKind::Integer(7)));
    let g = MastExpr::new(prim(PrimitiveType::Void), MastExprKind::GlobalRef(MonoId(4)), Span::new(0, 0));
    assert!(matches!(g.kind, MastExprKind::GlobalRef(MonoId(4))));
}

#[test]
fn cast_kinds() {
    let mut reg = TypeRegistry::new();
    let i8_ty = prim(PrimitiveType::I8);
    let i32_ty = prim(PrimitiveType::I32);
    let u8_ty = prim(PrimitiveType::U8);
    let u64_ty = prim(PrimitiveType::U64);
    let usize_ty = prim(PrimitiveType::USize);
    let p = reg.intern(TypeKind::Pointer(u8_ty));
    let q = reg.intern(TypeKind::Pointer(i32_ty));
    assert_eq!(determine_cast_kind(&reg, p, q, 8), MastCastKind::Bitcast);
    assert_eq!(determine_cast_kind(&reg, usize_ty, p, 8), MastCastKind::IntToPtr);
    assert_eq!(determine_cast_kind(&reg, p, usize_ty, 8), MastCastKind::PtrToInt);
    assert_eq!(determine_cast_kind(&reg, i32_ty, i8_ty, 8), MastCastKind::Trunc);
    assert_eq!(determine_cast_kind(&reg, i8_ty, i32_ty, 8), MastCastKind::SignExt);
    assert_eq!(determine_cast_kind(&reg, u8_ty, u64_ty, 8), MastCastKind::ZeroExt);
    assert_eq!(determine_cast_kind(&reg, u64_ty, usize_ty, 8), MastCastKind::Bitcast);
    assert_eq!(determine_cast_kind(&reg, u64_ty, usize_ty, 4), MastCastKind::Trunc);
    assert_eq!(
        determine_cast_kind(&reg, prim(PrimitiveType::F32), i32_ty, 8),
        MastCastKind::Bitcast
    );
}

#[test]
fn asm_constraint_pieces() {
    assert_eq!(asm_output_constraint("reg"), "=r");
    assert_eq!(asm_output_constraint("freg"), "=f");
    assert_eq!(asm_output_constraint("al"), "={al}");
    assert_eq!(asm_input_constraint("reg"), "r");
    assert_eq!(asm_input_constraint("freg"), "f");
    assert_eq!(asm_input_constraint("dx"), "{dx}");
    assert_eq!(asm_clobber_constraint("memory"), "~{memory}");
    assert_eq!(join_strings(&strings(&["a", "b", "c"]), ", "), "a, b, c");
    assert_eq!(join_strings(&strings(&["only"]), ","), "only");
    assert_eq!(join_strings(&strings(&[]), ","), "");
}

#[test]
fn asm_constraint_order() {
    let s = asm_constraint_string(
        &strings(&["al"]),
        &strings(&["dx", "reg"]),
        &strings(&["memory", "cc"]),
    );
    assert_eq!(s, "={al},{dx},r,~{memory},~{cc}");
    assert_eq!(asm_constraint_string(&strings(&[]), &strings(&[]), &strings(&[])), "");
}

#[test]
fn asm_config_reading() {
    let mut names = Interner::new();
    let asm_key = names.intern("asm");
    let volatile = names.intern("volatile");
    let outputs = names.intern("outputs");
    let inputs = names.intern("inputs");
    let clobbers = names.intern("clobbers");
    let al = names.intern("al");
    let dx = names.intern("dx");
    let other = names.intern("comment");
    let fields = vec![
        field(
            asm_key,
            e(ExprKind::DataInit {
                type_node: None,
                literal: DataLiteralKind::Array(vec![
                    e(ExprKind::String("in al, dx".to_string())),
                    e(ExprKind::Integer(1)),
                    e(ExprKind::String("nop".to_string())),
                ]),
            }),
        ),
        field(
            outputs,
            e(ExprKind::DataInit {
                type_node: None,
                literal: DataLiteralKind::Struct(vec![field(al, e(ExprKind::Identifier(SymbolId(99))))]),
            }),
        ),
        field(
            inputs,
            e(ExprKind::DataInit {
                type_node: None,
                literal: DataLiteralKind::Struct(vec![
                    field(dx, e(ExprKind::Integer(0x3F8))),
                    field(SymbolId(500), e(ExprKind::Integer(1))),
                ]),
            }),
        ),
        field(volatile, e(ExprKind::Bool(true))),
        field(
            clobbers,
            e(ExprKind::DataInit {
                type_node: None,
                literal: DataLiteralKind::Array(vec![e(ExprKind::String("memory".to_string()))]),
            }),
        ),
        field(other, e(ExprKind::Bool(false))),
    ];
    let cfg = read_asm_config(&names, &fields);
    assert_eq!(cfg.template, "in al, dx\nnop");
    assert!(cfg.is_volatile);
    assert_eq!(cfg.outputs.len(), 1);
    assert_eq!(cfg.outputs[0].register, "al");
    assert_eq!((cfg.outputs[0].field, cfg.outputs[0].entry), (1, 0));
    assert_eq!(cfg.inputs.len(), 2);
    assert_eq!(cfg.inputs[0].register, "dx");
    assert_eq!(cfg.inputs[1].register, "<unknown>");
    assert_eq!((cfg.inputs[1].field, cfg.inputs[1].entry), (2, 1));
    assert_eq!(cfg.clobbers, vec!["memory".to_string()]);
    assert_eq!(asm_config_constraints(&cfg), "={al},{dx},{<unknown>},~{memory}");
}

#[test]
fn asm_config_single_string_template() {
    let mut names = Interner::new();
    let asm_key = names.intern("asm");
    let fields = vec![field(asm_key, e(ExprKind::String("hlt".to_string())))];
    let cfg = read_asm_config(&names, &fields);
    assert_eq!(cfg.template, "hlt");
    assert!(!cfg.is_volatile);
    assert!(cfg.outputs.is_empty() && cfg.inputs.is_empty() && cfg.clobbers.is_empty());
}

#[test]
fn strip_all_mut_layers() {
    let mut reg = TypeRegistry::new();
    let i32_ty = prim(PrimitiveType::I32);
    let m1 = reg.intern(TypeKind::Mut(i32_ty));
    let m2 = reg.intern(TypeKind::Mut(m1));
    let a = reg.intern(TypeKind::Alias(SymbolId(1), m2));
    assert_eq!(strip_mut_modifier(&reg, a), i32_ty);
    assert_eq!(strip_mut_modifier(&reg, i32_ty), i32_ty);
}

#[test]
fn implicit_array_to_slice() {
    let mut reg = TypeRegistry::new();
    let u8_ty = prim(PrimitiveType::U8);
    let arr = reg.intern(TypeKind::Array { elem: u8_ty, len: 3 });
    let slice = reg.intern(TypeKind::Slice(u8_ty));
    let e = apply_implicit_cast(&reg, MastExprKind::Var(SymbolId(4)), arr, slice, Span::new(1, 2));
    assert_eq!(e.ty, slice);
    match e.kind {
        MastExprKind::Cast { kind, operand } => {
            assert_eq!(kind, MastCastKind::ArrayToSlice);
            assert_eq!(operand.ty, arr);
            assert!(matches!(operand.kind, MastExprKind::Var(SymbolId(4))));
        }
        _ => panic!("expected a cast"),
    }
    let same = apply_implicit_cast(&reg, MastExprKind::Bool(true), u8_ty, u8_ty, Span::new(0, 0));
    assert_eq!(same.ty, u8_ty);
    assert!(matches!(same.kind, MastExprKind::Bool(true)));
}

use kernc::mast::lower::{lower_binary_node, lower_unary_node};
use kernc::parser::ast::{BinaryOperator, UnaryOperator};

fn var(n: u32) -> MastExpr {
    MastExpr::new(prim(PrimitiveType::Bool), MastExprKind::Var(SymbolId(n)), Span::new(0, 1))
}

#[test]
fn logical_operators_short_circuit() {
    let k = lower_binary_node(BinaryOperator::LogicalAnd, var(1), var(2), Span::new(5, 6));
    match k {
        MastExprKind::If { cond, then_branch, else_branch: Some(e) } => {
            assert!(matches!(cond.kind, MastExprKind::Var(SymbolId(1))));
            assert!(then_branch.stmts.is_empty());
            assert!(matches!(then_branch.result.unwrap().kind, MastExprKind::Var(SymbolId(2))));
            let f = e.result.unwrap();
            assert!(matches!(f.kind, MastExprKind::Bool(false)));
            assert_eq!(f.ty, prim(PrimitiveType::Bool));
            assert_eq!(f.span, Span::new(5, 6));
        }
        _ => panic!("expected a conditional"),
    }
    let k = lower_binary_node(BinaryOperator::LogicalOr, var(1), var(2), Span::new(5, 6));
    match k {
        MastExprKind::If { then_branch, else_branch: Some(e), .. } => {
            assert!(matches!(then_branch.result.unwrap().kind, MastExprKind::Bool(true)));
            assert!(matches!(e.result.unwrap().kind, MastExprKind::Var(SymbolId(2))));
        }
        _ => panic!("expected a conditional"),
    }
    let k = lower_binary_node(BinaryOperator::Add, var(1), var(2), Span::new(0, 0));
    assert!(matches!(k, MastExprKind::Binary { op: BinaryOperator::Add, .. }));
}

#[test]
fn unary_nodes() {
    assert!(matches!(lower_unary_node(UnaryOperator::AddressOf, var(1)), MastExprKind::AddressOf(_)));
    assert!(matches!(lower_unary_node(UnaryOperator::PointerDeRef, var(1)), MastExprKind::Deref(_)));
    assert!(matches!(
        lower_unary_node(UnaryOperator::Negate, var(1)),
        MastExprKind::Unary { op: UnaryOperator::Negate, .. }
    ));
}

use kernc::mast::lower::resolve_vtable_source_base;
use kernc::sema::ty::DefId;

#[test]
fn vtable_source_base() {
    let mut reg = TypeRegistry::new();
    let i32_ty = prim(PrimitiveType::I32);
    let s = reg.intern(TypeKind::Def(DefId(4), vec![i32_ty]));
    let m = reg.intern(TypeKind::Mut(s));
    let p = reg.intern(TypeKind::Pointer(m));
    let a = reg.intern(TypeKind::Alias(SymbolId(2), p));
    assert_eq!(resolve_vtable_source_base(&reg, a), (s, vec![i32_ty]));
    assert_eq!(resolve_vtable_source_base(&reg, i32_ty), (i32_ty, vec![]));
}

#[test]
fn lambda_body_sees_only_its_parameters() {
    let mut ctx = Context::new(false);
    let outer = ctx.intern("count");
    let param = ctx.intern("n");
    let i32_ty = TypeId::primitive(PrimitiveType::I32);
    // The function around the lambda has `count` as a local.
    let mut function_frames: Vec<HashMap<u32, TypeId>> = vec![HashMap::new()];
    function_frames[0].insert(outer.0, i32_ty);
    assert!(is_local(&function_frames, outer));
    check_capture(&mut ctx, &function_frames, outer, Span::new(1, 2));
    assert_eq!(ctx.diagnostics.len(), 0);
    // Inside the lambda only `n` is a local.
    let frames = lambda_frames(&vec![(param, i32_ty)]);
    assert_eq!(frames.len(), 1);
    assert!(is_local(&frames, param));
    assert!(!is_local(&frames, outer));
    assert!(!is_local(&frames, SymbolId(999)));
    check_capture(&mut ctx, &frames, param, Span::new(1, 2));
    assert_eq!(ctx.diagnostics.len(), 0);
    check_capture(&mut ctx, &frames, outer, Span::new(4, 9));
    assert_eq!(ctx.diagnostics.len(), 1);
    let d = &ctx.diagnostics[0];
    assert_eq!(d.message, "closures cannot capture environmental variables in Kern");
    assert_eq!(d.primary_span, Span::new(4, 9));
    assert_eq!(
        d.hints,
        vec![
            "variable `count` belongs to an outer scope".to_string(),
            "Kern anonymous functions compile directly to static C function pointers".to_string(),
        ]
    );
    assert_eq!(ctx.error_count, 1);
}

#[test]
fn mono_cache_one_id_per_instance() {
    use_mono_cache();
}

#[test]
fn instance_names_and_bindings() {
    use_instance_helpers();
}

fn use_instance_helpers() {
    let i32_ty = TypeId::primitive(PrimitiveType::I32);
    let u8_ty = TypeId::primitive(PrimitiveType::U8);
    assert_eq!(kernc::mast::mono::mangled_name("max", &vec![i32_ty, u8_ty]), "max_4_7");
    assert_eq!(kernc::mast::mono::mangled_name("main", &vec![]), "main");
    let t = SymbolId(10);
    let u = SymbolId(11);
    let m = kernc::mast::mono::bind_instance_params(&vec![t], &vec![u], &vec![i32_ty, u8_ty]);
    assert_eq!(m.len(), 2);
    assert_eq!(m.get(&10), Some(&i32_ty));
    assert_eq!(m.get(&11), Some(&u8_ty));
    // Parameters past the arguments stay unbound.
    let m2 = kernc::mast::mono::bind_instance_params(&vec![t], &vec![u], &vec![u8_ty]);
    assert_eq!(m2.len(), 1);
    assert_eq!(m2.get(&10), Some(&u8_ty));
}

fn use_mono_cache() {
    let mut c = kernc::mast::mono::MonoCache::new();
    let d = kernc::sema::ty::DefId(4);
    let i32_ty = TypeId::primitive(PrimitiveType::I32);
    let u8_ty = TypeId::primitive(PrimitiveType::U8);
    assert_eq!(c.instance(d, &vec![i32_ty]), (MonoId(1), true));
    assert_eq!(c.instance(d, &vec![u8_ty]), (MonoId(2), true));
    assert_eq!(c.instance(d, &vec![i32_ty]), (MonoId(1), false));
    assert_eq!(c.new_mono_id(), MonoId(3));
    assert_eq!(c.instance(kernc::sema::ty::DefId(5), &vec![i32_ty]), (MonoId(4), true));
    assert_eq!(c.instance(d, &vec![]), (MonoId(5), true));
    assert_eq!(c.instance(d, &vec![u8_ty]), (MonoId(2), false));
}

fn call_of(ctx: &mut Context, def: u32, args: Vec<TypeId>) -> MastExpr {
    let ty = ctx.type_registry.intern(TypeKind::FnDef(DefId(def), args));
    MastExpr::new(ty, MastExprKind::Undef, Span::new(1, 2))
}

#[test]
fn intrinsic_names_are_recognised() {
    assert!(matches!(intrinsic_of("@sizeOf"), Some(Intrinsic::SizeOf)));
    assert!(matches!(intrinsic_of("@trap"), Some(Intrinsic::Trap)));
    assert!(matches!(intrinsic_of("@memset"), Some(Intrinsic::Memset)));
    assert!(intrinsic_of("sizeOf").is_none());
    assert!(intrinsic_of("@nothing").is_none());
}

#[test]
fn calls_lower_to_intrinsics_or_instances() {
    let mut ctx = Context::new(false);
    ctx.target.pointer_size = 8;
    let size_of = ctx.intern("@sizeOf");
    let int_cast = ctx.intern("@intCast");
    let trap = ctx.intern("@trap");
    let pop = ctx.intern("@popCount");
    let user = ctx.intern("add");
    let defs = vec![
        DefLink::Function { is_pub: true, name: size_of, is_intrinsic: true },
        DefLink::Function { is_pub: true, name: int_cast, is_intrinsic: true },
        DefLink::Function { is_pub: true, name: trap, is_intrinsic: true },
        DefLink::Function { is_pub: true, name: pop, is_intrinsic: true },
        DefLink::Function { is_pub: true, name: user, is_intrinsic: false },
        DefLink::Function { is_pub: true, name: size_of, is_intrinsic: false },
    ];
    let mut mono = MonoCache::new();
    let arg = |t: PrimitiveType, v: u128| MastExpr::new(prim(t), MastExprKind::Integer(v), Span::new(3, 4));

    let c = call_of(&mut ctx, 0, vec![prim(PrimitiveType::U64)]);
    let (k, fresh) = lower_normal_call(&mut ctx, &defs, &mut mono, c, vec![]);
    assert!(matches!(k, MastExprKind::Integer(8)));
    assert!(fresh.is_none());

    let arr = ctx.type_registry.intern(TypeKind::Array { elem: prim(PrimitiveType::U16), len: 5 });
    let c = call_of(&mut ctx, 0, vec![arr]);
    let (k, _) = lower_normal_call(&mut ctx, &defs, &mut mono, c, vec![]);
    assert!(matches!(k, MastExprKind::Integer(10)));

    let c = call_of(&mut ctx, 1, vec![prim(PrimitiveType::I32), prim(PrimitiveType::I64)]);
    let (k, _) = lower_normal_call(&mut ctx, &defs, &mut mono, c, vec![arg(PrimitiveType::I32, 3)]);
    match k {
        MastExprKind::Cast { kind, operand } => {
            assert!(matches!(kind, MastCastKind::SignExt));
            assert!(matches!(operand.kind, MastExprKind::Integer(3)));
        }
        _ => panic!("expected a cast"),
    }

    let c = call_of(&mut ctx, 1, vec![prim(PrimitiveType::U64), prim(PrimitiveType::U8)]);
    let (k, _) = lower_normal_call(&mut ctx, &defs, &mut mono, c, vec![arg(PrimitiveType::U64, 300)]);
    assert!(matches!(k, MastExprKind::Cast { kind: MastCastKind::Trunc, .. }));

    let c = call_of(&mut ctx, 2, vec![]);
    let (k, _) = lower_normal_call(&mut ctx, &defs, &mut mono, c, vec![]);
    assert!(matches!(k, MastExprKind::Trap));

    let c = call_of(&mut ctx, 3, vec![]);
    let (k, _) = lower_normal_call(&mut ctx, &defs, &mut mono, c, vec![arg(PrimitiveType::U32, 7)]);
    assert!(matches!(k, MastExprKind::BitIntrinsic { kind: BitIntrinsicKind::PopCount, .. }));

    // A user function: the first call of an instance hands it back, the
    // second reuses its id.
    let c = call_of(&mut ctx, 4, vec![prim(PrimitiveType::I32)]);
    let (k, fresh) = lower_normal_call(&mut ctx, &defs, &mut mono, c, vec![arg(PrimitiveType::I32, 1)]);
    let first = match k {
        MastExprKind::Call { callee, args } => {
            assert_eq!(args.len(), 1);
            match callee.kind {
                MastExprKind::FuncRef(id) => id,
                _ => panic!("expected a function reference"),
            }
        }
        _ => panic!("expected a call"),
    };
    let (d, targs, id) = fresh.expect("a new instance");
    assert_eq!(d, DefId(4));
    assert_eq!(targs, vec![prim(PrimitiveType::I32)]);
    assert_eq!(id, first);
    let c = call_of(&mut ctx, 4, vec![prim(PrimitiveType::I32)]);
    let (k, fresh) = lower_normal_call(&mut ctx, &defs, &mut mono, c, vec![]);
    assert!(fresh.is_none());
    assert!(matches!(k, MastExprKind::Call { callee, .. } if matches!(callee.kind, MastExprKind::FuncRef(i) if i == first)));
    let c = call_of(&mut ctx, 4, vec![prim(PrimitiveType::U8)]);
    let (_, fresh) = lower_normal_call(&mut ctx, &defs, &mut mono, c, vec![]);
    assert!(matches!(fresh, Some((_, _, i)) if i != first));

    // A function named like an intrinsic but not marked as one is an instance.
    let c = call_of(&mut ctx, 5, vec![prim(PrimitiveType::U64)]);
    let (k, fresh) = lower_normal_call(&mut ctx, &defs, &mut mono, c, vec![]);
    assert!(matches!(k, MastExprKind::Call { .. }));
    assert!(fresh.is_some());

    // A call through a function pointer stays as it is.
    let fptr = ctx.type_registry.intern(TypeKind::Pointer(prim(PrimitiveType::U8)));
    let callee = MastExpr::new(fptr, MastExprKind::Integer(0), Span::new(0, 0));
    let (k, fresh) = lower_normal_call(&mut ctx, &defs, &mut mono, callee, vec![]);
    assert!(fresh.is_none());
    assert!(matches!(k, MastExprKind::Call { callee, .. } if matches!(callee.kind, MastExprKind::Integer(0))));
}

#[test]
fn lambdas_are_lifted_to_functions_of_their_own() {
    let mut reg = TypeRegistry::new();
    let mut mono = MonoCache::new();
    let x = SymbolId(3);
    let y = SymbolId(4);
    let fn_ty = reg.intern(TypeKind::Function {
        params: vec![prim(PrimitiveType::I32), prim(PrimitiveType::U8)],
        ret: prim(PrimitiveType::Bool),
        is_variadic: false,
    });
    let first = lift_lambda(&mut mono, &reg, &vec![x, y], fn_ty);
    assert_eq!(first.id, MonoId(1));
    assert_eq!(first.name, "__kern_lambda_1");
    assert_eq!(first.params.len(), 2);
    assert_eq!(first.params[0].name, x);
    assert_eq!(first.params[0].ty, prim(PrimitiveType::I32));
    assert_eq!(first.params[1].ty, prim(PrimitiveType::U8));
    assert_eq!(first.ret_ty, prim(PrimitiveType::Bool));
    assert!(is_local(&first.frames, y));
    assert!(!is_local(&first.frames, SymbolId(5)));

    let second = lift_lambda(&mut mono, &reg, &vec![], fn_ty);
    assert_eq!(second.name, "__kern_lambda_2");
    assert!(second.params.is_empty());

    let mut functions: Vec<MastFunction> = Vec::new();
    let body = MastBlock { stmts: vec![], result: None, defers: vec![] };
    let k = finish_lambda(&mut functions, first, body);
    assert!(matches!(k, MastExprKind::FuncRef(MonoId(1))));
    assert_eq!(functions.len(), 1);
    assert_eq!(functions[0].name, "__kern_lambda_1");
    assert_eq!(functions[0].id, MonoId(1));
    assert!(functions[0].body.is_some());
    assert!(!functions[0].is_extern);
}
