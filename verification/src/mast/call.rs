use super::ast::{BitIntrinsicKind, MastCastKind, MastExpr, MastExprKind, MonoId};
use super::lower::{determine_int_cast_kind, int_cast_kind};
use super::mono::MonoCache;
use crate::driver::context::Context;
use crate::sema::resolve_path::DefLink;
use crate::sema::ty::{DefId, TypeId, TypeShape};
use crate::sema::typeck::layout::{compute_type_align, compute_type_size, defs_types_below, pointer_size_ok, ty_layout};
use crate::utils::{symbol_text, text_eq};
use vstd::prelude::*;

verus! {

// Lowering a call of a named function: compiler intrinsics become their own
// nodes (or constants), and any other function is called through the id of
// its instance for the call's type arguments.

/// The compiler intrinsics that a call can name.
#[derive(Debug, Clone, Copy, PartialEq, Eq, Structural)]
pub enum Intrinsic {
    SizeOf,
    AlignOf,
    IntCast,
    FloatCast,
    IntToFloat,
    FloatToInt,
    Unreachable,
    PopCount,
    Clz,
    Ctz,
    Bswap,
    Trap,
    Fence,
    Breakpoint,
    Memcpy,
    Memset,
}

/// The intrinsic that `name` spells, if any.
pub open spec fn intrinsic_named(name: Seq<char>) -> Option<Intrinsic> {
    if name == "@sizeOf"@ {
        Some(Intrinsic::SizeOf)
    } else if name == "@alignOf"@ {
        Some(Intrinsic::AlignOf)
    } else if name == "@intCast"@ {
        Some(Intrinsic::IntCast)
    } else if name == "@floatCast"@ {
        Some(Intrinsic::FloatCast)
    } else if name == "@intToFloat"@ {
        Some(Intrinsic::IntToFloat)
    } else if name == "@floatToInt"@ {
        Some(Intrinsic::FloatToInt)
    } else if name == "@unreachable"@ {
        Some(Intrinsic::Unreachable)
    } else if name == "@popCount"@ {
        Some(Intrinsic::PopCount)
    } else if name == "@clz"@ {
        Some(Intrinsic::Clz)
    } else if name == "@ctz"@ {
        Some(Intrinsic::Ctz)
    } else if name == "@bswap"@ {
        Some(Intrinsic::Bswap)
    } else if name == "@trap"@ {
        Some(Intrinsic::Trap)
    } else if name == "@fence"@ {
        Some(Intrinsic::Fence)
    } else if name == "@breakpoint"@ {
        Some(Intrinsic::Breakpoint)
    } else if name == "@memcpy"@ {
        Some(Intrinsic::Memcpy)
    } else if name == "@memset"@ {
        Some(Intrinsic::Memset)
    } else {
        None
    }
}

/// The intrinsic that `name` spells, if any.
pub fn intrinsic_of(name: &str) -> (r: Option<Intrinsic>)
    ensures
        r == intrinsic_named(name@),
{
    if text_eq(name, "@sizeOf") {
        Some(Intrinsic::SizeOf)
    } else if text_eq(name, "@alignOf") {
        Some(Intrinsic::AlignOf)
    } else if text_eq(name, "@intCast") {
        Some(Intrinsic::IntCast)
    } else if text_eq(name, "@floatCast") {
        Some(Intrinsic::FloatCast)
    } else if text_eq(name, "@intToFloat") {
        Some(Intrinsic::IntToFloat)
    } else if text_eq(name, "@floatToInt") {
        Some(Intrinsic::FloatToInt)
    } else if text_eq(name, "@unreachable") {
        Some(Intrinsic::Unreachable)
    } else if text_eq(name, "@popCount") {
        Some(Intrinsic::PopCount)
    } else if text_eq(name, "@clz") {
        Some(Intrinsic::Clz)
    } else if text_eq(name, "@ctz") {
        Some(Intrinsic::Ctz)
    } else if text_eq(name, "@bswap") {
        Some(Intrinsic::Bswap)
    } else if text_eq(name, "@trap") {
        Some(Intrinsic::Trap)
    } else if text_eq(name, "@fence") {
        Some(Intrinsic::Fence)
    } else if text_eq(name, "@breakpoint") {
        Some(Intrinsic::Breakpoint)
    } else if text_eq(name, "@memcpy") {
        Some(Intrinsic::Memcpy)
    } else if text_eq(name, "@memset") {
        Some(Intrinsic::Memset)
    } else {
        None
    }
}

/// What a call goes to.
pub enum CallTarget {
    /// A compiler intrinsic, with the call's type arguments.
    Intrinsic(Intrinsic, Seq<TypeId>),
    /// The instance of function `d` for the type arguments.
    Instance(DefId, Seq<TypeId>),
    /// Anything else that can be called (a function pointer).
    Plain,
}

/// The intrinsic that definition `d` is, if it is one.
pub open spec fn intrinsic_of_def(defs: Seq<DefLink>, names: Seq<Seq<char>>, d: DefId) -> Option<Intrinsic> {
    if d.0 < defs.len() {
        match defs[d.0 as int] {
            DefLink::Function { name, is_intrinsic, .. } => if is_intrinsic {
                intrinsic_named(symbol_text(names, name))
            } else {
                None
            },
            _ => None,
        }
    } else {
        None
    }
}

/// What the callee, of type `ty`, is.
pub open spec fn call_target(s: Seq<TypeShape>, defs: Seq<DefLink>, names: Seq<Seq<char>>, ty: TypeId) -> CallTarget {
    if ty.0 < s.len() {
        match s[ty.0 as int] {
            TypeShape::FnDef(d, a) => match intrinsic_of_def(defs, names, d) {
                Some(k) => CallTarget::Intrinsic(k, a),
                None => CallTarget::Instance(d, a),
            },
            _ => CallTarget::Plain,
        }
    } else {
        CallTarget::Plain
    }
}

/// The number of value arguments an intrinsic takes.
pub open spec fn intrinsic_arity(k: Intrinsic) -> nat {
    match k {
        Intrinsic::IntCast | Intrinsic::FloatCast | Intrinsic::IntToFloat | Intrinsic::FloatToInt
        | Intrinsic::PopCount | Intrinsic::Clz | Intrinsic::Ctz | Intrinsic::Bswap => 1,
        Intrinsic::Memcpy | Intrinsic::Memset => 3,
        _ => 0,
    }
}

/// The number of type arguments an intrinsic reads.
pub open spec fn intrinsic_type_args(k: Intrinsic) -> nat {
    match k {
        Intrinsic::SizeOf | Intrinsic::AlignOf => 1,
        Intrinsic::IntCast => 2,
        _ => 0,
    }
}

/// The call can be lowered without failing: enough arguments for an
/// intrinsic (and a layout for `@sizeOf`/`@alignOf`, an integer-typed
/// operand for `@intCast`), a function definition for an instance.
pub open spec fn call_lowerable(ctx: Context, defs: Seq<DefLink>, mono: MonoCache, callee: MastExpr, args: Seq<MastExpr>) -> bool {
    let s = ctx.type_registry@;
    let ptr = ctx.target.pointer_size;
    match call_target(s, defs, ctx.interner@, callee.ty) {
        CallTarget::Intrinsic(k, a) => {
            &&& args.len() >= intrinsic_arity(k)
            &&& a.len() >= intrinsic_type_args(k)
            &&& (k == Intrinsic::SizeOf ==> ty_layout(s, defs, ptr as nat, a[0], 0, true) is Some)
            &&& (k == Intrinsic::AlignOf ==> ty_layout(s, defs, ptr as nat, a[0], 0, false) is Some)
            &&& (k == Intrinsic::IntCast ==> args[0].ty.0 < s.len())
        },
        CallTarget::Instance(d, _) => {
            &&& d.0 < defs.len()
            &&& defs[d.0 as int] is Function
            &&& mono.next() < u32::MAX
        },
        CallTarget::Plain => true,
    }
}

/// The node of an intrinsic call that needs no layout.
pub open spec fn intrinsic_node(ctx: Context, k: Intrinsic, a: Seq<TypeId>, args: Seq<MastExpr>) -> MastExprKind {
    match k {
        Intrinsic::IntCast => MastExprKind::Cast {
            kind: int_cast_kind(&ctx.type_registry, args[0].ty, a[1], ctx.target.pointer_size),
            operand: Box::new(args[0]),
        },
        Intrinsic::FloatCast => MastExprKind::Cast { kind: MastCastKind::FloatCast, operand: Box::new(args[0]) },
        Intrinsic::IntToFloat => MastExprKind::Cast { kind: MastCastKind::IntToFloat, operand: Box::new(args[0]) },
        Intrinsic::FloatToInt => MastExprKind::Cast { kind: MastCastKind::FloatToInt, operand: Box::new(args[0]) },
        Intrinsic::Unreachable => MastExprKind::Unreachable,
        Intrinsic::PopCount => MastExprKind::BitIntrinsic { kind: BitIntrinsicKind::PopCount, operand: Box::new(args[0]) },
        Intrinsic::Clz => MastExprKind::BitIntrinsic { kind: BitIntrinsicKind::Clz, operand: Box::new(args[0]) },
        Intrinsic::Ctz => MastExprKind::BitIntrinsic { kind: BitIntrinsicKind::Ctz, operand: Box::new(args[0]) },
        Intrinsic::Bswap => MastExprKind::BitIntrinsic { kind: BitIntrinsicKind::Bswap, operand: Box::new(args[0]) },
        Intrinsic::Trap => MastExprKind::Trap,
        Intrinsic::Fence => MastExprKind::Fence,
        Intrinsic::Breakpoint => MastExprKind::Breakpoint,
        Intrinsic::Memcpy => MastExprKind::Memcpy {
            dest: Box::new(args[0]),
            src: Box::new(args[1]),
            len: Box::new(args[2]),
        },
        Intrinsic::Memset => MastExprKind::Memset {
            dest: Box::new(args[0]),
            val: Box::new(args[1]),
            len: Box::new(args[2]),
        },
        _ => MastExprKind::Undef,
    }
}

/// Only the registry of `after` may differ from `before`.
pub open spec fn only_types_grow(before: Context, after: Context) -> bool {
    &&& before.type_registry@.is_prefix_of(after.type_registry@)
    &&& after.interner == before.interner
    &&& after.diagnostics == before.diagnostics
    &&& after.error_count == before.error_count
    &&& after.scopes == before.scopes
    &&& after.target == before.target
    &&& after.custom_defines == before.custom_defines
    &&& after.module_aliases == before.module_aliases
    &&& after.next_node_id == before.next_node_id
    &&& after.use_color == before.use_color
}

/// The intrinsic that definition `d` is, read from the definitions.
fn callee_intrinsic(ctx: &Context, defs: &Vec<DefLink>, d: DefId) -> (r: Option<Intrinsic>)
    ensures
        r == intrinsic_of_def(defs@, ctx.interner@, d),
{
    if (d.0 as usize) < defs.len() {
        match &defs[d.0 as usize] {
            DefLink::Function { name, is_intrinsic, .. } => {
                if *is_intrinsic {
                    intrinsic_of(ctx.resolve(*name))
                } else {
                    None
                }
            },
            _ => None,
        }
    } else {
        None
    }
}

/// The node of a call of intrinsic `k` with type arguments `a` and the
/// lowered arguments `args`.
fn lower_intrinsic_call(
    ctx: &mut Context,
    defs: &Vec<DefLink>,
    k: Intrinsic,
    a: &Vec<TypeId>,
    args: Vec<MastExpr>,
) -> (r: MastExprKind)
    requires
        old(ctx).wf(),
        pointer_size_ok(old(ctx).target.pointer_size),
        defs_types_below(defs@, old(ctx).type_registry@.len()),
        forall|i: int| 0 <= i < a@.len() ==> #[trigger] a@[i].0 < old(ctx).type_registry@.len(),
        args@.len() >= intrinsic_arity(k),
        a@.len() >= intrinsic_type_args(k),
        k == Intrinsic::SizeOf ==> ty_layout(old(ctx).type_registry@, defs@, old(ctx).target.pointer_size as nat, a@[0], 0, true) is Some,
        k == Intrinsic::AlignOf ==> ty_layout(old(ctx).type_registry@, defs@, old(ctx).target.pointer_size as nat, a@[0], 0, false) is Some,
        k == Intrinsic::IntCast ==> args@[0].ty.0 < old(ctx).type_registry@.len(),
    ensures
        final(ctx).wf(),
        only_types_grow(*old(ctx), *final(ctx)),
        if k == Intrinsic::SizeOf || k == Intrinsic::AlignOf {
            exists|z: nat| {
                &&& ty_layout(
                    old(ctx).type_registry@,
                    defs@,
                    old(ctx).target.pointer_size as nat,
                    a@[0],
                    0,
                    k == Intrinsic::SizeOf,
                ) == Some((final(ctx).type_registry@, z))
                &&& r == MastExprKind::Integer(z as u128)
            }
        } else {
            &&& r == intrinsic_node(*old(ctx), k, a@, args@)
            &&& *final(ctx) == *old(ctx)
        },
{
    let ghost args0 = args@;
    let mut args = args;
    let ptr = ctx.target.pointer_size;
    match k {
        Intrinsic::SizeOf => {
            let z = compute_type_size(&mut ctx.type_registry, defs, ptr, a[0]);
            MastExprKind::Integer(z as u128)
        },
        Intrinsic::AlignOf => {
            let z = compute_type_align(&mut ctx.type_registry, defs, ptr, a[0]);
            MastExprKind::Integer(z as u128)
        },
        Intrinsic::IntCast => {
            let operand = args.remove(0);
            let cast = determine_int_cast_kind(&ctx.type_registry, operand.ty, a[1], ptr);
            MastExprKind::Cast { kind: cast, operand: Box::new(operand) }
        },
        Intrinsic::FloatCast => MastExprKind::Cast { kind: MastCastKind::FloatCast, operand: Box::new(args.remove(0)) },
        Intrinsic::IntToFloat => MastExprKind::Cast { kind: MastCastKind::IntToFloat, operand: Box::new(args.remove(0)) },
        Intrinsic::FloatToInt => MastExprKind::Cast { kind: MastCastKind::FloatToInt, operand: Box::new(args.remove(0)) },
        Intrinsic::Unreachable => MastExprKind::Unreachable,
        Intrinsic::PopCount => MastExprKind::BitIntrinsic { kind: BitIntrinsicKind::PopCount, operand: Box::new(args.remove(0)) },
        Intrinsic::Clz => MastExprKind::BitIntrinsic { kind: BitIntrinsicKind::Clz, operand: Box::new(args.remove(0)) },
        Intrinsic::Ctz => MastExprKind::BitIntrinsic { kind: BitIntrinsicKind::Ctz, operand: Box::new(args.remove(0)) },
        Intrinsic::Bswap => MastExprKind::BitIntrinsic { kind: BitIntrinsicKind::Bswap, operand: Box::new(args.remove(0)) },
        Intrinsic::Trap => MastExprKind::Trap,
        Intrinsic::Fence => MastExprKind::Fence,
        Intrinsic::Breakpoint => MastExprKind::Breakpoint,
        Intrinsic::Memcpy => {
            let dest = args.remove(0);
            let src = args.remove(0);
            let len = args.remove(0);
            MastExprKind::Memcpy { dest: Box::new(dest), src: Box::new(src), len: Box::new(len) }
        },
        Intrinsic::Memset => {
            let dest = args.remove(0);
            let val = args.remove(0);
            let len = args.remove(0);
            MastExprKind::Memset { dest: Box::new(dest), val: Box::new(val), len: Box::new(len) }
        },
    }
}

/// Lower a call of the lowered callee `callee` with the lowered arguments
/// `args`. A call of an intrinsic becomes its node: `@sizeOf[T]` and
/// `@alignOf[T]` the integer constant of `T`'s layout, `@intCast[T, U]` a
/// cast of its operand to `U` of the kind the two integer sizes call for,
/// the other casts and bit intrinsics nodes of their own. A call of any
/// other function calls its instance for the call's type arguments; where
/// that instance is new, it is handed back so that its body gets built.
/// Anything else is called as it is.
#[verifier::spinoff_prover]
#[verifier::rlimit(40)]
pub fn lower_normal_call(
    ctx: &mut Context,
    defs: &Vec<DefLink>,
    mono: &mut MonoCache,
    callee: MastExpr,
    args: Vec<MastExpr>,
) -> (r: (MastExprKind, Option<(DefId, Vec<TypeId>, MonoId)>))
    requires
        old(ctx).wf(),
        old(ctx).type_registry.contains(callee.ty),
        pointer_size_ok(old(ctx).target.pointer_size),
        defs_types_below(defs@, old(ctx).type_registry@.len()),
        old(mono).wf(),
        call_lowerable(*old(ctx), defs@, *old(mono), callee, args@),
    ensures
        final(ctx).wf(),
        final(mono).wf(),
        only_types_grow(*old(ctx), *final(ctx)),
        match call_target(old(ctx).type_registry@, defs@, old(ctx).interner@, callee.ty) {
            CallTarget::Plain => {
                &&& r.0 == MastExprKind::Call { callee: Box::new(callee), args }
                &&& r.1 is None
                &&& *final(ctx) == *old(ctx)
                &&& *final(mono) == *old(mono)
            },
            CallTarget::Intrinsic(k, a) => {
                &&& r.1 is None
                &&& *final(mono) == *old(mono)
                &&& if k == Intrinsic::SizeOf || k == Intrinsic::AlignOf {
                    exists|z: nat| {
                        &&& ty_layout(
                            old(ctx).type_registry@,
                            defs@,
                            old(ctx).target.pointer_size as nat,
                            a[0],
                            0,
                            k == Intrinsic::SizeOf,
                        ) == Some((final(ctx).type_registry@, z))
                        &&& r.0 == MastExprKind::Integer(z as u128)
                    }
                } else {
                    &&& r.0 == intrinsic_node(*old(ctx), k, a, args@)
                    &&& *final(ctx) == *old(ctx)
                }
            },
            CallTarget::Instance(d, a) => {
                &&& *final(ctx) == *old(ctx)
                &&& match old(mono).lookup((d, a)) {
                    Some(id) => {
                        &&& r.0 == MastExprKind::Call {
                            callee: Box::new(MastExpr { ty: callee.ty, span: callee.span, kind: MastExprKind::FuncRef(id) }),
                            args,
                        }
                        &&& r.1 is None
                        &&& *final(mono) == *old(mono)
                    },
                    None => {
                        let id = MonoId(old(mono).next());
                        &&& r.0 == MastExprKind::Call {
                            callee: Box::new(MastExpr { ty: callee.ty, span: callee.span, kind: MastExprKind::FuncRef(id) }),
                            args,
                        }
                        &&& r.1 matches Some(n) && n.0 == d && n.1@ == a && n.2 == id
                        &&& final(mono).next() == old(mono).next() + 1
                        &&& final(mono).instances() == old(mono).instances().push(((d, a), id))
                    },
                }
            },
        },
{
    let kind = crate::sema::ty::copy_kind(ctx.type_registry.get(callee.ty));
    match kind {
        crate::sema::ty::TypeKind::FnDef(fn_id, fn_args) => {
            let intrinsic = callee_intrinsic(ctx, defs, fn_id);
            match intrinsic {
                Some(k) => {
                    proof {
                        assert forall|i: int| 0 <= i < fn_args@.len() implies #[trigger] fn_args@[i].0 < ctx.type_registry@.len() by {
                            assert(ctx.type_registry.contains(callee.ty));
                        }
                    }
                    let node = lower_intrinsic_call(ctx, defs, k, &fn_args, args);
                    (node, None)
                },
                None => {
                    let (id, fresh) = mono.instance(fn_id, &fn_args);
                    let func_ref = MastExpr::new(callee.ty, MastExprKind::FuncRef(id), callee.span);
                    let call = MastExprKind::Call { callee: Box::new(func_ref), args };
                    if fresh {
                        (call, Some((fn_id, fn_args, id)))
                    } else {
                        (call, None)
                    }
                },
            }
        },
        _ => (MastExprKind::Call { callee: Box::new(callee), args }, None),
    }
}

} // verus!
