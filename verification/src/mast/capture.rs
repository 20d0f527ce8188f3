use crate::driver::context::{diagnostic_added, Context};
use crate::driver::diagnostic::DiagnosticLevel;
use super::ast::{MastBlock, MastExprKind, MastFunction, MastParam, MonoId};
use super::mono::MonoCache;
use crate::sema::ty::{TypeId, TypeKind, TypeRegistry, TypeShape};
use crate::utils::{concat3, decimal, decimal_text, digit_char, symbol_text, Span, SymbolId};
use std::collections::HashMap;
use vstd::prelude::*;

verus! {

broadcast use vstd::std_specs::hash::group_hash_axioms;

// Lambdas are stateless: inside a lambda's body only its own parameters
// and locals are variables, and a use of a variable of the function around
// it is reported.

/// The frames of local variables, innermost last, as maps from the number
/// of a variable's name to its type.
pub open spec fn frames_view(frames: Seq<HashMap<u32, TypeId>>) -> Seq<Map<u32, TypeId>> {
    frames.map_values(|m: HashMap<u32, TypeId>| m@)
}

/// Some frame binds the variable `v`.
pub open spec fn locals_contain(frames: Seq<Map<u32, TypeId>>, v: u32) -> bool {
    exists|i: int| 0 <= i < frames.len() && #[trigger] frames[i].contains_key(v)
}

/// Is the variable `v` bound in one of the frames? The frames are searched
/// from the innermost out.
pub fn is_local(frames: &Vec<HashMap<u32, TypeId>>, v: SymbolId) -> (r: bool)
    ensures
        r == locals_contain(frames_view(frames@), v.0),
{
    let mut i: usize = frames.len();
    while i > 0
        invariant
            0 <= i <= frames@.len(),
            forall|j: int| i <= j < frames@.len() ==> !(#[trigger] frames_view(frames@)[j]).contains_key(v.0),
        decreases i,
    {
        i = i - 1;
        if frames[i].contains_key(&v.0) {
            proof {
                assert(frames_view(frames@)[i as int].contains_key(v.0));
            }
            return true;
        }
    }
    false
}

pub open spec fn capture_message() -> Seq<char> {
    "closures cannot capture environmental variables in Kern"@
}

pub open spec fn outer_scope_hint(name: Seq<char>) -> Seq<char> {
    "variable `"@ + name + "` belongs to an outer scope"@
}

pub open spec fn static_pointer_hint() -> Seq<char> {
    "Kern anonymous functions compile directly to static C function pointers"@
}

/// Check a use, at `span`, of the variable `v` while lowering a function
/// body whose frames of locals are `frames`. A variable that no frame binds
/// belongs to a function around a lambda, and its use is reported; else
/// nothing changes.
pub fn check_capture(ctx: &mut Context, frames: &Vec<HashMap<u32, TypeId>>, v: SymbolId, span: Span)
    requires
        old(ctx).wf(),
        old(ctx).diagnostics@.len() < usize::MAX,
    ensures
        final(ctx).wf(),
        if locals_contain(frames_view(frames@), v.0) {
            *final(ctx) == *old(ctx)
        } else {
            diagnostic_added(
                *old(ctx),
                *final(ctx),
                DiagnosticLevel::Error,
                span,
                capture_message(),
                seq![outer_scope_hint(symbol_text(old(ctx).interner@, v)), static_pointer_hint()],
                Seq::empty(),
            )
        },
{
    if !is_local(frames, v) {
        let hint = concat3("variable `", ctx.resolve(v), "` belongs to an outer scope");
        proof {
            reveal_strlit("variable `");
            reveal_strlit("` belongs to an outer scope");
            reveal_strlit("closures cannot capture environmental variables in Kern");
            reveal_strlit("Kern anonymous functions compile directly to static C function pointers");
        }
        let b = ctx.struct_error(span, "closures cannot capture environmental variables in Kern".to_owned())
            .with_hint(hint)
            .with_hint("Kern anonymous functions compile directly to static C function pointers".to_owned());
        proof {
            assert(b.pending().hint_texts() =~= seq![
                outer_scope_hint(symbol_text(old(ctx).interner@, v)),
                static_pointer_hint(),
            ]);
        }
        b.emit(ctx);
    }
}

/// The bindings of the first `n` parameters, a later one of a name taking
/// its place.
pub open spec fn param_bindings(params: Seq<(SymbolId, TypeId)>, n: nat) -> Map<u32, TypeId>
    decreases n,
{
    if n == 0 {
        Map::empty()
    } else {
        param_bindings(params, (n - 1) as nat).insert(params[n - 1].0.0, params[n - 1].1)
    }
}

/// The frames of locals for lowering a lambda's body: the frames of the
/// function around it are left out, and one frame holds the lambda's
/// parameters.
pub fn lambda_frames(params: &Vec<(SymbolId, TypeId)>) -> (r: Vec<HashMap<u32, TypeId>>)
    ensures
        frames_view(r@) == seq![param_bindings(params@, params@.len())],
{
    let mut m: HashMap<u32, TypeId> = HashMap::new();
    let mut k: usize = 0;
    while k < params.len()
        invariant
            0 <= k <= params@.len(),
            m@ == param_bindings(params@, k as nat),
        decreases params.len() - k,
    {
        let (name, ty) = params[k];
        m.insert(name.0, ty);
        k = k + 1;
    }
    let mut r: Vec<HashMap<u32, TypeId>> = Vec::new();
    r.push(m);
    proof {
        assert(frames_view(r@) =~= seq![param_bindings(params@, params@.len())]);
    }
    r
}

proof fn lemma_param_bindings(params: Seq<(SymbolId, TypeId)>, n: nat, v: u32)
    requires
        n <= params.len(),
    ensures
        param_bindings(params, n).contains_key(v) <==> exists|i: int| 0 <= i < n && #[trigger] params[i].0.0 == v,
    decreases n,
{
    if n > 0 {
        lemma_param_bindings(params, (n - 1) as nat, v);
        if params[n - 1].0.0 == v {
            assert(params[n - 1].0.0 == v);
        }
    }
}

/// Lambdas are stateless: inside a lambda's body a name is a local
/// variable exactly when it is one of the lambda's parameters, so every
/// variable of the function around it is reported by [`check_capture`].
pub proof fn law_lambda_sees_only_params(params: Seq<(SymbolId, TypeId)>, v: u32)
    ensures
        locals_contain(seq![param_bindings(params, params.len())], v) <==> exists|i: int|
            0 <= i < params.len() && #[trigger] params[i].0.0 == v,
{
    lemma_param_bindings(params, params.len(), v);
    let frames = seq![param_bindings(params, params.len())];
    if param_bindings(params, params.len()).contains_key(v) {
        assert(frames[0].contains_key(v));
    }
}

/// A lambda lifted out of the function around it, before its body is
/// lowered: the id and name of the function it becomes, its parameters
/// with their types, its return type, and the frames of locals its body
/// is lowered in.
pub struct LiftedLambda {
    pub id: MonoId,
    pub name: String,
    pub params: Vec<MastParam>,
    pub ret_ty: TypeId,
    pub frames: Vec<HashMap<u32, TypeId>>,
}

/// The name of the function that the lambda with id `id` becomes.
pub open spec fn lambda_name(id: u32) -> Seq<char> {
    "__kern_lambda_"@ + decimal(id as nat)
}

/// The parameters of a lambda named `names` whose function type has the
/// parameter types `tys`, paired up in order.
pub open spec fn lambda_params(names: Seq<SymbolId>, tys: Seq<TypeId>) -> Seq<(SymbolId, TypeId)> {
    Seq::new(names.len(), |i: int| (names[i], tys[i]))
}

/// Lift a lambda with the parameter names `param_names` and the function
/// type `concrete_ty`: it takes a new id, is named `__kern_lambda_<id>`,
/// gets its parameter and return types from the function type, and its
/// body sees one frame of locals, its parameters, and nothing of the
/// function around it.
pub fn lift_lambda(mono: &mut MonoCache, reg: &TypeRegistry, param_names: &Vec<SymbolId>, concrete_ty: TypeId) -> (r:
    LiftedLambda)
    requires
        old(mono).wf(),
        old(mono).next() < u32::MAX,
        reg.wf(),
        reg.contains(concrete_ty),
        reg@[concrete_ty.0 as int] matches TypeShape::Function { params, .. } && params.len() >= param_names@.len(),
    ensures
        final(mono).wf(),
        r.id.0 == old(mono).next(),
        final(mono).next() == old(mono).next() + 1,
        final(mono).instances() == old(mono).instances(),
        r.name@ == lambda_name(r.id.0),
        reg@[concrete_ty.0 as int] matches TypeShape::Function { params, ret, .. } && {
            let ps = lambda_params(param_names@, params);
            &&& r.ret_ty == ret
            &&& r.params@.len() == ps.len()
            &&& forall|i: int| 0 <= i < ps.len() ==> (#[trigger] r.params@[i]).name == ps[i].0 && r.params@[i].ty == ps[i].1
            &&& frames_view(r.frames@) == seq![param_bindings(ps, ps.len())]
        },
{
    let id = mono.new_mono_id();
    let name = concat3("__kern_lambda_", decimal_text(id.0 as usize).as_str(), "");
    proof {
        reveal_strlit("");
        assert(name@ =~= lambda_name(id.0));
    }
    let (param_tys, ret_ty) = match reg.get(concrete_ty) {
        TypeKind::Function { params, ret, .. } => (params, *ret),
        _ => {
            proof {
                assert(false);
            }
            return LiftedLambda { id, name, params: Vec::new(), ret_ty: concrete_ty, frames: Vec::new() };
        },
    };
    let ghost ps = lambda_params(param_names@, param_tys@);
    let mut params: Vec<MastParam> = Vec::new();
    let mut pairs: Vec<(SymbolId, TypeId)> = Vec::new();
    let mut i: usize = 0;
    while i < param_names.len()
        invariant
            0 <= i <= param_names@.len(),
            param_names@.len() <= param_tys@.len(),
            ps == lambda_params(param_names@, param_tys@),
            params@.len() == i,
            pairs@ == ps.take(i as int),
            forall|j: int| 0 <= j < i ==> (#[trigger] params@[j]).name == ps[j].0 && params@[j].ty == ps[j].1,
        decreases param_names.len() - i,
    {
        params.push(MastParam { name: param_names[i], ty: param_tys[i] });
        pairs.push((param_names[i], param_tys[i]));
        proof {
            assert(ps.take(i + 1) =~= ps.take(i as int).push(ps[i as int]));
        }
        i = i + 1;
    }
    proof {
        assert(ps.take(ps.len() as int) =~= ps);
    }
    let frames = lambda_frames(&pairs);
    LiftedLambda { id, name, params, ret_ty, frames }
}

/// Finish a lifted lambda with its lowered body: the function joins the
/// module's `functions`, and the lambda's value is a reference to it.
pub fn finish_lambda(functions: &mut Vec<MastFunction>, lambda: LiftedLambda, body: MastBlock) -> (k: MastExprKind)
    ensures
        final(functions)@.len() == old(functions)@.len() + 1,
        final(functions)@.take(old(functions)@.len() as int) == old(functions)@,
        ({
            let f = final(functions)@.last();
            &&& f.id == lambda.id
            &&& f.name@ == lambda.name@
            &&& f.params@ == lambda.params@
            &&& f.ret_ty == lambda.ret_ty
            &&& f.body == Some(body)
            &&& !f.is_extern
            &&& !f.is_variadic
        }),
        k == MastExprKind::FuncRef(lambda.id),
{
    let id = lambda.id;
    functions.push(
        MastFunction {
            id,
            name: lambda.name,
            params: lambda.params,
            ret_ty: lambda.ret_ty,
            body: Some(body),
            is_extern: false,
            is_variadic: false,
        },
    );
    proof {
        assert(functions@.take(old(functions)@.len() as int) =~= old(functions)@);
    }
    MastExprKind::FuncRef(id)
}

proof fn lemma_decimal_nonempty(n: nat)
    ensures
        decimal(n).len() >= 1,
    decreases n,
{
    if n >= 10 {
        lemma_decimal_nonempty(n / 10);
    }
}

proof fn lemma_decimal_injective(a: nat, b: nat)
    requires
        decimal(a) == decimal(b),
    ensures
        a == b,
    decreases a,
{
    if a < 10 && b < 10 {
        assert(decimal(a) == seq![digit_char(a)]);
        assert(decimal(b) == seq![digit_char(b)]);
        assert(seq![digit_char(a)][0] == digit_char(a));
        assert(seq![digit_char(b)][0] == digit_char(b));
        assert(digit_char(a) == digit_char(b));
    } else if a < 10 {
        lemma_decimal_nonempty(b / 10);
        assert(decimal(b).len() >= 2);
    } else if b < 10 {
        lemma_decimal_nonempty(a / 10);
        assert(decimal(a).len() >= 2);
    } else {
        let da = decimal(a);
        let db = decimal(b);
        assert(da.last() == db.last());
        assert(digit_char((a % 10) as nat) == digit_char((b % 10) as nat));
        assert(a % 10 == b % 10);
        assert(da.drop_last() =~= decimal(a / 10));
        assert(db.drop_last() =~= decimal(b / 10));
        lemma_decimal_injective(a / 10, b / 10);
        assert(a == 10 * (a / 10) + a % 10);
        assert(b == 10 * (b / 10) + b % 10);
    }
}

/// Every lifted lambda becomes a function of its own: lambdas with
/// different ids get different names.
pub proof fn law_lambda_names_differ(a: u32, b: u32)
    requires
        a != b,
    ensures
        lambda_name(a) != lambda_name(b),
{
    let p = "__kern_lambda_"@;
    if lambda_name(a) == lambda_name(b) {
        assert((p + decimal(a as nat)).subrange(p.len() as int, lambda_name(a).len() as int) =~= decimal(a as nat));
        assert((p + decimal(b as nat)).subrange(p.len() as int, lambda_name(b).len() as int) =~= decimal(b as nat));
        lemma_decimal_injective(a as nat, b as nat);
    }
}

} // verus!
