use crate::sema::ty::{ids_below, interned, refs_below, registry_wf, TypeId, TypeKind, TypeRegistry, TypeShape};
use std::collections::HashMap;
use vstd::prelude::*;

verus! {

broadcast use vstd::std_specs::hash::group_hash_axioms;

/// `res` is `ty` with every generic parameter that `map` binds replaced by
/// its binding, both read in the registry `s`. Parameters that `map` does
/// not bind, primitives, modules and the error type stay as they are.
pub open spec fn substituted(s: Seq<TypeShape>, map: Map<u32, TypeId>, ty: TypeId, res: TypeId) -> bool
    decreases ty.0 + 1, 0nat,
{
    if ty == TypeId::spec_error() || map.is_empty() {
        res == ty
    } else if ty.0 >= s.len() || res.0 >= s.len() {
        false
    } else {
        match s[ty.0 as int] {
            TypeShape::Primitive(_) | TypeShape::Error | TypeShape::Module(_) => res == ty,
            TypeShape::Param(name) => res == if map.contains_key(name.0) {
                map[name.0]
            } else {
                ty
            },
            TypeShape::Mut(i) => i.0 < ty.0 && match s[res.0 as int] {
                TypeShape::Mut(j) => substituted(s, map, i, j),
                _ => false,
            },
            TypeShape::Pointer(i) => i.0 < ty.0 && match s[res.0 as int] {
                TypeShape::Pointer(j) => substituted(s, map, i, j),
                _ => false,
            },
            TypeShape::VolatilePtr(i) => i.0 < ty.0 && match s[res.0 as int] {
                TypeShape::VolatilePtr(j) => substituted(s, map, i, j),
                _ => false,
            },
            TypeShape::Slice(i) => i.0 < ty.0 && match s[res.0 as int] {
                TypeShape::Slice(j) => substituted(s, map, i, j),
                _ => false,
            },
            TypeShape::Array { elem, len } => elem.0 < ty.0 && match s[res.0 as int] {
                TypeShape::Array { elem: e2, len: l2 } => l2 == len && substituted(s, map, elem, e2),
                _ => false,
            },
            TypeShape::Alias(name, t) => t.0 < ty.0 && match s[res.0 as int] {
                TypeShape::Alias(n2, t2) => n2 == name && substituted(s, map, t, t2),
                _ => false,
            },
            TypeShape::Function { params, ret, is_variadic } => ret.0 < ty.0 && match s[res.0 as int] {
                TypeShape::Function { params: p2, ret: r2, is_variadic: v2 } => v2 == is_variadic
                    && substituted(s, map, ret, r2) && substituted_list(s, map, params, p2, ty),
                _ => false,
            },
            TypeShape::Def(d, a) => match s[res.0 as int] {
                TypeShape::Def(d2, a2) => d2 == d && substituted_list(s, map, a, a2, ty),
                _ => false,
            },
            TypeShape::Adt(d, a) => match s[res.0 as int] {
                TypeShape::Adt(d2, a2) => d2 == d && substituted_list(s, map, a, a2, ty),
                _ => false,
            },
            TypeShape::AdtPayload(d, a) => match s[res.0 as int] {
                TypeShape::AdtPayload(d2, a2) => d2 == d && substituted_list(s, map, a, a2, ty),
                _ => false,
            },
            TypeShape::FnDef(d, a) => match s[res.0 as int] {
                TypeShape::FnDef(d2, a2) => d2 == d && substituted_list(s, map, a, a2, ty),
                _ => false,
            },
            TypeShape::TraitObject(d, a) => match s[res.0 as int] {
                TypeShape::TraitObject(d2, a2) => d2 == d && substituted_list(s, map, a, a2, ty),
                _ => false,
            },
        }
    }
}

/// Pairwise [`substituted`] over two lists of ids that all come before
/// `bound`.
pub open spec fn substituted_list(
    s: Seq<TypeShape>,
    map: Map<u32, TypeId>,
    xs: Seq<TypeId>,
    ys: Seq<TypeId>,
    bound: TypeId,
) -> bool
    decreases bound.0, xs.len(),
{
    if xs.len() != ys.len() {
        false
    } else if xs.len() == 0 {
        true
    } else {
        xs[0].0 < bound.0 && substituted(s, map, xs[0], ys[0]) && substituted_list(
            s,
            map,
            xs.drop_first(),
            ys.drop_first(),
            bound,
        )
    }
}

/// The registry after substituting in `ty`, starting from the registry `s`,
/// and the id of the result. Children are substituted first, left to right
/// (a function's parameters before its return type), and each rebuilt node
/// is then interned.
pub open spec fn subst_run(s: Seq<TypeShape>, map: Map<u32, TypeId>, ty: TypeId) -> (Seq<TypeShape>, TypeId)
    decreases ty.0 + 1, 0nat,
{
    if ty == TypeId::spec_error() || map.is_empty() || ty.0 >= s.len() {
        (s, ty)
    } else {
        match s[ty.0 as int] {
            TypeShape::Param(name) => (s, if map.contains_key(name.0) {
                map[name.0]
            } else {
                ty
            }),
            TypeShape::Mut(i) => if i.0 < ty.0 {
                let (s1, j) = subst_run(s, map, i);
                interned(s1, TypeShape::Mut(j))
            } else {
                (s, ty)
            },
            TypeShape::Pointer(i) => if i.0 < ty.0 {
                let (s1, j) = subst_run(s, map, i);
                interned(s1, TypeShape::Pointer(j))
            } else {
                (s, ty)
            },
            TypeShape::VolatilePtr(i) => if i.0 < ty.0 {
                let (s1, j) = subst_run(s, map, i);
                interned(s1, TypeShape::VolatilePtr(j))
            } else {
                (s, ty)
            },
            TypeShape::Slice(i) => if i.0 < ty.0 {
                let (s1, j) = subst_run(s, map, i);
                interned(s1, TypeShape::Slice(j))
            } else {
                (s, ty)
            },
            TypeShape::Array { elem, len } => if elem.0 < ty.0 {
                let (s1, j) = subst_run(s, map, elem);
                interned(s1, TypeShape::Array { elem: j, len })
            } else {
                (s, ty)
            },
            TypeShape::Alias(name, t) => if t.0 < ty.0 {
                let (s1, j) = subst_run(s, map, t);
                interned(s1, TypeShape::Alias(name, j))
            } else {
                (s, ty)
            },
            TypeShape::Function { params, ret, is_variadic } => if ret.0 < ty.0 {
                let (s1, ps) = subst_run_list(s, map, params, ty);
                let (s2, r) = subst_run(s1, map, ret);
                interned(s2, TypeShape::Function { params: ps, ret: r, is_variadic })
            } else {
                (s, ty)
            },
            TypeShape::Def(d, a) => {
                let (s1, b) = subst_run_list(s, map, a, ty);
                interned(s1, TypeShape::Def(d, b))
            },
            TypeShape::Adt(d, a) => {
                let (s1, b) = subst_run_list(s, map, a, ty);
                interned(s1, TypeShape::Adt(d, b))
            },
            TypeShape::AdtPayload(d, a) => {
                let (s1, b) = subst_run_list(s, map, a, ty);
                interned(s1, TypeShape::AdtPayload(d, b))
            },
            TypeShape::FnDef(d, a) => {
                let (s1, b) = subst_run_list(s, map, a, ty);
                interned(s1, TypeShape::FnDef(d, b))
            },
            TypeShape::TraitObject(d, a) => {
                let (s1, b) = subst_run_list(s, map, a, ty);
                interned(s1, TypeShape::TraitObject(d, b))
            },
            _ => (s, ty),
        }
    }
}

/// [`subst_run`] over a list of ids that all come before `bound`, first to
/// last, each starting from the registry the previous one left.
pub open spec fn subst_run_list(
    s: Seq<TypeShape>,
    map: Map<u32, TypeId>,
    xs: Seq<TypeId>,
    bound: TypeId,
) -> (Seq<TypeShape>, Seq<TypeId>)
    decreases bound.0, xs.len(),
{
    if xs.len() == 0 {
        (s, Seq::empty())
    } else {
        let (s1, ys) = subst_run_list(s, map, xs.drop_last(), bound);
        if xs.last().0 < bound.0 {
            let (s2, y) = subst_run(s1, map, xs.last());
            (s2, ys.push(y))
        } else {
            (s1, ys.push(xs.last()))
        }
    }
}

/// Number of nodes visited when substituting in `ty`: an upper bound on the
/// types that substitution adds to the registry.
pub open spec fn subst_size(s: Seq<TypeShape>, ty: TypeId) -> nat
    decreases ty.0 + 1, 0nat,
{
    if ty.0 >= s.len() {
        1
    } else {
        match s[ty.0 as int] {
            TypeShape::Mut(i) | TypeShape::Pointer(i) | TypeShape::VolatilePtr(i)
            | TypeShape::Slice(i) | TypeShape::Alias(_, i) => if i.0 < ty.0 {
                1 + subst_size(s, i)
            } else {
                1
            },
            TypeShape::Array { elem, .. } => if elem.0 < ty.0 {
                1 + subst_size(s, elem)
            } else {
                1
            },
            TypeShape::Function { params, ret, .. } => if ret.0 < ty.0 {
                1 + subst_size(s, ret) + subst_size_list(s, params, ty)
            } else {
                1
            },
            TypeShape::Def(_, a) | TypeShape::Adt(_, a) | TypeShape::AdtPayload(_, a)
            | TypeShape::FnDef(_, a) | TypeShape::TraitObject(_, a) => 1 + subst_size_list(
                s,
                a,
                ty,
            ),
            _ => 1,
        }
    }
}

pub open spec fn subst_size_list(s: Seq<TypeShape>, xs: Seq<TypeId>, bound: TypeId) -> nat
    decreases bound.0, xs.len(),
{
    if xs.len() == 0 {
        0
    } else if xs[0].0 < bound.0 {
        subst_size(s, xs[0]) + subst_size_list(s, xs.drop_first(), bound)
    } else {
        0
    }
}

/// Facts about the shapes stored before `n` stay true when the registry
/// grows.
pub proof fn lemma_subst_size_prefix(s1: Seq<TypeShape>, s2: Seq<TypeShape>, ty: TypeId)
    requires
        s1.is_prefix_of(s2),
        ty.0 < s1.len(),
        forall|i: int| 0 <= i < s1.len() ==> refs_below(#[trigger] s1[i], i as nat),
    ensures
        subst_size(s1, ty) == subst_size(s2, ty),
    decreases ty.0 + 1, 0nat,
{
    assert(s1[ty.0 as int] == s2[ty.0 as int]);
    assert(refs_below(s1[ty.0 as int], ty.0 as nat));
    match s1[ty.0 as int] {
        TypeShape::Mut(i) | TypeShape::Pointer(i) | TypeShape::VolatilePtr(i)
        | TypeShape::Slice(i) | TypeShape::Alias(_, i) => {
            lemma_subst_size_prefix(s1, s2, i);
        },
        TypeShape::Array { elem, .. } => {
            lemma_subst_size_prefix(s1, s2, elem);
        },
        TypeShape::Function { params, ret, .. } => {
            lemma_subst_size_prefix(s1, s2, ret);
            lemma_subst_size_list_prefix(s1, s2, params, ty);
        },
        TypeShape::Def(_, a) | TypeShape::Adt(_, a) | TypeShape::AdtPayload(_, a)
        | TypeShape::FnDef(_, a) | TypeShape::TraitObject(_, a) => {
            lemma_subst_size_list_prefix(s1, s2, a, ty);
        },
        _ => {},
    }
}

pub proof fn lemma_subst_size_list_prefix(
    s1: Seq<TypeShape>,
    s2: Seq<TypeShape>,
    xs: Seq<TypeId>,
    bound: TypeId,
)
    requires
        s1.is_prefix_of(s2),
        bound.0 < s1.len(),
        forall|i: int| 0 <= i < s1.len() ==> refs_below(#[trigger] s1[i], i as nat),
    ensures
        subst_size_list(s1, xs, bound) == subst_size_list(s2, xs, bound),
    decreases bound.0, xs.len(),
{
    if xs.len() > 0 && xs[0].0 < bound.0 {
        lemma_subst_size_prefix(s1, s2, xs[0]);
        lemma_subst_size_list_prefix(s1, s2, xs.drop_first(), bound);
    }
}

/// A substitution read in a registry stays one when the registry grows.
pub proof fn lemma_substituted_prefix(
    s1: Seq<TypeShape>,
    s2: Seq<TypeShape>,
    map: Map<u32, TypeId>,
    ty: TypeId,
    res: TypeId,
)
    requires
        s1.is_prefix_of(s2),
        substituted(s1, map, ty, res),
    ensures
        substituted(s2, map, ty, res),
    decreases ty.0 + 1, 0nat,
{
    if ty == TypeId::spec_error() || map.is_empty() {
    } else {
        assert(s1[ty.0 as int] == s2[ty.0 as int]);
        assert(s1[res.0 as int] == s2[res.0 as int]);
        match (s1[ty.0 as int], s1[res.0 as int]) {
            (TypeShape::Mut(i), TypeShape::Mut(j)) | (TypeShape::Pointer(i), TypeShape::Pointer(j))
            | (TypeShape::VolatilePtr(i), TypeShape::VolatilePtr(j)) | (
                TypeShape::Slice(i),
                TypeShape::Slice(j),
            ) | (TypeShape::Alias(_, i), TypeShape::Alias(_, j)) => {
                lemma_substituted_prefix(s1, s2, map, i, j);
            },
            (TypeShape::Array { elem: i, .. }, TypeShape::Array { elem: j, .. }) => {
                lemma_substituted_prefix(s1, s2, map, i, j);
            },
            (
                TypeShape::Function { params, ret, .. },
                TypeShape::Function { params: p2, ret: r2, .. },
            ) => {
                lemma_substituted_prefix(s1, s2, map, ret, r2);
                lemma_substituted_list_prefix(s1, s2, map, params, p2, ty);
            },
            (TypeShape::Def(_, a), TypeShape::Def(_, a2)) | (TypeShape::Adt(_, a), TypeShape::Adt(_, a2))
            | (TypeShape::AdtPayload(_, a), TypeShape::AdtPayload(_, a2)) | (
                TypeShape::FnDef(_, a),
                TypeShape::FnDef(_, a2),
            ) | (TypeShape::TraitObject(_, a), TypeShape::TraitObject(_, a2)) => {
                lemma_substituted_list_prefix(s1, s2, map, a, a2, ty);
            },
            _ => {},
        }
    }
}

pub proof fn lemma_substituted_list_prefix(
    s1: Seq<TypeShape>,
    s2: Seq<TypeShape>,
    map: Map<u32, TypeId>,
    xs: Seq<TypeId>,
    ys: Seq<TypeId>,
    bound: TypeId,
)
    requires
        s1.is_prefix_of(s2),
        substituted_list(s1, map, xs, ys, bound),
    ensures
        substituted_list(s2, map, xs, ys, bound),
    decreases bound.0, xs.len(),
{
    if xs.len() > 0 {
        lemma_substituted_prefix(s1, s2, map, xs[0], ys[0]);
        lemma_substituted_list_prefix(s1, s2, map, xs.drop_first(), ys.drop_first(), bound);
    }
}

/// Replaces generic parameters by the types bound to them, keyed by the
/// number of the parameter's name.
pub struct Substituter<'a> {
    pub map: &'a HashMap<u32, TypeId>,
}

impl<'a> Substituter<'a> {
    pub fn new(map: &'a HashMap<u32, TypeId>) -> (s: Self)
        ensures
            s.map@ == map@,
    {
        Substituter { map }
    }

    /// The bindings all name types of `registry`.
    pub open spec fn bindings_in(&self, registry: &TypeRegistry) -> bool {
        forall|k: u32| #[trigger] self.map@.contains_key(k) ==> registry.contains(self.map@[k])
    }

    /// `ty` with every bound parameter replaced; the types that this
    /// builds are interned in `registry`.
    pub fn substitute(&self, registry: &mut TypeRegistry, ty: TypeId) -> (r: TypeId)
        requires
            old(registry).wf(),
            old(registry).contains(ty),
            old(registry)@.len() + subst_size(old(registry)@, ty) <= u32::MAX,
            self.bindings_in(old(registry)),
        ensures
            final(registry).wf(),
            final(registry).contains(r),
            old(registry)@.is_prefix_of(final(registry)@),
            final(registry)@.len() <= old(registry)@.len() + subst_size(old(registry)@, ty),
            substituted(final(registry)@, self.map@, ty, r),
            (final(registry)@, r) == subst_run(old(registry)@, self.map@, ty),
        decreases ty.0, 1nat,
    {
        let ghost s0 = registry@;
        if ty == TypeId::error() || self.map.is_empty() {
            proof {
                assert(s0.is_prefix_of(s0));
            }
            return ty;
        }
        proof {
            assert(refs_below(s0[ty.0 as int], ty.0 as nat));
            assert(s0.is_prefix_of(s0));
        }
        let kind = crate::sema::ty::copy_kind(registry.get(ty));
        match kind {
            TypeKind::Primitive(_) | TypeKind::Error | TypeKind::Module(_) => ty,
            TypeKind::Param(name) => {
                match self.map.get(&name.0) {
                    Some(new_ty) => *new_ty,
                    None => ty,
                }
            },
            TypeKind::Mut(inner) => {
                let new_inner = self.substitute(registry, inner);
                let ghost s1 = registry@;
                let r = registry.intern(TypeKind::Mut(new_inner));
                proof {
                    lemma_substituted_prefix(s1, registry@, self.map@, inner, new_inner);
                    assert(registry@[ty.0 as int] == s0[ty.0 as int]);
                }
                r
            },
            TypeKind::Pointer(inner) => {
                let new_inner = self.substitute(registry, inner);
                let ghost s1 = registry@;
                let r = registry.intern(TypeKind::Pointer(new_inner));
                proof {
                    lemma_substituted_prefix(s1, registry@, self.map@, inner, new_inner);
                    assert(registry@[ty.0 as int] == s0[ty.0 as int]);
                }
                r
            },
            TypeKind::VolatilePtr(inner) => {
                let new_inner = self.substitute(registry, inner);
                let ghost s1 = registry@;
                let r = registry.intern(TypeKind::VolatilePtr(new_inner));
                proof {
                    lemma_substituted_prefix(s1, registry@, self.map@, inner, new_inner);
                    assert(registry@[ty.0 as int] == s0[ty.0 as int]);
                }
                r
            },
            TypeKind::Slice(inner) => {
                let new_inner = self.substitute(registry, inner);
                let ghost s1 = registry@;
                let r = registry.intern(TypeKind::Slice(new_inner));
                proof {
                    lemma_substituted_prefix(s1, registry@, self.map@, inner, new_inner);
                    assert(registry@[ty.0 as int] == s0[ty.0 as int]);
                }
                r
            },
            TypeKind::Array { elem, len } => {
                let new_elem = self.substitute(registry, elem);
                let ghost s1 = registry@;
                let r = registry.intern(TypeKind::Array { elem: new_elem, len });
                proof {
                    lemma_substituted_prefix(s1, registry@, self.map@, elem, new_elem);
                    assert(registry@[ty.0 as int] == s0[ty.0 as int]);
                }
                r
            },
            TypeKind::Alias(name, target) => {
                let new_target = self.substitute(registry, target);
                let ghost s1 = registry@;
                let r = registry.intern(TypeKind::Alias(name, new_target));
                proof {
                    lemma_substituted_prefix(s1, registry@, self.map@, target, new_target);
                    assert(registry@[ty.0 as int] == s0[ty.0 as int]);
                }
                r
            },
            TypeKind::Function { params, ret, is_variadic } => {
                let new_params = self.substitute_list(registry, &params, ty);
                let ghost s1 = registry@;
                proof {
                    lemma_subst_size_prefix(s0, s1, ret);
                }
                let new_ret = self.substitute(registry, ret);
                let ghost s2 = registry@;
                let r = registry.intern(
                    TypeKind::Function { params: new_params, ret: new_ret, is_variadic },
                );
                proof {
                    lemma_substituted_list_prefix(s1, registry@, self.map@, params@, new_params@, ty);
                    lemma_substituted_prefix(s2, registry@, self.map@, ret, new_ret);
                    assert(registry@[ty.0 as int] == s0[ty.0 as int]);
                }
                r
            },
            TypeKind::Def(d, args) => {
                let new_args = self.substitute_list(registry, &args, ty);
                let ghost s1 = registry@;
                let r = registry.intern(TypeKind::Def(d, new_args));
                proof {
                    lemma_substituted_list_prefix(s1, registry@, self.map@, args@, new_args@, ty);
                    assert(registry@[ty.0 as int] == s0[ty.0 as int]);
                }
                r
            },
            TypeKind::Adt(d, args) => {
                let new_args = self.substitute_list(registry, &args, ty);
                let ghost s1 = registry@;
                let r = registry.intern(TypeKind::Adt(d, new_args));
                proof {
                    lemma_substituted_list_prefix(s1, registry@, self.map@, args@, new_args@, ty);
                    assert(registry@[ty.0 as int] == s0[ty.0 as int]);
                }
                r
            },
            TypeKind::AdtPayload(d, args) => {
                let new_args = self.substitute_list(registry, &args, ty);
                let ghost s1 = registry@;
                let r = registry.intern(TypeKind::AdtPayload(d, new_args));
                proof {
                    lemma_substituted_list_prefix(s1, registry@, self.map@, args@, new_args@, ty);
                    assert(registry@[ty.0 as int] == s0[ty.0 as int]);
                }
                r
            },
            TypeKind::FnDef(d, args) => {
                let new_args = self.substitute_list(registry, &args, ty);
                let ghost s1 = registry@;
                let r = registry.intern(TypeKind::FnDef(d, new_args));
                proof {
                    lemma_substituted_list_prefix(s1, registry@, self.map@, args@, new_args@, ty);
                    assert(registry@[ty.0 as int] == s0[ty.0 as int]);
                }
                r
            },
            TypeKind::TraitObject(d, args) => {
                let new_args = self.substitute_list(registry, &args, ty);
                let ghost s1 = registry@;
                let r = registry.intern(TypeKind::TraitObject(d, new_args));
                proof {
                    lemma_substituted_list_prefix(s1, registry@, self.map@, args@, new_args@, ty);
                    assert(registry@[ty.0 as int] == s0[ty.0 as int]);
                }
                r
            },
        }
    }

    /// Substitute in each of `args`, which all come before `bound`.
    fn substitute_list(&self, registry: &mut TypeRegistry, args: &Vec<TypeId>, bound: TypeId) -> (r: Vec<TypeId>)
        requires
            old(registry).wf(),
            old(registry).contains(bound),
            ids_below(args@, bound.0 as nat),
            old(registry)@.len() + subst_size_list(old(registry)@, args@, bound) <= u32::MAX,
            self.bindings_in(old(registry)),
        ensures
            final(registry).wf(),
            ids_below(r@, final(registry)@.len()),
            old(registry)@.is_prefix_of(final(registry)@),
            final(registry)@.len() <= old(registry)@.len() + subst_size_list(old(registry)@, args@, bound),
            substituted_list(final(registry)@, self.map@, args@, r@, bound),
            (final(registry)@, r@) == subst_run_list(old(registry)@, self.map@, args@, bound),
        decreases bound.0, 0nat,
    {
        let ghost s0 = registry@;
        let mut out: Vec<TypeId> = Vec::new();
        let mut i: usize = 0;
        proof {
            assert(args@.skip(0) =~= args@);
            assert(args@.take(0) =~= Seq::<TypeId>::empty());
            assert(s0.is_prefix_of(s0));
        }
        while i < args.len()
            invariant
                0 <= i <= args.len(),
                registry.wf(),
                registry.contains(bound),
                ids_below(args@, bound.0 as nat),
                self.bindings_in(registry),
                s0.is_prefix_of(registry@),
                forall|k: int| 0 <= k < s0.len() ==> refs_below(#[trigger] s0[k], k as nat),
                bound.0 < s0.len(),
                out@.len() == i,
                ids_below(out@, registry@.len()),
                substituted_list(registry@, self.map@, args@.take(i as int), out@, bound),
                (registry@, out@) == subst_run_list(s0, self.map@, args@.take(i as int), bound),
                registry@.len() + subst_size_list(s0, args@.skip(i as int), bound) <= s0.len()
                    + subst_size_list(s0, args@, bound),
                s0.len() + subst_size_list(s0, args@, bound) <= u32::MAX,
            decreases args.len() - i,
        {
            let a = args[i];
            let ghost s1 = registry@;
            proof {
                assert(a.0 < bound.0);
                let rest = args@.skip(i as int);
                assert(rest[0] == a);
                assert(rest.drop_first() =~= args@.skip(i + 1));
                lemma_subst_size_prefix(s0, s1, a);
            }
            let b = self.substitute(registry, a);
            proof {
                lemma_substituted_list_prefix(s1, registry@, self.map@, args@.take(i as int), out@, bound);
                lemma_substituted_list_push(registry@, self.map@, args@.take(i as int), out@, a, b, bound);
                assert(args@.take(i as int).push(a) =~= args@.take(i + 1));
                assert(args@.take(i + 1).drop_last() =~= args@.take(i as int));
            }
            out.push(b);
            i = i + 1;
        }
        proof {
            assert(args@.take(args@.len() as int) =~= args@);
        }
        out
    }
}

/// Appending a substituted pair keeps a substituted list substituted.
pub proof fn lemma_substituted_list_push(
    s: Seq<TypeShape>,
    map: Map<u32, TypeId>,
    xs: Seq<TypeId>,
    ys: Seq<TypeId>,
    x: TypeId,
    y: TypeId,
    bound: TypeId,
)
    requires
        substituted_list(s, map, xs, ys, bound),
        x.0 < bound.0,
        substituted(s, map, x, y),
    ensures
        substituted_list(s, map, xs.push(x), ys.push(y), bound),
    decreases xs.len(),
{
    if xs.len() > 0 {
        lemma_substituted_list_push(s, map, xs.drop_first(), ys.drop_first(), x, y, bound);
        assert(xs.push(x).drop_first() =~= xs.drop_first().push(x));
        assert(ys.push(y).drop_first() =~= ys.drop_first().push(y));
        assert(xs.push(x)[0] == xs[0]);
        assert(ys.push(y)[0] == ys[0]);
    } else {
        assert(ys.len() == 0);
        assert(xs.push(x).drop_first() =~= Seq::<TypeId>::empty());
        assert(ys.push(y).drop_first() =~= Seq::<TypeId>::empty());
        assert(substituted_list(s, map, Seq::<TypeId>::empty(), Seq::<TypeId>::empty(), bound));
    }
}

/// In a registry that stores each shape once, two ids with the same shape
/// are the same id.
proof fn lemma_same_shape_same_id(s: Seq<TypeShape>, a: TypeId, b: TypeId)
    requires
        registry_wf(s),
        a.0 < s.len(),
        b.0 < s.len(),
        s[a.0 as int] == s[b.0 as int],
    ensures
        a == b,
{
}

/// The result of substitution is determined: in a registry that stores
/// each shape once, substituting the same map in the same type cannot give
/// two different types.
pub proof fn law_substitution_determined(s: Seq<TypeShape>, map: Map<u32, TypeId>, ty: TypeId, r1: TypeId, r2: TypeId)
    requires
        registry_wf(s),
        substituted(s, map, ty, r1),
        substituted(s, map, ty, r2),
    ensures
        r1 == r2,
    decreases ty.0 + 1, 0nat,
{
    if ty == TypeId::spec_error() || map.is_empty() {
    } else {
        match s[ty.0 as int] {
            TypeShape::Mut(i) => match (s[r1.0 as int], s[r2.0 as int]) {
                (TypeShape::Mut(j1), TypeShape::Mut(j2)) => {
                    law_substitution_determined(s, map, i, j1, j2);
                    lemma_same_shape_same_id(s, r1, r2);
                },
                _ => {},
            },
            TypeShape::Pointer(i) => match (s[r1.0 as int], s[r2.0 as int]) {
                (TypeShape::Pointer(j1), TypeShape::Pointer(j2)) => {
                    law_substitution_determined(s, map, i, j1, j2);
                    lemma_same_shape_same_id(s, r1, r2);
                },
                _ => {},
            },
            TypeShape::VolatilePtr(i) => match (s[r1.0 as int], s[r2.0 as int]) {
                (TypeShape::VolatilePtr(j1), TypeShape::VolatilePtr(j2)) => {
                    law_substitution_determined(s, map, i, j1, j2);
                    lemma_same_shape_same_id(s, r1, r2);
                },
                _ => {},
            },
            TypeShape::Slice(i) => match (s[r1.0 as int], s[r2.0 as int]) {
                (TypeShape::Slice(j1), TypeShape::Slice(j2)) => {
                    law_substitution_determined(s, map, i, j1, j2);
                    lemma_same_shape_same_id(s, r1, r2);
                },
                _ => {},
            },
            TypeShape::Array { elem, len } => match (s[r1.0 as int], s[r2.0 as int]) {
                (TypeShape::Array { elem: e1, .. }, TypeShape::Array { elem: e2, .. }) => {
                    law_substitution_determined(s, map, elem, e1, e2);
                    lemma_same_shape_same_id(s, r1, r2);
                },
                _ => {},
            },
            TypeShape::Alias(name, t) => match (s[r1.0 as int], s[r2.0 as int]) {
                (TypeShape::Alias(_, t1), TypeShape::Alias(_, t2)) => {
                    law_substitution_determined(s, map, t, t1, t2);
                    lemma_same_shape_same_id(s, r1, r2);
                },
                _ => {},
            },
            TypeShape::Function { params, ret, is_variadic } => match (s[r1.0 as int], s[r2.0 as int]) {
                (
                    TypeShape::Function { params: p1, ret: q1, .. },
                    TypeShape::Function { params: p2, ret: q2, .. },
                ) => {
                    law_substitution_determined(s, map, ret, q1, q2);
                    lemma_substituted_list_determined(s, map, params, p1, p2, ty);
                    lemma_same_shape_same_id(s, r1, r2);
                },
                _ => {},
            },
            TypeShape::Def(d, a) => match (s[r1.0 as int], s[r2.0 as int]) {
                (TypeShape::Def(_, a1), TypeShape::Def(_, a2)) => {
                    lemma_substituted_list_determined(s, map, a, a1, a2, ty);
                    lemma_same_shape_same_id(s, r1, r2);
                },
                _ => {},
            },
            TypeShape::Adt(d, a) => match (s[r1.0 as int], s[r2.0 as int]) {
                (TypeShape::Adt(_, a1), TypeShape::Adt(_, a2)) => {
                    lemma_substituted_list_determined(s, map, a, a1, a2, ty);
                    lemma_same_shape_same_id(s, r1, r2);
                },
                _ => {},
            },
            TypeShape::AdtPayload(d, a) => match (s[r1.0 as int], s[r2.0 as int]) {
                (TypeShape::AdtPayload(_, a1), TypeShape::AdtPayload(_, a2)) => {
                    lemma_substituted_list_determined(s, map, a, a1, a2, ty);
                    lemma_same_shape_same_id(s, r1, r2);
                },
                _ => {},
            },
            TypeShape::FnDef(d, a) => match (s[r1.0 as int], s[r2.0 as int]) {
                (TypeShape::FnDef(_, a1), TypeShape::FnDef(_, a2)) => {
                    lemma_substituted_list_determined(s, map, a, a1, a2, ty);
                    lemma_same_shape_same_id(s, r1, r2);
                },
                _ => {},
            },
            TypeShape::TraitObject(d, a) => match (s[r1.0 as int], s[r2.0 as int]) {
                (TypeShape::TraitObject(_, a1), TypeShape::TraitObject(_, a2)) => {
                    lemma_substituted_list_determined(s, map, a, a1, a2, ty);
                    lemma_same_shape_same_id(s, r1, r2);
                },
                _ => {},
            },
            _ => {},
        }
    }
}

proof fn lemma_substituted_list_determined(
    s: Seq<TypeShape>,
    map: Map<u32, TypeId>,
    xs: Seq<TypeId>,
    ys1: Seq<TypeId>,
    ys2: Seq<TypeId>,
    bound: TypeId,
)
    requires
        registry_wf(s),
        substituted_list(s, map, xs, ys1, bound),
        substituted_list(s, map, xs, ys2, bound),
    ensures
        ys1 == ys2,
    decreases bound.0, xs.len(),
{
    if xs.len() == 0 {
        assert(ys1 =~= ys2);
    } else {
        law_substitution_determined(s, map, xs[0], ys1[0], ys2[0]);
        lemma_substituted_list_determined(s, map, xs.drop_first(), ys1.drop_first(), ys2.drop_first(), bound);
        assert(ys1 =~= seq![ys1[0]] + ys1.drop_first());
        assert(ys2 =~= seq![ys2[0]] + ys2.drop_first());
    }
}

/// `ty` mentions, at any depth, a generic parameter that `map` binds.
pub open spec fn mentions_bound(s: Seq<TypeShape>, map: Map<u32, TypeId>, ty: TypeId) -> bool
    decreases ty.0 + 1, 0nat,
{
    if ty.0 >= s.len() {
        false
    } else {
        match s[ty.0 as int] {
            TypeShape::Param(n) => map.contains_key(n.0),
            TypeShape::Mut(i) | TypeShape::Pointer(i) | TypeShape::VolatilePtr(i)
            | TypeShape::Slice(i) | TypeShape::Alias(_, i) => i.0 < ty.0 && mentions_bound(s, map, i),
            TypeShape::Array { elem, .. } => elem.0 < ty.0 && mentions_bound(s, map, elem),
            TypeShape::Function { params, ret, .. } => (ret.0 < ty.0 && mentions_bound(s, map, ret))
                || mentions_bound_list(s, map, params, ty),
            TypeShape::Def(_, a) | TypeShape::Adt(_, a) | TypeShape::AdtPayload(_, a)
            | TypeShape::FnDef(_, a) | TypeShape::TraitObject(_, a) => mentions_bound_list(s, map, a, ty),
            _ => false,
        }
    }
}

/// Some of `xs`, which come before `bound`, mentions a bound parameter.
pub open spec fn mentions_bound_list(s: Seq<TypeShape>, map: Map<u32, TypeId>, xs: Seq<TypeId>, bound: TypeId) -> bool
    decreases bound.0, xs.len(),
{
    if xs.len() == 0 {
        false
    } else {
        (xs[0].0 < bound.0 && mentions_bound(s, map, xs[0])) || mentions_bound_list(
            s,
            map,
            xs.drop_first(),
            bound,
        )
    }
}

proof fn lemma_unbound_substitutes_to_itself(s: Seq<TypeShape>, map: Map<u32, TypeId>, ty: TypeId)
    requires
        registry_wf(s),
        ty.0 < s.len(),
        !mentions_bound(s, map, ty),
    ensures
        substituted(s, map, ty, ty),
    decreases ty.0 + 1, 0nat,
{
    if ty == TypeId::spec_error() || map.is_empty() {
    } else {
        assert(refs_below(s[ty.0 as int], ty.0 as nat));
        match s[ty.0 as int] {
            TypeShape::Mut(i) | TypeShape::Pointer(i) | TypeShape::VolatilePtr(i)
            | TypeShape::Slice(i) | TypeShape::Alias(_, i) => {
                lemma_unbound_substitutes_to_itself(s, map, i);
            },
            TypeShape::Array { elem, .. } => {
                lemma_unbound_substitutes_to_itself(s, map, elem);
            },
            TypeShape::Function { params, ret, .. } => {
                lemma_unbound_substitutes_to_itself(s, map, ret);
                lemma_unbound_list_to_itself(s, map, params, ty);
            },
            TypeShape::Def(_, a) | TypeShape::Adt(_, a) | TypeShape::AdtPayload(_, a)
            | TypeShape::FnDef(_, a) | TypeShape::TraitObject(_, a) => {
                lemma_unbound_list_to_itself(s, map, a, ty);
            },
            _ => {},
        }
    }
}

proof fn lemma_unbound_list_to_itself(s: Seq<TypeShape>, map: Map<u32, TypeId>, xs: Seq<TypeId>, bound: TypeId)
    requires
        registry_wf(s),
        bound.0 < s.len(),
        ids_below(xs, bound.0 as nat),
        !mentions_bound_list(s, map, xs, bound),
    ensures
        substituted_list(s, map, xs, xs, bound),
    decreases bound.0, xs.len(),
{
    if xs.len() > 0 {
        assert(xs[0].0 < bound.0);
        lemma_unbound_substitutes_to_itself(s, map, xs[0]);
        assert(ids_below(xs.drop_first(), bound.0 as nat)) by {
            assert forall|k: int| 0 <= k < xs.drop_first().len() implies (#[trigger] xs.drop_first()[k]).0
                < bound.0 by {
                assert(xs.drop_first()[k] == xs[k + 1]);
            }
        }
        lemma_unbound_list_to_itself(s, map, xs.drop_first(), bound);
    }
}

/// Substitution changes only what it has to: a type that mentions no
/// parameter the map binds is substituted to itself.
pub proof fn law_substitution_keeps_unbound(s: Seq<TypeShape>, map: Map<u32, TypeId>, ty: TypeId, r: TypeId)
    requires
        registry_wf(s),
        ty.0 < s.len(),
        !mentions_bound(s, map, ty),
        substituted(s, map, ty, r),
    ensures
        r == ty,
{
    lemma_unbound_substitutes_to_itself(s, map, ty);
    law_substitution_determined(s, map, ty, ty, r);
}

/// A stored shape is found again by interning it: interning it changes
/// nothing and gives its id.
proof fn lemma_interned_stored(s: Seq<TypeShape>, t: TypeId)
    requires
        registry_wf(s),
        t.0 < s.len(),
    ensures
        interned(s, s[t.0 as int]) == (s, t),
{
    let shape = s[t.0 as int];
    assert(s[t.0 as int] == shape);
    let c = choose|i: int| 0 <= i < s.len() && #[trigger] s[i] == shape;
    if c != t.0 {
        assert(s[c] != s[t.0 as int]);
    }
}

/// A list mentions a bound parameter exactly when one of its ids before
/// `bound` does.
proof fn lemma_mentions_bound_list(s: Seq<TypeShape>, map: Map<u32, TypeId>, xs: Seq<TypeId>, bound: TypeId)
    ensures
        mentions_bound_list(s, map, xs, bound) <==> exists|k: int|
            0 <= k < xs.len() && (#[trigger] xs[k]).0 < bound.0 && mentions_bound(s, map, xs[k]),
    decreases xs.len(),
{
    if xs.len() > 0 {
        lemma_mentions_bound_list(s, map, xs.drop_first(), bound);
        if mentions_bound_list(s, map, xs.drop_first(), bound) {
            let k = choose|k: int|
                0 <= k < xs.drop_first().len() && (#[trigger] xs.drop_first()[k]).0 < bound.0
                    && mentions_bound(s, map, xs.drop_first()[k]);
            assert(xs[k + 1] == xs.drop_first()[k]);
        }
        if exists|k: int| 0 <= k < xs.len() && (#[trigger] xs[k]).0 < bound.0 && mentions_bound(s, map, xs[k]) {
            let k = choose|k: int| 0 <= k < xs.len() && (#[trigger] xs[k]).0 < bound.0 && mentions_bound(s, map, xs[k]);
            if k > 0 {
                assert(xs.drop_first()[k - 1] == xs[k]);
            }
        }
    }
}

/// Substituting in a type that mentions no bound parameter interns
/// nothing new and gives the type itself.
proof fn lemma_run_unbound(s: Seq<TypeShape>, map: Map<u32, TypeId>, ty: TypeId)
    requires
        registry_wf(s),
        ty.0 < s.len(),
        !mentions_bound(s, map, ty),
    ensures
        subst_run(s, map, ty) == (s, ty),
    decreases ty.0 + 1, 0nat,
{
    if ty == TypeId::spec_error() || map.is_empty() {
    } else {
        let shape = s[ty.0 as int];
        assert(refs_below(shape, ty.0 as nat));
        lemma_interned_stored(s, ty);
        match shape {
            TypeShape::Mut(i) | TypeShape::Pointer(i) | TypeShape::VolatilePtr(i)
            | TypeShape::Slice(i) | TypeShape::Alias(_, i) => {
                lemma_run_unbound(s, map, i);
            },
            TypeShape::Array { elem, .. } => {
                lemma_run_unbound(s, map, elem);
            },
            TypeShape::Function { params, ret, .. } => {
                lemma_run_unbound(s, map, ret);
                lemma_mentions_bound_list(s, map, params, ty);
                lemma_run_list_unbound(s, map, params, ty);
            },
            TypeShape::Def(_, a) | TypeShape::Adt(_, a) | TypeShape::AdtPayload(_, a)
            | TypeShape::FnDef(_, a) | TypeShape::TraitObject(_, a) => {
                lemma_mentions_bound_list(s, map, a, ty);
                lemma_run_list_unbound(s, map, a, ty);
            },
            _ => {},
        }
    }
}

proof fn lemma_run_list_unbound(s: Seq<TypeShape>, map: Map<u32, TypeId>, xs: Seq<TypeId>, bound: TypeId)
    requires
        registry_wf(s),
        bound.0 < s.len(),
        ids_below(xs, bound.0 as nat),
        forall|k: int| 0 <= k < xs.len() ==> !mentions_bound(s, map, #[trigger] xs[k]),
    ensures
        subst_run_list(s, map, xs, bound) == (s, xs),
    decreases bound.0, xs.len(),
{
    if xs.len() == 0 {
        assert(xs =~= Seq::<TypeId>::empty());
    } else {
        let last = xs.last();
        assert(xs[xs.len() - 1] == last);
        assert(ids_below(xs.drop_last(), bound.0 as nat)) by {
            assert forall|k: int| 0 <= k < xs.drop_last().len() implies (#[trigger] xs.drop_last()[k]).0
                < bound.0 by {
                assert(xs.drop_last()[k] == xs[k]);
            }
        }
        assert forall|k: int| 0 <= k < xs.drop_last().len() implies !mentions_bound(
            s,
            map,
            #[trigger] xs.drop_last()[k],
        ) by {
            assert(xs.drop_last()[k] == xs[k]);
        }
        lemma_run_list_unbound(s, map, xs.drop_last(), bound);
        lemma_run_unbound(s, map, last);
        assert(xs.drop_last().push(last) =~= xs);
    }
}

/// Substitution changes only what it has to: in a type that mentions no
/// parameter the map binds it interns nothing and gives the type itself.
pub proof fn law_substitution_leaves_unbound(s: Seq<TypeShape>, map: Map<u32, TypeId>, ty: TypeId)
    requires
        registry_wf(s),
        ty.0 < s.len(),
        !mentions_bound(s, map, ty),
    ensures
        subst_run(s, map, ty) == (s, ty),
{
    lemma_run_unbound(s, map, ty);
}

} // verus!
