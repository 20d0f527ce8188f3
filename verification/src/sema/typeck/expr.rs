use crate::sema::ty::{refs_below, reserved_shape, TypeId, TypeKind, TypeRegistry, TypeShape};
use std::collections::HashMap;
use vstd::prelude::*;

verus! {

broadcast use vstd::std_specs::hash::group_hash_axioms;

/// What an implicit conversion from `actual` to `expected` comes to.
#[derive(Debug, Clone, Copy, PartialEq, Eq, Structural)]
pub enum Coercion {
    /// The value may be used where the expected type is wanted.
    Accepted,
    /// An immutable array cannot decay to a mutable slice `[]mut T`.
    ImmutableArrayToMutableSlice,
    /// "mismatched types"
    Mismatched,
}

/// State of the expression checker of one function body.
pub struct ExprChecker {
    /// The declared return type of the function being checked.
    pub current_return_type: Option<TypeId>,
    /// A `return` has been seen.
    pub has_returned: bool,
}

/// The type under aliases and one outer `mut`.
pub open spec fn base_type(reg: &TypeRegistry, ty: TypeId) -> TypeId {
    match reg.normalized_shape(ty) {
        TypeShape::Mut(inner) => inner,
        _ => reg.spec_normalize(ty),
    }
}

/// `actual` may stand where `expected` is wanted because both are the same
/// type and only `actual` is `mut`: the one-way drop of mutability.
pub open spec fn safe_mut_downgrade(reg: &TypeRegistry, expected: TypeId, actual: TypeId) -> bool {
    base_type(reg, expected) == base_type(reg, actual) && reg.spec_is_mut(actual)
        && !reg.spec_is_mut(expected)
}

/// `*mut T` to `*T`, or `^mut T` to `^T`.
pub open spec fn pointer_downgrade(reg: &TypeRegistry, expected: TypeShape, actual: TypeShape) -> bool {
    match (expected, actual) {
        (TypeShape::Pointer(e), TypeShape::Pointer(a)) => safe_mut_downgrade(reg, e, a),
        (TypeShape::VolatilePtr(e), TypeShape::VolatilePtr(a)) => safe_mut_downgrade(reg, e, a),
        _ => false,
    }
}

/// `[]mut T` to `[]T`.
pub open spec fn slice_downgrade(reg: &TypeRegistry, expected_elem: TypeId, actual: TypeShape) -> bool {
    match actual {
        TypeShape::Slice(a) => safe_mut_downgrade(reg, expected_elem, a),
        _ => false,
    }
}

/// The rules of implicit conversion.
pub open spec fn spec_coercion(reg: &TypeRegistry, expected: TypeId, actual: TypeId) -> Coercion {
    let e = base_type(reg, expected);
    let a = base_type(reg, actual);
    if e == a || e == TypeId::spec_error() || a == TypeId::spec_error() {
        Coercion::Accepted
    } else if pointer_downgrade(reg, reg@[e.0 as int], reg@[a.0 as int]) {
        Coercion::Accepted
    } else {
        match reg@[e.0 as int] {
            TypeShape::Slice(ee) => if slice_downgrade(reg, ee, reg@[a.0 as int]) {
                Coercion::Accepted
            } else {
                match reg@[a.0 as int] {
                    TypeShape::Array { elem: ae, .. } => if base_type(reg, ee) == base_type(
                        reg,
                        ae,
                    ) {
                        if reg.spec_is_mut(ee) && !reg.spec_is_mut(ae) {
                            Coercion::ImmutableArrayToMutableSlice
                        } else {
                            Coercion::Accepted
                        }
                    } else {
                        Coercion::Mismatched
                    },
                    _ => Coercion::Mismatched,
                }
            },
            _ => Coercion::Mismatched,
        }
    }
}

/// Base types stay inside the registry.
pub proof fn lemma_base_type(reg: &TypeRegistry, ty: TypeId)
    requires
        reg.wf(),
        reg.contains(ty),
    ensures
        reg.contains(base_type(reg, ty)),
        base_type(reg, ty).0 <= ty.0,
{
    reg.lemma_normalize(ty);
    let n = reg.spec_normalize(ty);
    assert(refs_below(reg@[n.0 as int], n.0 as nat));
}

impl ExprChecker {
    pub fn new(current_return_type: Option<TypeId>) -> (c: Self)
        ensures
            c.current_return_type == current_return_type,
            !c.has_returned,
    {
        ExprChecker { current_return_type, has_returned: false }
    }

    /// The type under aliases and an outer `mut`.
    pub fn strip_mut(&self, reg: &TypeRegistry, ty: TypeId) -> (r: TypeId)
        requires
            reg.wf(),
            reg.contains(ty),
        ensures
            r == base_type(reg, ty),
            reg.contains(r),
    {
        proof {
            lemma_base_type(reg, ty);
        }
        let norm = reg.normalize(ty);
        match reg.get(norm) {
            TypeKind::Mut(inner) => *inner,
            _ => norm,
        }
    }

    /// The type is `mut` (looking through aliases).
    pub fn is_mut_type(&self, reg: &TypeRegistry, ty: TypeId) -> (r: bool)
        requires
            reg.wf(),
            reg.contains(ty),
        ensures
            r == reg.spec_is_mut(ty),
    {
        reg.is_mut(ty)
    }

    fn is_safe_mut_downgrade(&self, reg: &TypeRegistry, exp_inner: TypeId, act_inner: TypeId) -> (r: bool)
        requires
            reg.wf(),
            reg.contains(exp_inner),
            reg.contains(act_inner),
        ensures
            r == safe_mut_downgrade(reg, exp_inner, act_inner),
    {
        if self.strip_mut(reg, exp_inner) == self.strip_mut(reg, act_inner) {
            self.is_mut_type(reg, act_inner) && !self.is_mut_type(reg, exp_inner)
        } else {
            false
        }
    }

    fn check_pointer_downgrade(&self, reg: &TypeRegistry, exp_kind: &TypeKind, act_kind: &TypeKind) -> (r: bool)
        requires
            reg.wf(),
            refs_below(exp_kind@, reg@.len()),
            refs_below(act_kind@, reg@.len()),
        ensures
            r == pointer_downgrade(reg, exp_kind@, act_kind@),
    {
        match (exp_kind, act_kind) {
            (TypeKind::Pointer(e), TypeKind::Pointer(a)) => self.is_safe_mut_downgrade(reg, *e, *a),
            (TypeKind::VolatilePtr(e), TypeKind::VolatilePtr(a)) => self.is_safe_mut_downgrade(
                reg,
                *e,
                *a,
            ),
            _ => false,
        }
    }

    fn check_slice_downgrade(&self, reg: &TypeRegistry, exp_elem: TypeId, act_kind: &TypeKind) -> (r: bool)
        requires
            reg.wf(),
            reg.contains(exp_elem),
            refs_below(act_kind@, reg@.len()),
        ensures
            r == slice_downgrade(reg, exp_elem, act_kind@),
    {
        match act_kind {
            TypeKind::Slice(a) => self.is_safe_mut_downgrade(reg, exp_elem, *a),
            _ => false,
        }
    }

    /// May a value of type `actual` stand where `expected` is wanted?
    pub fn check_coercion(&self, reg: &TypeRegistry, expected: TypeId, actual: TypeId) -> (r: Coercion)
        requires
            reg.wf(),
            reg.contains(expected),
            reg.contains(actual),
        ensures
            r == spec_coercion(reg, expected, actual),
    {
        let exp = self.strip_mut(reg, expected);
        let act = self.strip_mut(reg, actual);
        if exp == act || exp == TypeId::error() || act == TypeId::error() {
            return Coercion::Accepted;
        }
        let exp_kind = reg.get(exp);
        let act_kind = reg.get(act);
        proof {
            assert(refs_below(reg@[exp.0 as int], exp.0 as nat));
            assert(refs_below(reg@[act.0 as int], act.0 as nat));
        }
        if self.check_pointer_downgrade(reg, exp_kind, act_kind) {
            return Coercion::Accepted;
        }
        if let TypeKind::Slice(exp_elem) = exp_kind {
            if self.check_slice_downgrade(reg, *exp_elem, act_kind) {
                return Coercion::Accepted;
            }
            if let TypeKind::Array { elem: act_elem, .. } = act_kind {
                let exp_base = self.strip_mut(reg, *exp_elem);
                let act_base = self.strip_mut(reg, *act_elem);
                if exp_base == act_base {
                    if self.is_mut_type(reg, *exp_elem) && !self.is_mut_type(reg, *act_elem) {
                        return Coercion::ImmutableArrayToMutableSlice;
                    }
                    return Coercion::Accepted;
                }
            }
        }
        Coercion::Mismatched
    }

    /// Match the generic type `generic_ty` against `concrete_ty`, binding
    /// generic parameters in `map`; gives whether they match and the
    /// bindings afterwards.
    pub fn unify(
        &self,
        reg: &TypeRegistry,
        generic_ty: TypeId,
        concrete_ty: TypeId,
        map: HashMap<u32, TypeId>,
    ) -> (r: (bool, HashMap<u32, TypeId>))
        requires
            reg.wf(),
            reg.contains(generic_ty),
            reg.contains(concrete_ty),
        ensures
            (r.0, r.1@) == spec_unify(reg, generic_ty, concrete_ty, map@),
        decreases generic_ty.0,
    {
        let gen_norm = self.strip_mut(reg, generic_ty);
        let con_norm = self.strip_mut(reg, concrete_ty);
        proof {
            lemma_base_type(reg, generic_ty);
            assert(refs_below(reg@[gen_norm.0 as int], gen_norm.0 as nat));
            assert(refs_below(reg@[con_norm.0 as int], con_norm.0 as nat));
        }
        let gen_kind = reg.get(gen_norm);
        let con_kind = reg.get(con_norm);
        let mut map = map;
        match (gen_kind, con_kind) {
            (TypeKind::Param(name), _) => {
                let found: Option<TypeId> = match map.get(&name.0) {
                    Some(existing) => Some(*existing),
                    None => None,
                };
                match found {
                    Some(existing) => (existing == concrete_ty, map),
                    None => {
                        map.insert(name.0, concrete_ty);
                        (true, map)
                    },
                }
            },
            (TypeKind::Pointer(g), TypeKind::Pointer(c)) => {
                assert(g.0 < generic_ty.0);
                self.unify(reg, *g, *c, map)
            },
            (TypeKind::VolatilePtr(g), TypeKind::VolatilePtr(c)) => {
                assert(g.0 < generic_ty.0);
                self.unify(reg, *g, *c, map)
            },
            (TypeKind::Mut(g), TypeKind::Mut(c)) => {
                assert(g.0 < generic_ty.0);
                self.unify(reg, *g, *c, map)
            },
            (TypeKind::Slice(g), TypeKind::Slice(c)) => {
                assert(g.0 < generic_ty.0);
                self.unify(reg, *g, *c, map)
            },
            (TypeKind::Array { elem: ge, len: gl }, TypeKind::Array { elem: ce, len: cl }) => {
                assert(ge.0 < generic_ty.0);
                if *gl == *cl {
                    self.unify(reg, *ge, *ce, map)
                } else {
                    (false, map)
                }
            },
            (TypeKind::Def(g_id, g_args), TypeKind::Def(c_id, c_args)) if *g_id == *c_id => {
                if g_args.len() != c_args.len() {
                    (false, map)
                } else {
                    self.unify_args(reg, g_args, c_args, map, generic_ty)
                }
            },
            (TypeKind::TraitObject(g_id, g_args), TypeKind::TraitObject(c_id, c_args)) if *g_id
                == *c_id => {
                if g_args.len() != c_args.len() {
                    (false, map)
                } else {
                    self.unify_args(reg, g_args, c_args, map, generic_ty)
                }
            },
            _ => (gen_norm == con_norm, map),
        }
    }

    /// Match generic arguments pairwise, stopping at the first failure.
    fn unify_args(
        &self,
        reg: &TypeRegistry,
        g_args: &Vec<TypeId>,
        c_args: &Vec<TypeId>,
        bindings: HashMap<u32, TypeId>,
        bound: TypeId,
    ) -> (r: (bool, HashMap<u32, TypeId>))
        requires
            reg.wf(),
            reg.contains(bound),
            g_args.len() == c_args.len(),
            forall|i: int| 0 <= i < g_args.len() ==> (#[trigger] g_args@[i]).0 < bound.0,
            forall|i: int| 0 <= i < c_args.len() ==> reg.contains(#[trigger] c_args@[i]),
        ensures
            (r.0, r.1@) == spec_unify_list(reg, g_args@, c_args@, bindings@, bound),
        decreases bound.0, 0nat,
    {
        let ghost m0 = bindings@;
        let mut map = bindings;
        let mut i: usize = 0;
        assert(g_args@.skip(0) =~= g_args@);
        assert(c_args@.skip(0) =~= c_args@);
        while i < g_args.len()
            invariant
                reg.wf(),
                reg.contains(bound),
                m0 == bindings@,
                g_args.len() == c_args.len(),
                0 <= i <= g_args.len(),
                forall|k: int| 0 <= k < g_args.len() ==> (#[trigger] g_args@[k]).0 < bound.0,
                forall|k: int| 0 <= k < c_args.len() ==> reg.contains(#[trigger] c_args@[k]),
                spec_unify_list(reg, g_args@, c_args@, m0, bound) == spec_unify_list(
                    reg,
                    g_args@.skip(i as int),
                    c_args@.skip(i as int),
                    map@,
                    bound,
                ),
            decreases g_args.len() - i,
        {
            let ga = g_args[i];
            let ca = c_args[i];
            proof {
                assert(g_args@.skip(i as int)[0] == ga);
                assert(c_args@.skip(i as int)[0] == ca);
                assert(g_args@.skip(i as int).drop_first() =~= g_args@.skip(i + 1));
                assert(c_args@.skip(i as int).drop_first() =~= c_args@.skip(i + 1));
                assert(ga.0 < bound.0);
            }
            let ghost before = map@;
            let (ok, next) = self.unify(reg, ga, ca, map);
            proof {
                let gs = g_args@.skip(i as int);
                let cs = c_args@.skip(i as int);
                assert(gs.len() > 0 && cs.len() > 0);
                assert(spec_unify_list(reg, gs, cs, before, bound) == (if !ok {
                    (false, next@)
                } else {
                    spec_unify_list(reg, gs.drop_first(), cs.drop_first(), next@, bound)
                }));
            }
            if !ok {
                return (false, next);
            }
            map = next;
            i = i + 1;
        }
        proof {
            assert(g_args@.skip(i as int).len() == 0);
        }
        (true, map)
    }

    /// A pointer or volatile pointer to a `mut` type.
    pub fn is_mutable_pointer(&self, reg: &TypeRegistry, ty: TypeId) -> (r: bool)
        requires
            reg.wf(),
            reg.contains(ty),
        ensures
            r == match reg.normalized_shape(ty) {
                TypeShape::Pointer(inner) | TypeShape::VolatilePtr(inner) => reg.spec_is_mut(inner),
                _ => false,
            },
    {
        let norm = reg.normalize(ty);
        proof {
            assert(refs_below(reg@[norm.0 as int], norm.0 as nat));
        }
        match reg.get(norm) {
            TypeKind::Pointer(inner) | TypeKind::VolatilePtr(inner) => self.is_mut_type(reg, *inner),
            _ => false,
        }
    }
}

/// Matching the generic type `g` against the concrete type `c`, with the
/// bindings of generic parameters found so far in `m` (keyed by the number
/// of the parameter's name). Gives whether they match and the bindings
/// afterwards; a first occurrence of a parameter binds it, a later one
/// must find the same concrete type. Bindings made before a failure stay.
pub open spec fn spec_unify(reg: &TypeRegistry, g: TypeId, c: TypeId, m: Map<u32, TypeId>) -> (
    bool,
    Map<u32, TypeId>,
)
    decreases g.0 + 1, 0nat,
{
    let gn = base_type(reg, g);
    let cn = base_type(reg, c);
    match (reg@[gn.0 as int], reg@[cn.0 as int]) {
        (TypeShape::Param(name), _) => if m.contains_key(name.0) {
            (m[name.0] == c, m)
        } else {
            (true, m.insert(name.0, c))
        },
        (TypeShape::Pointer(x), TypeShape::Pointer(y)) | (
            TypeShape::VolatilePtr(x),
            TypeShape::VolatilePtr(y),
        ) | (TypeShape::Mut(x), TypeShape::Mut(y)) | (TypeShape::Slice(x), TypeShape::Slice(y)) => if x.0
            < g.0 {
            spec_unify(reg, x, y, m)
        } else {
            (false, m)
        },
        (TypeShape::Array { elem: ge, len: gl }, TypeShape::Array { elem: ce, len: cl }) => if gl
            != cl {
            (false, m)
        } else if ge.0 < g.0 {
            spec_unify(reg, ge, ce, m)
        } else {
            (false, m)
        },
        (TypeShape::Def(gd, ga), TypeShape::Def(cd, ca)) if gd == cd => if ga.len() != ca.len() {
            (false, m)
        } else {
            spec_unify_list(reg, ga, ca, m, g)
        },
        (TypeShape::TraitObject(gd, ga), TypeShape::TraitObject(cd, ca)) if gd == cd => if ga.len()
            != ca.len() {
            (false, m)
        } else {
            spec_unify_list(reg, ga, ca, m, g)
        },
        _ => (gn == cn, m),
    }
}

/// Matching the generic arguments `gs` against `cs` pairwise from the
/// front, stopping at the first pair that fails.
pub open spec fn spec_unify_list(
    reg: &TypeRegistry,
    gs: Seq<TypeId>,
    cs: Seq<TypeId>,
    m: Map<u32, TypeId>,
    bound: TypeId,
) -> (bool, Map<u32, TypeId>)
    decreases bound.0, gs.len(),
{
    if gs.len() == 0 || cs.len() == 0 {
        (true, m)
    } else if gs[0].0 < bound.0 {
        let (ok, m1) = spec_unify(reg, gs[0], cs[0], m);
        if !ok {
            (false, m1)
        } else {
            spec_unify_list(reg, gs.drop_first(), cs.drop_first(), m1, bound)
        }
    } else {
        (false, m)
    }
}


/// Every type may stand for itself.
pub proof fn lemma_coercion_reflexive(reg: &TypeRegistry, ty: TypeId)
    requires
        reg.wf(),
        reg.contains(ty),
    ensures
        spec_coercion(reg, ty, ty) == Coercion::Accepted,
{
}

/// Dropping `mut` goes one way only: where `actual` may lose its `mut` to
/// become `expected`, `expected` may not gain one to become `actual`.
pub proof fn lemma_mut_downgrade_one_way(reg: &TypeRegistry, expected: TypeId, actual: TypeId)
    requires
        reg.wf(),
        safe_mut_downgrade(reg, expected, actual),
    ensures
        !safe_mut_downgrade(reg, actual, expected),
{
}

/// A type that is neither an alias nor `mut`: its own base type.
pub open spec fn plain(reg: &TypeRegistry, t: TypeId) -> bool {
    reg.contains(t) && !(reg@[t.0 as int] is Alias) && !(reg@[t.0 as int] is Mut)
}

/// Every type may stand where the same type is wanted, and the error type
/// may stand anywhere and take anything (it has been reported already).
pub proof fn law_coercion_reflexive(reg: &TypeRegistry, a: TypeId, b: TypeId)
    requires
        reg.wf(),
        reg.contains(a),
        reg.contains(b),
    ensures
        spec_coercion(reg, a, a) == Coercion::Accepted,
        spec_coercion(reg, TypeId::spec_error(), b) == Coercion::Accepted,
        spec_coercion(reg, a, TypeId::spec_error()) == Coercion::Accepted,
{
    assert(reg@[17] == reserved_shape(17));
    assert(reg.spec_normalize(TypeId::spec_error()) == TypeId::spec_error());
}

/// Mutability may be dropped through a pointer but never gained: with
/// `pm = *mut T` and `p = *T`, a `*mut T` may stand where a `*T` is wanted
/// and not the other way round; the same holds for slices `[]mut T` and
/// `[]T`.
pub proof fn law_pointers_only_lose_mutability(reg: &TypeRegistry, t: TypeId, mt: TypeId, p: TypeId, pm: TypeId)
    requires
        reg.wf(),
        plain(reg, t),
        reg.contains(mt),
        reg@[mt.0 as int] == TypeShape::Mut(t),
        plain(reg, p),
        plain(reg, pm),
        (reg@[p.0 as int] == TypeShape::Pointer(t) && reg@[pm.0 as int] == TypeShape::Pointer(mt)) || (reg@[p.0 as int]
            == TypeShape::Slice(t) && reg@[pm.0 as int] == TypeShape::Slice(mt)) || (reg@[p.0 as int]
            == TypeShape::VolatilePtr(t) && reg@[pm.0 as int] == TypeShape::VolatilePtr(mt)),
    ensures
        spec_coercion(reg, p, pm) == Coercion::Accepted,
        spec_coercion(reg, pm, p) == Coercion::Mismatched,
{
    assert(reg@[17] == reserved_shape(17));
    assert(reg.spec_normalize(p) == p);
    assert(reg.spec_normalize(pm) == pm);
    assert(reg.spec_normalize(t) == t);
    assert(reg.spec_normalize(mt) == mt);
    assert(p != pm);
    assert(p != TypeId::spec_error());
    assert(pm != TypeId::spec_error());
    assert(t != mt);
}

/// An array decays to a slice of its element type: `[N]T` may stand where
/// `[]T` is wanted, `[N]mut T` where `[]T` or `[]mut T` is, but an
/// immutable `[N]T` is refused where `[]mut T` is wanted, with an error of
/// its own; an array of another element type is a mismatch.
pub proof fn law_arrays_decay_to_slices(
    reg: &TypeRegistry,
    t: TypeId,
    mt: TypeId,
    slice: TypeId,
    mslice: TypeId,
    arr: TypeId,
    marr: TypeId,
    n: u64,
    m: u64,
)
    requires
        reg.wf(),
        plain(reg, t),
        reg.contains(mt),
        reg@[mt.0 as int] == TypeShape::Mut(t),
        plain(reg, slice),
        plain(reg, mslice),
        plain(reg, arr),
        plain(reg, marr),
        reg@[slice.0 as int] == TypeShape::Slice(t),
        reg@[mslice.0 as int] == TypeShape::Slice(mt),
        reg@[arr.0 as int] == (TypeShape::Array { elem: t, len: n }),
        reg@[marr.0 as int] == (TypeShape::Array { elem: mt, len: m }),
    ensures
        spec_coercion(reg, slice, arr) == Coercion::Accepted,
        spec_coercion(reg, slice, marr) == Coercion::Accepted,
        spec_coercion(reg, mslice, marr) == Coercion::Accepted,
        spec_coercion(reg, mslice, arr) == Coercion::ImmutableArrayToMutableSlice,
{
    assert(reg@[17] == reserved_shape(17));
    assert(reg.spec_normalize(slice) == slice);
    assert(reg.spec_normalize(mslice) == mslice);
    assert(reg.spec_normalize(arr) == arr);
    assert(reg.spec_normalize(marr) == marr);
    assert(reg.spec_normalize(t) == t);
    assert(reg.spec_normalize(mt) == mt);
    assert(slice != arr && slice != marr && mslice != arr && mslice != marr);
    assert(slice != TypeId::spec_error() && mslice != TypeId::spec_error());
    assert(arr != TypeId::spec_error() && marr != TypeId::spec_error());
    assert(t != mt);
}

} // verus!
