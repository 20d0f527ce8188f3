use super::const_eval::{align_to, is_type_alignment, primitive_align, primitive_size, spec_primitive_align, spec_primitive_size};
use super::subst::{subst_run, subst_size, Substituter};
use crate::sema::resolve_path::DefLink;
use crate::sema::ty::{registry_wf, DefId, PrimitiveType, TypeId, TypeKind, TypeRegistry, TypeShape};
use crate::utils::SymbolId;
use std::collections::HashMap;
use vstd::prelude::*;

verus! {

broadcast use vstd::std_specs::hash::group_hash_axioms;

// The size and alignment of types, as `@sizeOf` and `@alignOf` give them.
// A generic struct, union or algebraic data type is laid out with its
// parameters replaced by the type arguments; the types this builds are
// interned in the registry.

/// Follow aliases from `id` in the shapes `s`.
pub open spec fn norm_in(s: Seq<TypeShape>, id: TypeId) -> TypeId
    decreases id.0,
{
    if id.0 < s.len() {
        match s[id.0 as int] {
            TypeShape::Alias(_, t) => if t.0 < id.0 {
                norm_in(s, t)
            } else {
                id
            },
            _ => id,
        }
    } else {
        id
    }
}

proof fn lemma_norm_in(reg: &TypeRegistry, id: TypeId)
    ensures
        reg.spec_normalize(id) == norm_in(reg@, id),
    decreases id.0,
{
    if id.0 < reg@.len() {
        match reg@[id.0 as int] {
            TypeShape::Alias(_, t) => if t.0 < id.0 {
                lemma_norm_in(reg, t);
            },
            _ => {},
        }
    }
}

/// `off` rounded up to a multiple of `a`.
pub open spec fn round_up(off: nat, a: nat) -> nat {
    if a == 0 || off % a == 0 {
        off
    } else {
        off + (a - off % a) as nat
    }
}

proof fn lemma_round_up(off: nat, a: u64, r: nat)
    requires
        is_type_alignment(a),
        r % (a as nat) == 0,
        off <= r < off + a,
    ensures
        r == round_up(off, a as nat),
{
    let k = a as nat;
    assert(off == k * (off / k) + off % k) by (nonlinear_arith)
        requires
            k > 0,
    ;
    assert(r == k * (r / k)) by (nonlinear_arith)
        requires
            k > 0,
            r % k == 0,
    ;
    assert(0 <= off % k < k) by (nonlinear_arith)
        requires
            k > 0,
    ;
    let q = off / k;
    let rq = r / k;
    if off % k == 0 {
        assert(k * q <= k * rq < k * q + k);
        assert(rq == q) by (nonlinear_arith)
            requires
                k > 0,
                k * q <= k * rq,
                k * rq < k * q + k,
        ;
    } else {
        assert(k * q < k * rq < k * q + 2 * k);
        assert(rq == q + 1) by (nonlinear_arith)
            requires
                k > 0,
                k * q < k * rq,
                k * rq < k * q + 2 * k,
        ;
    }
}

/// The generic parameters bound to the type arguments, as far as there
/// are parameters; no bindings where either list is empty.
pub open spec fn def_bindings(params: Seq<SymbolId>, args: Seq<TypeId>, n: nat) -> Map<u32, TypeId>
    decreases n,
{
    if n == 0 || params.len() == 0 || args.len() == 0 {
        Map::empty()
    } else {
        def_bindings(params, args, (n - 1) as nat).insert(params[n - 1].0, args[n - 1])
    }
}

/// The bindings of a definition's parameters to its arguments; `None`
/// where there are fewer arguments than parameters (and some of each).
pub open spec fn bindings_for(params: Seq<SymbolId>, args: Seq<TypeId>) -> Option<Map<u32, TypeId>> {
    if params.len() != 0 && args.len() != 0 && args.len() < params.len() {
        None
    } else {
        Some(def_bindings(params, args, params.len()))
    }
}

/// A field's type with the bindings applied; `None` where substituting
/// could run out of type ids.
pub open spec fn field_type(s: Seq<TypeShape>, map: Map<u32, TypeId>, f: TypeId) -> Option<(Seq<TypeShape>, TypeId)> {
    if map.is_empty() {
        Some((s, f))
    } else if s.len() + subst_size(s, f) <= u32::MAX {
        Some(subst_run(s, map, f))
    } else {
        None
    }
}

/// The measure that makes the layout functions terminate.
pub open spec fn room(depth: nat) -> nat {
    if depth <= 101 {
        (101 - depth) as nat
    } else {
        0
    }
}

/// The size (where `size`) or alignment of `ty`, with the registry after
/// laying it out. `None` where the computation would overflow a `u64`,
/// run out of type ids, or read past the definitions; a type nested more
/// than 100 levels deep is taken to have size 0 and alignment 1.
pub open spec fn ty_layout(s: Seq<TypeShape>, defs: Seq<DefLink>, ptr: nat, ty: TypeId, depth: nat, size: bool) -> Option<(Seq<TypeShape>, nat)>
    decreases room(depth), 2nat, 0nat,
{
    if depth > 100 {
        Some((s, if size { 0 } else { 1 }))
    } else {
        let n = norm_in(s, ty);
        if n.0 >= s.len() {
            None
        } else {
            match s[n.0 as int] {
                TypeShape::Pointer(_) | TypeShape::VolatilePtr(_) | TypeShape::Function { .. } => Some((s, ptr)),
                TypeShape::Slice(_) | TypeShape::TraitObject(_, _) => Some((s, if size { 2 * ptr } else { ptr })),
                TypeShape::Mut(inner) => ty_layout(s, defs, ptr, inner, depth + 1, size),
                TypeShape::Array { elem, len } => match ty_layout(s, defs, ptr, elem, depth + 1, size) {
                    Some((s1, v)) => if !size {
                        Some((s1, v))
                    } else if v * len <= u64::MAX {
                        Some((s1, (v * len) as nat))
                    } else {
                        None
                    },
                    None => None,
                },
                TypeShape::Def(d, a) | TypeShape::Adt(d, a) => def_layout(s, defs, ptr, d, a, depth, size),
                TypeShape::Primitive(p) => Some((s, if size {
                    spec_primitive_size(p, ptr as u64) as nat
                } else {
                    spec_primitive_align(p, ptr as u64) as nat
                })),
                _ => Some((s, if size { 0 } else { 1 })),
            }
        }
    }
}

/// Laying out the types `tys` one after the other, each resolved with
/// `map`: its alignment and (where `size`) its size. The state is the
/// registry, the offset of the next field, the largest alignment (from
/// `init_align`) and the largest size.
pub open spec fn fields_layout(
    s: Seq<TypeShape>,
    defs: Seq<DefLink>,
    ptr: nat,
    map: Map<u32, TypeId>,
    tys: Seq<TypeId>,
    depth: nat,
    size: bool,
    init_align: nat,
) -> Option<(Seq<TypeShape>, nat, nat, nat)>
    decreases room(depth), 0nat, tys.len(),
{
    if depth > 100 {
        None
    } else if tys.len() == 0 {
        Some((s, 0, init_align, 0))
    } else {
        match fields_layout(s, defs, ptr, map, tys.drop_last(), depth, size, init_align) {
            None => None,
            Some((s1, off, max_align, max_size)) => match field_type(s1, map, tys.last()) {
                None => None,
                Some((s2, f)) => match ty_layout(s2, defs, ptr, f, depth + 1, false) {
                    None => None,
                    Some((s3, a)) => {
                        let ma = if a > max_align { a } else { max_align };
                        if !size {
                            Some((s3, off, ma, max_size))
                        } else {
                            match ty_layout(s3, defs, ptr, f, depth + 1, true) {
                                None => None,
                                Some((s4, z)) => if a <= u64::MAX && is_type_alignment(a as u64) && off + a
                                    - 1 <= u64::MAX && round_up(off, a) + z <= u64::MAX {
                                    Some((s4, round_up(off, a) + z, ma, if z > max_size { z } else { max_size }))
                                } else {
                                    None
                                },
                            }
                        }
                    },
                },
            },
        }
    }
}

/// `off` rounded up to `a`, where that is defined without overflow.
pub open spec fn rounded(off: nat, a: nat) -> Option<nat> {
    if a <= u64::MAX && is_type_alignment(a as u64) && off + a - 1 <= u64::MAX {
        Some(round_up(off, a))
    } else {
        None
    }
}

/// The size (where `size`) or alignment of the definition `d` with the
/// type arguments `args`.
pub open spec fn def_layout(
    s: Seq<TypeShape>,
    defs: Seq<DefLink>,
    ptr: nat,
    d: DefId,
    args: Seq<TypeId>,
    depth: nat,
    size: bool,
) -> Option<(Seq<TypeShape>, nat)>
    decreases room(depth), 1nat, 0nat,
{
    if depth > 100 || d.0 >= defs.len() {
        None
    } else {
        match defs[d.0 as int] {
            DefLink::Struct { generics, fields, .. } => match bindings_for(generics@, args) {
                None => None,
                Some(map) => match fields_layout(s, defs, ptr, map, fields@, depth, size, 1) {
                    None => None,
                    Some((s1, off, ma, _)) => if !size {
                        Some((s1, ma))
                    } else {
                        match rounded(off, ma) {
                            Some(r) => Some((s1, r)),
                            None => None,
                        }
                    },
                },
            },
            DefLink::Union { generics, fields, .. } => match bindings_for(generics@, args) {
                None => None,
                Some(map) => match fields_layout(s, defs, ptr, map, fields@, depth, size, 1) {
                    None => None,
                    Some((s1, _, ma, mz)) => if !size {
                        Some((s1, ma))
                    } else {
                        match rounded(mz, ma) {
                            Some(r) => Some((s1, r)),
                            None => None,
                        }
                    },
                },
            },
            DefLink::Enum { backing, .. } => ty_layout(s, defs, ptr, backing, depth + 1, size),
            DefLink::Adt { generics, tag, payloads, .. } => match ty_layout(s, defs, ptr, tag, depth + 1, false) {
                None => None,
                Some((s1, ta)) => if !size {
                    match bindings_for(generics@, args) {
                        None => None,
                        Some(map) => match fields_layout(s1, defs, ptr, map, payloads@, depth, false, ta) {
                            None => None,
                            Some((s2, _, ma, _)) => Some((s2, ma)),
                        },
                    }
                } else {
                    match ty_layout(s1, defs, ptr, tag, depth + 1, true) {
                        None => None,
                        Some((s2, tz)) => match bindings_for(generics@, args) {
                            None => None,
                            Some(map) => match fields_layout(s2, defs, ptr, map, payloads@, depth, true, ta) {
                                None => None,
                                Some((s3, _, ma, mp)) => match rounded(tz, ma) {
                                    None => None,
                                    Some(o) => if o + mp <= u64::MAX {
                                        match rounded(o + mp, ma) {
                                            Some(r) => Some((s3, r)),
                                            None => None,
                                        }
                                    } else {
                                        None
                                    },
                                },
                            },
                        },
                    }
                },
            },
            _ => Some((s, if size { 0 } else { 1 })),
        }
    }
}

/// The types that the definitions name are all below `n`.
pub open spec fn defs_types_below(defs: Seq<DefLink>, n: nat) -> bool {
    forall|d: int|
        0 <= d < defs.len() ==> match #[trigger] defs[d] {
            DefLink::Struct { fields, .. } => forall|j: int| 0 <= j < fields@.len() ==> (#[trigger] fields@[j]).0 < n,
            DefLink::Union { fields, .. } => forall|j: int| 0 <= j < fields@.len() ==> (#[trigger] fields@[j]).0 < n,
            DefLink::Enum { backing, .. } => backing.0 < n,
            DefLink::Adt { tag, payloads, .. } => tag.0 < n && forall|j: int|
                0 <= j < payloads@.len() ==> (#[trigger] payloads@[j]).0 < n,
            _ => true,
        }
}

/// A pointer size a target can have.
pub open spec fn pointer_size_ok(ptr: u64) -> bool {
    ptr == 2 || ptr == 4 || ptr == 8
}

proof fn lemma_defs_types_grow(defs: Seq<DefLink>, n: nat, m: nat)
    requires
        defs_types_below(defs, n),
        n <= m,
    ensures
        defs_types_below(defs, m),
{
    assert forall|d: int| 0 <= d < defs.len() implies match #[trigger] defs[d] {
        DefLink::Struct { fields, .. } => forall|j: int| 0 <= j < fields@.len() ==> (#[trigger] fields@[j]).0 < m,
        DefLink::Union { fields, .. } => forall|j: int| 0 <= j < fields@.len() ==> (#[trigger] fields@[j]).0 < m,
        DefLink::Enum { backing, .. } => backing.0 < m,
        DefLink::Adt { tag, payloads, .. } => tag.0 < m && forall|j: int|
            0 <= j < payloads@.len() ==> (#[trigger] payloads@[j]).0 < m,
        _ => true,
    } by {
        match defs[d] {
            DefLink::Struct { fields, .. } => {
                assert forall|j: int| 0 <= j < fields@.len() implies (#[trigger] fields@[j]).0 < m by {}
            },
            DefLink::Union { fields, .. } => {
                assert forall|j: int| 0 <= j < fields@.len() implies (#[trigger] fields@[j]).0 < m by {}
            },
            DefLink::Adt { payloads, .. } => {
                assert forall|j: int| 0 <= j < payloads@.len() implies (#[trigger] payloads@[j]).0 < m by {}
            },
            _ => {},
        }
    }
}

/// A layout of the whole list is one of each of its prefixes.
proof fn lemma_fields_prefix(
    s: Seq<TypeShape>,
    defs: Seq<DefLink>,
    ptr: nat,
    map: Map<u32, TypeId>,
    tys: Seq<TypeId>,
    depth: nat,
    size: bool,
    init_align: nat,
    k: int,
)
    requires
        0 <= k <= tys.len(),
        fields_layout(s, defs, ptr, map, tys, depth, size, init_align) is Some,
    ensures
        fields_layout(s, defs, ptr, map, tys.take(k), depth, size, init_align) is Some,
    decreases tys.len(),
{
    if k < tys.len() {
        assert(tys.drop_last().take(k) =~= tys.take(k));
        lemma_fields_prefix(s, defs, ptr, map, tys.drop_last(), depth, size, init_align, k);
    } else {
        assert(tys.take(k) =~= tys);
    }
}

/// The bindings of a definition's generic parameters to its arguments.
fn bind_params(params: &Vec<SymbolId>, args: &Vec<TypeId>) -> (m: HashMap<u32, TypeId>)
    requires
        bindings_for(params@, args@) is Some,
    ensures
        m@ == def_bindings(params@, args@, params@.len()),
        forall|k: u32| #[trigger] m@.contains_key(k) ==> exists|j: int| 0 <= j < args@.len() && m@[k] == args@[j],
{
    let mut m: HashMap<u32, TypeId> = HashMap::new();
    if params.len() == 0 || args.len() == 0 {
        proof {
            assert(def_bindings(params@, args@, params@.len()) == Map::<u32, TypeId>::empty());
        }
        return m;
    }
    let mut i: usize = 0;
    while i < params.len()
        invariant
            0 <= i <= params@.len(),
            params@.len() != 0,
            args@.len() != 0,
            params@.len() <= args@.len(),
            m@ == def_bindings(params@, args@, i as nat),
            forall|k: u32| #[trigger] m@.contains_key(k) ==> exists|j: int| 0 <= j < args@.len() && m@[k] == args@[j],
        decreases params.len() - i,
    {
        m.insert(params[i].0, args[i]);
        proof {
            assert(args@[i as int] == args@[i as int]);
        }
        i = i + 1;
    }
    m
}

/// The size (where `size`) or alignment of `ty`, laid out at `depth`; the
/// types that replacing generic parameters builds are interned in `reg`.
pub fn type_layout(reg: &mut TypeRegistry, defs: &Vec<DefLink>, ptr: u64, ty: TypeId, depth: usize, size: bool) -> (r: u64)
    requires
        old(reg).wf(),
        old(reg).contains(ty),
        pointer_size_ok(ptr),
        defs_types_below(defs@, old(reg)@.len()),
        ty_layout(old(reg)@, defs@, ptr as nat, ty, depth as nat, size) is Some,
    ensures
        final(reg).wf(),
        old(reg)@.is_prefix_of(final(reg)@),
        ty_layout(old(reg)@, defs@, ptr as nat, ty, depth as nat, size) == Some((final(reg)@, r as nat)),
    decreases room(depth as nat), 2nat, 0nat,
{
    proof {
        assert(old(reg)@.is_prefix_of(old(reg)@));
    }
    if depth > 100 {
        return if size { 0 } else { 1 };
    }
    let n = reg.normalize(ty);
    proof {
        lemma_norm_in(reg, ty);
        assert(refs_below_at(reg@, n.0 as int));
    }
    let kind = crate::sema::ty::copy_kind(reg.get(n));
    match kind {
        TypeKind::Pointer(_) | TypeKind::VolatilePtr(_) | TypeKind::Function { .. } => ptr,
        TypeKind::Slice(_) | TypeKind::TraitObject(_, _) => if size {
            2 * ptr
        } else {
            ptr
        },
        TypeKind::Mut(inner) => type_layout(reg, defs, ptr, inner, depth + 1, size),
        TypeKind::Array { elem, len } => {
            let v = type_layout(reg, defs, ptr, elem, depth + 1, size);
            if size {
                v * len
            } else {
                v
            }
        },
        TypeKind::Def(d, a) | TypeKind::Adt(d, a) => def_layout_of(reg, defs, ptr, d, &a, depth, size),
        TypeKind::Primitive(p) => if size {
            primitive_size(p, ptr)
        } else {
            primitive_align(p, ptr)
        },
        _ => if size {
            0
        } else {
            1
        },
    }
}

/// The shape stored at `i` refers only to types stored before it.
pub open spec fn refs_below_at(s: Seq<TypeShape>, i: int) -> bool {
    crate::sema::ty::refs_below(s[i], i as nat)
}

/// The size (where `size`) or alignment of the definition `d` with the
/// type arguments `args`.
fn def_layout_of(
    reg: &mut TypeRegistry,
    defs: &Vec<DefLink>,
    ptr: u64,
    d: DefId,
    args: &Vec<TypeId>,
    depth: usize,
    size: bool,
) -> (r: u64)
    requires
        old(reg).wf(),
        pointer_size_ok(ptr),
        defs_types_below(defs@, old(reg)@.len()),
        forall|j: int| 0 <= j < args@.len() ==> (#[trigger] args@[j]).0 < old(reg)@.len(),
        def_layout(old(reg)@, defs@, ptr as nat, d, args@, depth as nat, size) is Some,
    ensures
        final(reg).wf(),
        old(reg)@.is_prefix_of(final(reg)@),
        def_layout(old(reg)@, defs@, ptr as nat, d, args@, depth as nat, size) == Some((final(reg)@, r as nat)),
    decreases room(depth as nat), 1nat, 0nat,
{
    let ghost s0 = reg@;
    proof {
        assert(s0.is_prefix_of(s0));
    }
    match &defs[d.0 as usize] {
        DefLink::Struct { generics, fields, .. } => {
            let map = bind_params(generics, args);
            let (off, ma, _mz) = fields_layout_of(reg, defs, ptr, &map, fields, depth, size, 1);
            if size {
                let r = align_to(off, ma);
                proof {
                    lemma_round_up(off as nat, ma, r as nat);
                }
                r
            } else {
                ma
            }
        },
        DefLink::Union { generics, fields, .. } => {
            let map = bind_params(generics, args);
            let (_off, ma, mz) = fields_layout_of(reg, defs, ptr, &map, fields, depth, size, 1);
            if size {
                let r = align_to(mz, ma);
                proof {
                    lemma_round_up(mz as nat, ma, r as nat);
                }
                r
            } else {
                ma
            }
        },
        DefLink::Enum { backing, .. } => type_layout(reg, defs, ptr, *backing, depth + 1, size),
        DefLink::Adt { generics, tag, payloads, .. } => {
            let ta = type_layout(reg, defs, ptr, *tag, depth + 1, false);
            let ghost s1 = reg@;
            proof {
                lemma_defs_types_grow(defs@, s0.len(), s1.len());
            }
            if !size {
                let map = bind_params(generics, args);
                let (_o, ma, _z) = fields_layout_of(reg, defs, ptr, &map, payloads, depth, false, ta);
                ma
            } else {
                proof {
                    assert(defs@[d.0 as int] matches DefLink::Adt { tag: t2, .. } && t2 == *tag);
                }
                let tz = type_layout(reg, defs, ptr, *tag, depth + 1, true);
                let ghost s2 = reg@;
                proof {
                    lemma_defs_types_grow(defs@, s1.len(), s2.len());
                }
                let map = bind_params(generics, args);
                let (_o, ma, mp) = fields_layout_of(reg, defs, ptr, &map, payloads, depth, true, ta);
                let o = align_to(tz, ma);
                proof {
                    lemma_round_up(tz as nat, ma, o as nat);
                }
                let r = align_to(o + mp, ma);
                proof {
                    lemma_round_up((o + mp) as nat, ma, r as nat);
                }
                r
            }
        },
        _ => if size {
            0
        } else {
            1
        },
    }
}

/// Lay out the types `tys` one after the other, as [`fields_layout`]
/// says: the offset after them, the largest alignment and the largest
/// size.
fn fields_layout_of(
    reg: &mut TypeRegistry,
    defs: &Vec<DefLink>,
    ptr: u64,
    map: &HashMap<u32, TypeId>,
    tys: &Vec<TypeId>,
    depth: usize,
    size: bool,
    init_align: u64,
) -> (r: (u64, u64, u64))
    requires
        old(reg).wf(),
        pointer_size_ok(ptr),
        defs_types_below(defs@, old(reg)@.len()),
        forall|j: int| 0 <= j < tys@.len() ==> (#[trigger] tys@[j]).0 < old(reg)@.len(),
        forall|k: u32| #[trigger] map@.contains_key(k) ==> map@[k].0 < old(reg)@.len(),
        fields_layout(old(reg)@, defs@, ptr as nat, map@, tys@, depth as nat, size, init_align as nat) is Some,
    ensures
        final(reg).wf(),
        old(reg)@.is_prefix_of(final(reg)@),
        fields_layout(old(reg)@, defs@, ptr as nat, map@, tys@, depth as nat, size, init_align as nat) == Some(
            (final(reg)@, r.0 as nat, r.1 as nat, r.2 as nat),
        ),
    decreases room(depth as nat), 0nat, tys@.len(),
{
    let ghost s0 = reg@;
    let mut off: u64 = 0;
    let mut max_align: u64 = init_align;
    let mut max_size: u64 = 0;
    let mut k: usize = 0;
    proof {
        assert(s0.is_prefix_of(s0));
        assert(tys@.take(0) =~= Seq::<TypeId>::empty());
    }
    while k < tys.len()
        invariant
            0 <= k <= tys@.len(),
            reg.wf(),
            s0.is_prefix_of(reg@),
            pointer_size_ok(ptr),
            depth <= 100,
            defs_types_below(defs@, reg@.len()),
            forall|j: int| 0 <= j < tys@.len() ==> (#[trigger] tys@[j]).0 < reg@.len(),
            forall|key: u32| #[trigger] map@.contains_key(key) ==> map@[key].0 < reg@.len(),
            fields_layout(s0, defs@, ptr as nat, map@, tys@, depth as nat, size, init_align as nat) is Some,
            fields_layout(s0, defs@, ptr as nat, map@, tys@.take(k as int), depth as nat, size, init_align as nat)
                == Some((reg@, off as nat, max_align as nat, max_size as nat)),
        decreases tys.len() - k,
    {
        let ghost sk = reg@;
        proof {
            lemma_fields_prefix(s0, defs@, ptr as nat, map@, tys@, depth as nat, size, init_align as nat, k + 1);
            assert(tys@.take(k + 1).drop_last() =~= tys@.take(k as int));
            assert(tys@.take(k + 1).last() == tys@[k as int]);
        }
        let f0 = tys[k];
        let f = if map.is_empty() {
            f0
        } else {
            let sub = Substituter::new(map);
            sub.substitute(reg, f0)
        };
        let ghost s2 = reg@;
        proof {
            lemma_defs_types_grow(defs@, sk.len(), s2.len());
        }
        let a = type_layout(reg, defs, ptr, f, depth + 1, false);
        let ghost s3 = reg@;
        proof {
            lemma_defs_types_grow(defs@, s2.len(), s3.len());
        }
        let ma = if a > max_align {
            a
        } else {
            max_align
        };
        if size {
            let z = type_layout(reg, defs, ptr, f, depth + 1, true);
            let ghost s4 = reg@;
            proof {
                lemma_defs_types_grow(defs@, s3.len(), s4.len());
            }
            let o = align_to(off, a);
            proof {
                lemma_round_up(off as nat, a, o as nat);
            }
            off = o + z;
            if z > max_size {
                max_size = z;
            }
        }
        max_align = ma;
        k = k + 1;
    }
    proof {
        assert(tys@.take(tys@.len() as int) =~= tys@);
    }
    (off, max_align, max_size)
}

/// The size of `ty` in bytes, as `@sizeOf` gives it, for a target whose
/// pointers are `ptr` bytes.
pub fn compute_type_size(reg: &mut TypeRegistry, defs: &Vec<DefLink>, ptr: u64, ty: TypeId) -> (r: u64)
    requires
        old(reg).wf(),
        old(reg).contains(ty),
        pointer_size_ok(ptr),
        defs_types_below(defs@, old(reg)@.len()),
        ty_layout(old(reg)@, defs@, ptr as nat, ty, 0, true) is Some,
    ensures
        final(reg).wf(),
        old(reg)@.is_prefix_of(final(reg)@),
        ty_layout(old(reg)@, defs@, ptr as nat, ty, 0, true) == Some((final(reg)@, r as nat)),
{
    type_layout(reg, defs, ptr, ty, 0, true)
}

/// The alignment of `ty` in bytes, as `@alignOf` gives it.
pub fn compute_type_align(reg: &mut TypeRegistry, defs: &Vec<DefLink>, ptr: u64, ty: TypeId) -> (r: u64)
    requires
        old(reg).wf(),
        old(reg).contains(ty),
        pointer_size_ok(ptr),
        defs_types_below(defs@, old(reg)@.len()),
        ty_layout(old(reg)@, defs@, ptr as nat, ty, 0, false) is Some,
    ensures
        final(reg).wf(),
        old(reg)@.is_prefix_of(final(reg)@),
        ty_layout(old(reg)@, defs@, ptr as nat, ty, 0, false) == Some((final(reg)@, r as nat)),
{
    type_layout(reg, defs, ptr, ty, 0, false)
}

/// Pointers and fat pointers: a pointer, a volatile pointer or a function
/// takes one pointer's size and alignment; a slice and a trait object are
/// two pointers (data and length, or data and vtable): twice a pointer's
/// size, a pointer's alignment. None of them adds types.
pub proof fn law_pointer_layouts(s: Seq<TypeShape>, defs: Seq<DefLink>, ptr: nat, t: TypeId, depth: nat)
    requires
        depth <= 100,
        t.0 < s.len(),
    ensures
        (s[t.0 as int] is Pointer || s[t.0 as int] is VolatilePtr || s[t.0 as int] is Function) ==> ty_layout(
            s,
            defs,
            ptr,
            t,
            depth,
            true,
        ) == Some((s, ptr)) && ty_layout(s, defs, ptr, t, depth, false) == Some((s, ptr)),
        (s[t.0 as int] is Slice || s[t.0 as int] is TraitObject) ==> ty_layout(s, defs, ptr, t, depth, true) == Some(
            (s, 2 * ptr),
        ) && ty_layout(s, defs, ptr, t, depth, false) == Some((s, ptr)),
{
}

/// A fat pointer is exactly two thin ones: for a slice or trait object `f`
/// and a pointer `p` in the same registry, `f` is twice the size of `p`
/// and as aligned.
pub proof fn law_fat_pointer_is_two_pointers(s: Seq<TypeShape>, defs: Seq<DefLink>, ptr: nat, f: TypeId, p: TypeId, depth: nat)
    requires
        depth <= 100,
        f.0 < s.len(),
        p.0 < s.len(),
        s[f.0 as int] is Slice || s[f.0 as int] is TraitObject,
        s[p.0 as int] is Pointer,
    ensures
        ty_layout(s, defs, ptr, f, depth, true) matches Some((_, fs)) && (ty_layout(s, defs, ptr, p, depth, true) matches Some((_, ps)) && fs == 2 * ps),
        ty_layout(s, defs, ptr, f, depth, false) == ty_layout(s, defs, ptr, p, depth, false),
{
    law_pointer_layouts(s, defs, ptr, f, depth);
    law_pointer_layouts(s, defs, ptr, p, depth);
}

/// Primitive types take their width in bytes as size and alignment: one
/// for `bool`, `i8`, `u8`; two, four, eight and sixteen for the 16-, 32-,
/// 64- and 128-bit integers (signed and unsigned alike); four for `f32`,
/// eight for `f64`; a pointer's size for `isize` and `usize`.
pub proof fn law_primitive_layouts(s: Seq<TypeShape>, defs: Seq<DefLink>, ptr: u64, t: TypeId, depth: nat)
    requires
        depth <= 100,
        t.0 < s.len(),
        s[t.0 as int] is Primitive,
    ensures
        ({
            let p = s[t.0 as int]->Primitive_0;
            let width: int = match p {
                PrimitiveType::Bool | PrimitiveType::I8 | PrimitiveType::U8 => 1,
                PrimitiveType::I16 | PrimitiveType::U16 => 2,
                PrimitiveType::I32 | PrimitiveType::U32 | PrimitiveType::F32 => 4,
                PrimitiveType::I64 | PrimitiveType::U64 | PrimitiveType::F64 => 8,
                PrimitiveType::I128 | PrimitiveType::U128 => 16,
                PrimitiveType::ISize | PrimitiveType::USize => ptr as int,
                _ => -1,
            };
            width >= 0 ==> ty_layout(s, defs, ptr as nat, t, depth, true) == Some((s, width as nat))
                && ty_layout(s, defs, ptr as nat, t, depth, false) == Some((s, width as nat))
        }),
{
}

/// `mut` does not change a type's layout, and an array of `len` elements
/// is `len` times as large as its element and as aligned, as long as its
/// size fits in 64 bits.
pub proof fn law_mut_and_array_layouts(s: Seq<TypeShape>, defs: Seq<DefLink>, ptr: nat, t: TypeId, depth: nat, size: bool)
    requires
        depth < 100,
        t.0 < s.len(),
    ensures
        s[t.0 as int] matches TypeShape::Mut(inner) ==> ty_layout(s, defs, ptr, t, depth, size) == ty_layout(
            s,
            defs,
            ptr,
            inner,
            depth + 1,
            size,
        ),
        s[t.0 as int] matches TypeShape::Array { elem, len } ==> (ty_layout(s, defs, ptr, elem, depth + 1, size) matches Some((s1, v)) ==> (if !size {
            ty_layout(s, defs, ptr, t, depth, size) == Some((s1, v))
        } else if v * len <= u64::MAX {
            ty_layout(s, defs, ptr, t, depth, size) == Some((s1, (v * len) as nat))
        } else {
            ty_layout(s, defs, ptr, t, depth, size) is None
        })),
{
}

proof fn lemma_round_up_bounds(off: nat, a: nat)
    requires
        a >= 1,
    ensures
        round_up(off, a) % a == 0,
        off <= round_up(off, a) < off + a,
{
    let r = off % a;
    let q = off / a;
    vstd::arithmetic::div_mod::lemma_fundamental_div_mod(off as int, a as int);
    if r != 0 {
        assert(off + (a - r) == (q + 1) * a) by (nonlinear_arith)
            requires
                off == a * q + r,
        ;
        vstd::arithmetic::div_mod::lemma_fundamental_div_mod_converse((off + (a - r)) as int, a as int, (q + 1) as int, 0);
    }
}

/// Fields are laid out in order, each at the first offset after the ones
/// before it that is a multiple of its alignment: adding a field of
/// alignment `a` and size `z` after fields that end at `off` places it at
/// a multiple of `a` in `[off, off + a)`, ends the fields `z` bytes later,
/// and makes the alignment the larger of the two and the largest size the
/// larger of the two.
pub proof fn law_fields_placed_by_alignment(
    s: Seq<TypeShape>,
    defs: Seq<DefLink>,
    ptr: nat,
    map: Map<u32, TypeId>,
    tys: Seq<TypeId>,
    t: TypeId,
    depth: nat,
    init: nat,
    s1: Seq<TypeShape>,
    off: nat,
    ma: nat,
    mz: nat,
    s2: Seq<TypeShape>,
    f: TypeId,
    s3: Seq<TypeShape>,
    a: nat,
    s4: Seq<TypeShape>,
    z: nat,
)
    requires
        depth <= 100,
        fields_layout(s, defs, ptr, map, tys, depth, true, init) == Some((s1, off, ma, mz)),
        field_type(s1, map, t) == Some((s2, f)),
        ty_layout(s2, defs, ptr, f, depth + 1, false) == Some((s3, a)),
        ty_layout(s3, defs, ptr, f, depth + 1, true) == Some((s4, z)),
    ensures
        fields_layout(s, defs, ptr, map, tys.push(t), depth, true, init) matches Some((_, off2, ma2, mz2)) ==> {
            &&& a >= 1
            &&& off2 >= z
            &&& ((off2 - z) as nat) % a == 0
            &&& off <= off2 - z < off + a
            &&& ma2 == if a > ma { a } else { ma }
            &&& mz2 == if z > mz { z } else { mz }
        },
{
    assert(tys.push(t).drop_last() =~= tys);
    assert(tys.push(t).last() == t);
    if fields_layout(s, defs, ptr, map, tys.push(t), depth, true, init) is Some {
        assert(a <= u64::MAX && is_type_alignment(a as u64));
        lemma_round_up_bounds(off, a);
    }
}

/// A struct ends on a multiple of its alignment, which is that of its most
/// aligned field (at least 1): its size is its fields' end rounded up to
/// the alignment, the least such multiple.
pub proof fn law_struct_size_rounds_to_alignment(
    s: Seq<TypeShape>,
    defs: Seq<DefLink>,
    ptr: nat,
    d: DefId,
    depth: nat,
    s1: Seq<TypeShape>,
    off: nat,
    ma: nat,
    mz: nat,
)
    requires
        depth <= 100,
        d.0 < defs.len(),
        defs[d.0 as int] is Struct,
        defs[d.0 as int]->Struct_generics@.len() == 0,
        fields_layout(s, defs, ptr, Map::empty(), defs[d.0 as int]->Struct_fields@, depth, true, 1) == Some(
            (s1, off, ma, mz),
        ),
    ensures
        def_layout(s, defs, ptr, d, Seq::empty(), depth, true) matches Some((_, z)) ==> ma >= 1 && z % ma
            == 0 && off <= z < off + ma,
{
    assert(bindings_for(defs[d.0 as int]->Struct_generics@, Seq::empty()) == Some(Map::<u32, TypeId>::empty()));
    if def_layout(s, defs, ptr, d, Seq::empty(), depth, true) is Some {
        assert(is_type_alignment(ma as u64));
        lemma_round_up_bounds(off, ma);
    }
}

} // verus!
