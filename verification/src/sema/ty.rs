use crate::utils::SymbolId;
use vstd::prelude::*;

verus! {

/// Handle of a type held in the [`TypeRegistry`].
#[derive(Debug, Clone, Copy, PartialEq, Eq, Hash, Structural)]
pub struct TypeId(pub u32);

impl TypeId {
    /// Id of the placeholder for a type that failed to resolve.
    pub open spec fn spec_error() -> TypeId {
        TypeId(17)
    }

    #[verifier::when_used_as_spec(spec_error)]
    pub fn error() -> (t: TypeId)
        ensures
            t == TypeId(17),
    {
        TypeId(17)
    }

    /// The reserved id of a primitive type.
    pub open spec fn spec_primitive(p: PrimitiveType) -> TypeId {
        TypeId(
            match p {
                PrimitiveType::Void => 0,
                PrimitiveType::Bool => 1,
                PrimitiveType::I8 => 2,
                PrimitiveType::I16 => 3,
                PrimitiveType::I32 => 4,
                PrimitiveType::I64 => 5,
                PrimitiveType::I128 => 6,
                PrimitiveType::U8 => 7,
                PrimitiveType::U16 => 8,
                PrimitiveType::U32 => 9,
                PrimitiveType::U64 => 10,
                PrimitiveType::U128 => 11,
                PrimitiveType::F32 => 12,
                PrimitiveType::F64 => 13,
                PrimitiveType::ISize => 14,
                PrimitiveType::USize => 15,
                PrimitiveType::Str => 16,
            },
        )
    }

    #[verifier::when_used_as_spec(spec_primitive)]
    pub fn primitive(p: PrimitiveType) -> (t: TypeId)
        ensures
            t == Self::spec_primitive(p),
    {
        TypeId(
            match p {
                PrimitiveType::Void => 0,
                PrimitiveType::Bool => 1,
                PrimitiveType::I8 => 2,
                PrimitiveType::I16 => 3,
                PrimitiveType::I32 => 4,
                PrimitiveType::I64 => 5,
                PrimitiveType::I128 => 6,
                PrimitiveType::U8 => 7,
                PrimitiveType::U16 => 8,
                PrimitiveType::U32 => 9,
                PrimitiveType::U64 => 10,
                PrimitiveType::U128 => 11,
                PrimitiveType::F32 => 12,
                PrimitiveType::F64 => 13,
                PrimitiveType::ISize => 14,
                PrimitiveType::USize => 15,
                PrimitiveType::Str => 16,
            },
        )
    }
}

/// Handle of a definition (struct, enum, union, trait, function, ...).
#[derive(Debug, Clone, Copy, PartialEq, Eq, Hash, Structural)]
pub struct DefId(pub u32);

#[derive(Debug, Clone, Copy, PartialEq, Eq, Hash, Structural)]
pub enum PrimitiveType {
    Void,
    Bool,
    I8,
    I16,
    I32,
    I64,
    I128,
    ISize,
    U8,
    U16,
    U32,
    U64,
    U128,
    USize,
    F32,
    F64,
    Str,
}

impl PrimitiveType {
    pub open spec fn is_integer(self) -> bool {
        match self {
            PrimitiveType::I8 | PrimitiveType::I16 | PrimitiveType::I32 | PrimitiveType::I64
            | PrimitiveType::I128 | PrimitiveType::ISize | PrimitiveType::U8 | PrimitiveType::U16
            | PrimitiveType::U32 | PrimitiveType::U64 | PrimitiveType::U128
            | PrimitiveType::USize => true,
            _ => false,
        }
    }

    pub open spec fn is_signed_integer(self) -> bool {
        match self {
            PrimitiveType::I8 | PrimitiveType::I16 | PrimitiveType::I32 | PrimitiveType::I64
            | PrimitiveType::I128 | PrimitiveType::ISize => true,
            _ => false,
        }
    }

    pub open spec fn is_float(self) -> bool {
        self == PrimitiveType::F32 || self == PrimitiveType::F64
    }
}

/// The shape of a type. Fields and variants of definitions live with the
/// definitions; a type only refers to them by [`DefId`].
#[derive(Debug, Clone, PartialEq, Eq, Hash)]
pub enum TypeKind {
    Primitive(PrimitiveType),
    /// `*T` (for `*mut T` the element is a `Mut` type)
    Pointer(TypeId),
    /// `^T`
    VolatilePtr(TypeId),
    /// `[N]T`
    Array { elem: TypeId, len: u64 },
    /// `[]T`
    Slice(TypeId),
    /// `mut T`
    Mut(TypeId),
    /// A struct, enum or union definition with its generic arguments.
    Def(DefId, Vec<TypeId>),
    /// An algebraic data type with its generic arguments.
    Adt(DefId, Vec<TypeId>),
    /// The payload union that follows the tag of an ADT.
    AdtPayload(DefId, Vec<TypeId>),
    /// A trait object (fat pointer to data and vtable).
    TraitObject(DefId, Vec<TypeId>),
    /// `type A = B`: the alias name and its target.
    Alias(SymbolId, TypeId),
    /// A generic parameter before monomorphization.
    Param(SymbolId),
    Function { params: Vec<TypeId>, ret: TypeId, is_variadic: bool },
    /// A concrete function item with its bound generic arguments.
    FnDef(DefId, Vec<TypeId>),
    Error,
    /// A module used as a namespace.
    Module(DefId),
}

/// The mathematical shape of a [`TypeKind`]: argument lists as sequences.
pub enum TypeShape {
    Primitive(PrimitiveType),
    Pointer(TypeId),
    VolatilePtr(TypeId),
    Array { elem: TypeId, len: u64 },
    Slice(TypeId),
    Mut(TypeId),
    Def(DefId, Seq<TypeId>),
    Adt(DefId, Seq<TypeId>),
    AdtPayload(DefId, Seq<TypeId>),
    TraitObject(DefId, Seq<TypeId>),
    Alias(SymbolId, TypeId),
    Param(SymbolId),
    Function { params: Seq<TypeId>, ret: TypeId, is_variadic: bool },
    FnDef(DefId, Seq<TypeId>),
    Error,
    Module(DefId),
}

impl View for TypeKind {
    type V = TypeShape;

    open spec fn view(&self) -> TypeShape {
        match self {
            TypeKind::Primitive(p) => TypeShape::Primitive(*p),
            TypeKind::Pointer(t) => TypeShape::Pointer(*t),
            TypeKind::VolatilePtr(t) => TypeShape::VolatilePtr(*t),
            TypeKind::Array { elem, len } => TypeShape::Array { elem: *elem, len: *len },
            TypeKind::Slice(t) => TypeShape::Slice(*t),
            TypeKind::Mut(t) => TypeShape::Mut(*t),
            TypeKind::Def(d, a) => TypeShape::Def(*d, a@),
            TypeKind::Adt(d, a) => TypeShape::Adt(*d, a@),
            TypeKind::AdtPayload(d, a) => TypeShape::AdtPayload(*d, a@),
            TypeKind::TraitObject(d, a) => TypeShape::TraitObject(*d, a@),
            TypeKind::Alias(s, t) => TypeShape::Alias(*s, *t),
            TypeKind::Param(s) => TypeShape::Param(*s),
            TypeKind::Function { params, ret, is_variadic } => TypeShape::Function {
                params: params@,
                ret: *ret,
                is_variadic: *is_variadic,
            },
            TypeKind::FnDef(d, a) => TypeShape::FnDef(*d, a@),
            TypeKind::Error => TypeShape::Error,
            TypeKind::Module(d) => TypeShape::Module(*d),
        }
    }
}

/// Every id in `ids` is below `n`.
pub open spec fn ids_below(ids: Seq<TypeId>, n: nat) -> bool {
    forall|i: int| 0 <= i < ids.len() ==> (#[trigger] ids[i]).0 < n
}

/// Every type that `shape` refers to has an id below `n`.
pub open spec fn refs_below(shape: TypeShape, n: nat) -> bool {
    match shape {
        TypeShape::Pointer(t) | TypeShape::VolatilePtr(t) | TypeShape::Slice(t)
        | TypeShape::Mut(t) | TypeShape::Alias(_, t) => t.0 < n,
        TypeShape::Array { elem, .. } => elem.0 < n,
        TypeShape::Def(_, a) | TypeShape::Adt(_, a) | TypeShape::AdtPayload(_, a)
        | TypeShape::TraitObject(_, a) | TypeShape::FnDef(_, a) => ids_below(a, n),
        TypeShape::Function { params, ret, .. } => ids_below(params, n) && ret.0 < n,
        _ => true,
    }
}

/// The primitive type stored at each reserved id.
pub open spec fn reserved_shape(i: int) -> TypeShape {
    if i == 0 {
        TypeShape::Primitive(PrimitiveType::Void)
    } else if i == 1 {
        TypeShape::Primitive(PrimitiveType::Bool)
    } else if i == 2 {
        TypeShape::Primitive(PrimitiveType::I8)
    } else if i == 3 {
        TypeShape::Primitive(PrimitiveType::I16)
    } else if i == 4 {
        TypeShape::Primitive(PrimitiveType::I32)
    } else if i == 5 {
        TypeShape::Primitive(PrimitiveType::I64)
    } else if i == 6 {
        TypeShape::Primitive(PrimitiveType::I128)
    } else if i == 7 {
        TypeShape::Primitive(PrimitiveType::U8)
    } else if i == 8 {
        TypeShape::Primitive(PrimitiveType::U16)
    } else if i == 9 {
        TypeShape::Primitive(PrimitiveType::U32)
    } else if i == 10 {
        TypeShape::Primitive(PrimitiveType::U64)
    } else if i == 11 {
        TypeShape::Primitive(PrimitiveType::U128)
    } else if i == 12 {
        TypeShape::Primitive(PrimitiveType::F32)
    } else if i == 13 {
        TypeShape::Primitive(PrimitiveType::F64)
    } else if i == 14 {
        TypeShape::Primitive(PrimitiveType::ISize)
    } else if i == 15 {
        TypeShape::Primitive(PrimitiveType::USize)
    } else if i == 16 {
        TypeShape::Primitive(PrimitiveType::Str)
    } else {
        TypeShape::Error
    }
}

/// Number of reserved ids: the primitives and the error placeholder.
pub open spec fn num_reserved() -> nat {
    18
}

/// The invariant of the stored shapes: the reserved ids hold their
/// primitives, every type refers only to types stored before it, no shape
/// is stored twice, and every id fits in a `u32`.
pub open spec fn registry_wf(s: Seq<TypeShape>) -> bool {
    &&& num_reserved() <= s.len() <= u32::MAX
    &&& forall|i: int| 0 <= i < num_reserved() ==> s[i] == reserved_shape(i)
    &&& forall|i: int| 0 <= i < s.len() ==> refs_below(#[trigger] s[i], i as nat)
    &&& forall|i: int, j: int|
        0 <= i < s.len() && 0 <= j < s.len() && i != j ==> #[trigger] s[i] != #[trigger] s[j]
}

/// The id under which `shape` is stored in `s`, if it is.
pub open spec fn lookup_in(s: Seq<TypeShape>, shape: TypeShape) -> Option<TypeId> {
    if exists|i: int| 0 <= i < s.len() && #[trigger] s[i] == shape {
        Some(TypeId((choose|i: int| 0 <= i < s.len() && #[trigger] s[i] == shape) as u32))
    } else {
        None
    }
}

/// The shapes after interning `shape` into `s`, and the id it gets: the
/// stored one, or the next one for a new shape.
pub open spec fn interned(s: Seq<TypeShape>, shape: TypeShape) -> (Seq<TypeShape>, TypeId) {
    match lookup_in(s, shape) {
        Some(id) => (s, id),
        None => (s.push(shape), TypeId(s.len() as u32)),
    }
}

/// Interning is hash-consing. The id it gives names the shape, and it is
/// the error placeholder exactly for the error shape; the registry keeps its invariant and only grows;
/// interning the same shape again gives the same id and changes nothing;
/// and a second shape interned afterwards gets the same id exactly when it
/// is the same shape.
pub proof fn law_intern_hash_consing(s: Seq<TypeShape>, a: TypeShape, b: TypeShape)
    requires
        registry_wf(s),
        refs_below(a, s.len()),
        s.len() < u32::MAX,
    ensures
        ({
            let (s1, id) = interned(s, a);
            &&& registry_wf(s1)
            &&& s.is_prefix_of(s1)
            &&& id.0 < s1.len()
            &&& s1[id.0 as int] == a
            &&& (id == TypeId::spec_error() <==> a == TypeShape::Error)
            &&& interned(s1, a) == (s1, id)
            &&& (interned(s1, b).1 == id <==> b == a)
        }),
{
    let (s1, id) = interned(s, a);
    lemma_interned(s, a);
    lemma_interned(s1, b);
    lemma_interned(s1, a);
    let (s2, id2) = interned(s1, b);
    if id2 == id {
        assert(s2[id.0 as int] == s1[id.0 as int]);
    }
    match lookup_in(s1, a) {
        Some(j) => {
            if j != id {
                assert(s1[j.0 as int] == s1[id.0 as int]);
            }
        },
        None => {
            assert(s1[id.0 as int] == a);
        },
    }
}

/// What interning does to any sequence of shapes: the result extends it
/// and holds the shape at the id; a registry that has room and can hold
/// the shape keeps its invariant, and in it the id is the error
/// placeholder exactly for the error shape.
pub proof fn lemma_interned(s: Seq<TypeShape>, shape: TypeShape)
    requires
        s.len() <= u32::MAX,
        s.len() > TypeId::spec_error().0,
    ensures
        ({
            let (s1, id) = interned(s, shape);
            &&& s.is_prefix_of(s1)
            &&& id.0 < s1.len()
            &&& s1[id.0 as int] == shape
            &&& (registry_wf(s) && refs_below(shape, s.len()) && s.len() < u32::MAX) ==> registry_wf(s1)
            &&& registry_wf(s) ==> (id == TypeId::spec_error() <==> shape == TypeShape::Error)
        }),
{
    let (s1, id) = interned(s, shape);
    if registry_wf(s) {
        assert(s[TypeId::spec_error().0 as int] == reserved_shape(17));
    }
    match lookup_in(s, shape) {
        Some(found) => {
            if registry_wf(s) && shape == TypeShape::Error && found.0 != 17 {
                assert(s[found.0 as int] == s[17]);
            }
        },
        None => {
            assert(s1[s.len() as int] == shape);
            if registry_wf(s) && refs_below(shape, s.len()) && s.len() < u32::MAX {
                assert forall|a: int| 0 <= a < s1.len() implies refs_below(#[trigger] s1[a], a as nat) by {
                    if a < s.len() {
                        assert(s1[a] == s[a]);
                    }
                }
                assert forall|i: int, j: int|
                    0 <= i < s1.len() && 0 <= j < s1.len() && i != j implies #[trigger] s1[i]
                        != #[trigger] s1[j] by {
                    if i < s.len() && j < s.len() {
                        assert(s1[i] == s[i] && s1[j] == s[j]);
                    } else if i < s.len() {
                        assert(s1[i] == s[i]);
                    } else {
                        assert(s1[j] == s[j]);
                    }
                }
                assert forall|i: int| 0 <= i < num_reserved() implies s1[i] == reserved_shape(i) by {
                    assert(s1[i] == s[i]);
                }
            }
        },
    }
}

/// The registry of all types. Equal shapes get equal ids: every shape is
/// stored once, the error shape at [`TypeId::ERROR`] included.
pub struct TypeRegistry {
    types: Vec<TypeKind>,
}

impl View for TypeRegistry {
    type V = Seq<TypeShape>;

    closed spec fn view(&self) -> Seq<TypeShape> {
        self.types@.map_values(|k: TypeKind| k@)
    }
}

impl TypeRegistry {
    /// The registry's invariant: the reserved ids hold their primitives,
    /// every type refers only to types stored before it, no shape is stored
    /// twice, and every id fits in a `u32`.
    pub open spec fn wf(&self) -> bool {
        registry_wf(self@)
    }

    /// `id` names a type of this registry.
    pub open spec fn contains(&self, id: TypeId) -> bool {
        id.0 < self@.len()
    }

    /// The stored id of `shape`, if the registry holds it.
    pub open spec fn lookup(&self, shape: TypeShape) -> Option<TypeId> {
        lookup_in(self@, shape)
    }

    /// Follow aliases from `id` to the type they finally name.
    pub open spec fn spec_normalize(&self, id: TypeId) -> TypeId
        decreases id.0,
    {
        if id.0 < self@.len() {
            match self@[id.0 as int] {
                TypeShape::Alias(_, t) => if t.0 < id.0 {
                    self.spec_normalize(t)
                } else {
                    id
                },
                _ => id,
            }
        } else {
            id
        }
    }

    /// The shape of the type that `id` finally names.
    pub open spec fn normalized_shape(&self, id: TypeId) -> TypeShape {
        self@[self.spec_normalize(id).0 as int]
    }

    pub open spec fn spec_is_integer(&self, id: TypeId) -> bool {
        match self.normalized_shape(id) {
            TypeShape::Primitive(p) => p.is_integer(),
            _ => false,
        }
    }

    pub open spec fn spec_is_float(&self, id: TypeId) -> bool {
        match self.normalized_shape(id) {
            TypeShape::Primitive(p) => p.is_float(),
            _ => false,
        }
    }

    pub open spec fn spec_is_mut(&self, id: TypeId) -> bool {
        self.normalized_shape(id) is Mut
    }

    pub open spec fn spec_strip_mut(&self, id: TypeId) -> TypeId {
        match self.normalized_shape(id) {
            TypeShape::Mut(inner) => inner,
            _ => id,
        }
    }

    /// The element type of a pointer, slice or array, looking through
    /// aliases and `mut`.
    pub open spec fn spec_elem_type(&self, id: TypeId) -> Option<TypeId>
        decreases id.0,
    {
        let n = self.spec_normalize(id);
        match self.normalized_shape(id) {
            TypeShape::Pointer(e) | TypeShape::VolatilePtr(e) | TypeShape::Slice(e) => Some(e),
            TypeShape::Array { elem, .. } => Some(elem),
            TypeShape::Mut(inner) => if inner.0 < id.0 {
                self.spec_elem_type(inner)
            } else {
                None
            },
            _ => None,
        }
    }

    /// Normalization stays inside the registry and lands on a non-alias
    /// type that is no later than the start.
    pub proof fn lemma_normalize(&self, id: TypeId)
        requires
            self.wf(),
            self.contains(id),
        ensures
            self.contains(self.spec_normalize(id)),
            self.spec_normalize(id).0 <= id.0,
            !(self.normalized_shape(id) is Alias),
        decreases id.0,
    {
        assert(refs_below(self@[id.0 as int], id.0 as nat));
        match self@[id.0 as int] {
            TypeShape::Alias(_, t) => {
                self.lemma_normalize(t);
            },
            _ => {},
        }
    }

    pub fn new() -> (reg: Self)
        ensures
            reg.wf(),
            reg@.len() == num_reserved(),
    {
        let mut types: Vec<TypeKind> = Vec::new();
        types.push(TypeKind::Primitive(PrimitiveType::Void));
        types.push(TypeKind::Primitive(PrimitiveType::Bool));
        types.push(TypeKind::Primitive(PrimitiveType::I8));
        types.push(TypeKind::Primitive(PrimitiveType::I16));
        types.push(TypeKind::Primitive(PrimitiveType::I32));
        types.push(TypeKind::Primitive(PrimitiveType::I64));
        types.push(TypeKind::Primitive(PrimitiveType::I128));
        types.push(TypeKind::Primitive(PrimitiveType::U8));
        types.push(TypeKind::Primitive(PrimitiveType::U16));
        types.push(TypeKind::Primitive(PrimitiveType::U32));
        types.push(TypeKind::Primitive(PrimitiveType::U64));
        types.push(TypeKind::Primitive(PrimitiveType::U128));
        types.push(TypeKind::Primitive(PrimitiveType::F32));
        types.push(TypeKind::Primitive(PrimitiveType::F64));
        types.push(TypeKind::Primitive(PrimitiveType::ISize));
        types.push(TypeKind::Primitive(PrimitiveType::USize));
        types.push(TypeKind::Primitive(PrimitiveType::Str));
        types.push(TypeKind::Error);
        let reg = TypeRegistry { types };
        assert forall|i: int| 0 <= i < num_reserved() implies reg@[i] == reserved_shape(i) by {}
        reg
    }

    /// The id of `kind`, storing it first if it is new. Interning the same
    /// shape again gives back the same id.
    pub fn intern(&mut self, kind: TypeKind) -> (id: TypeId)
        requires
            old(self).wf(),
            refs_below(kind@, old(self)@.len()),
            old(self)@.len() < u32::MAX,
        ensures
            final(self).wf(),
            final(self).contains(id),
            final(self)@[id.0 as int] == kind@,
            id == TypeId::spec_error() <==> kind@ == TypeShape::Error,
            old(self)@.is_prefix_of(final(self)@),
            (final(self)@, id) == interned(old(self)@, kind@),
            match old(self).lookup(kind@) {
                Some(found) => id == found && final(self)@ == old(self)@,
                None => id.0 == old(self)@.len() && final(self)@ == old(self)@.push(kind@),
            },
    {
        let n = self.types.len();
        let mut i: usize = 0;
        while i < n
            invariant
                n == self.types.len(),
                0 <= i <= n,
                self.wf(),
                forall|j: int| 0 <= j < i ==> #[trigger] self@[j] != kind@,
            decreases n - i,
        {
            if kinds_equal(&self.types[i], &kind) {
                let id = TypeId(i as u32);
                proof {
                    assert(self@[i as int] == kind@);
                    assert(self@[17] == reserved_shape(17));
                    if kind@ == TypeShape::Error && i != 17 {
                        assert(self@[i as int] == self@[17]);
                    }
                    let c = choose|j: int| 0 <= j < self@.len() && #[trigger] self@[j] == kind@;
                    assert(self@[c] == kind@);
                    if c != i {
                        assert(self@[c] != self@[i as int]);
                    }
                }
                return id;
            }
            i = i + 1;
        }
        let id = TypeId(n as u32);
        let ghost old_view = self@;
        self.types.push(kind);
        proof {
            assert(self@ =~= old_view.push(kind@));
            assert(old_view[17] == reserved_shape(17));
            assert(old_view[17] != kind@);
            assert(!(exists|j: int| 0 <= j < old_view.len() && #[trigger] old_view[j] == kind@));
            assert forall|a: int| 0 <= a < self@.len() implies refs_below(#[trigger] self@[a], a as nat) by {
                if a < old_view.len() {
                    assert(refs_below(old_view[a], a as nat));
                }
            }
        }
        id
    }

    /// The shape stored at `id`.
    pub fn get(&self, id: TypeId) -> (k: &TypeKind)
        requires
            self.contains(id),
        ensures
            k@ == self@[id.0 as int],
    {
        &self.types[id.0 as usize]
    }

    /// Follow aliases to the type they finally name; types that are equal
    /// up to aliases normalize to the same id.
    pub fn normalize(&self, id: TypeId) -> (r: TypeId)
        requires
            self.wf(),
            self.contains(id),
        ensures
            r == self.spec_normalize(id),
            self.contains(r),
            !(self@[r.0 as int] is Alias),
    {
        proof {
            self.lemma_normalize(id);
        }
        let mut cur = id;
        loop
            invariant
                self.wf(),
                self.contains(cur),
                self.spec_normalize(cur) == self.spec_normalize(id),
            decreases cur.0,
        {
            proof {
                self.lemma_normalize(cur);
                assert(refs_below(self@[cur.0 as int], cur.0 as nat));
            }
            match self.get(cur) {
                TypeKind::Alias(_, target) => {
                    cur = *target;
                },
                _ => {
                    return cur;
                },
            }
        }
    }

    pub fn is_integer(&self, id: TypeId) -> (r: bool)
        requires
            self.wf(),
            self.contains(id),
        ensures
            r == self.spec_is_integer(id),
    {
        let n = self.normalize(id);
        match self.get(n) {
            TypeKind::Primitive(p) => match p {
                PrimitiveType::I8 | PrimitiveType::I16 | PrimitiveType::I32 | PrimitiveType::I64
                | PrimitiveType::I128 | PrimitiveType::ISize | PrimitiveType::U8
                | PrimitiveType::U16 | PrimitiveType::U32 | PrimitiveType::U64
                | PrimitiveType::U128 | PrimitiveType::USize => true,
                _ => false,
            },
            _ => false,
        }
    }

    pub fn is_float(&self, id: TypeId) -> (r: bool)
        requires
            self.wf(),
            self.contains(id),
        ensures
            r == self.spec_is_float(id),
    {
        let n = self.normalize(id);
        match self.get(n) {
            TypeKind::Primitive(p) => match p {
                PrimitiveType::F32 | PrimitiveType::F64 => true,
                _ => false,
            },
            _ => false,
        }
    }

    /// The type under an outer `mut` (looking through aliases); any other
    /// type is given back unchanged.
    pub fn strip_mut(&self, id: TypeId) -> (r: TypeId)
        requires
            self.wf(),
            self.contains(id),
        ensures
            r == self.spec_strip_mut(id),
            self.contains(r),
    {
        let n = self.normalize(id);
        proof {
            assert(refs_below(self@[n.0 as int], n.0 as nat));
        }
        match self.get(n) {
            TypeKind::Mut(inner) => *inner,
            _ => id,
        }
    }

    /// The type is explicitly `mut` (looking through aliases).
    pub fn is_mut(&self, id: TypeId) -> (r: bool)
        requires
            self.wf(),
            self.contains(id),
        ensures
            r == self.spec_is_mut(id),
    {
        let n = self.normalize(id);
        match self.get(n) {
            TypeKind::Mut(_) => true,
            _ => false,
        }
    }

    /// The element type of a pointer, volatile pointer, slice or array,
    /// looking through aliases and `mut`.
    pub fn get_elem_type(&self, id: TypeId) -> (r: Option<TypeId>)
        requires
            self.wf(),
            self.contains(id),
        ensures
            r == self.spec_elem_type(id),
            r matches Some(e) ==> self.contains(e),
        decreases id.0,
    {
        let n = self.normalize(id);
        proof {
            self.lemma_normalize(id);
            assert(refs_below(self@[n.0 as int], n.0 as nat));
        }
        match self.get(n) {
            TypeKind::Pointer(e) | TypeKind::VolatilePtr(e) | TypeKind::Slice(e) => Some(*e),
            TypeKind::Array { elem, .. } => Some(*elem),
            TypeKind::Mut(inner) => self.get_elem_type(*inner),
            _ => None,
        }
    }
}

/// Element-wise equality of two id lists.
fn ids_equal(a: &Vec<TypeId>, b: &Vec<TypeId>) -> (r: bool)
    ensures
        r == (a@ == b@),
{
    if a.len() != b.len() {
        return false;
    }
    let mut i: usize = 0;
    while i < a.len()
        invariant
            a.len() == b.len(),
            0 <= i <= a.len(),
            forall|j: int| 0 <= j < i ==> a@[j] == b@[j],
        decreases a.len() - i,
    {
        if a[i] != b[i] {
            return false;
        }
        i = i + 1;
    }
    assert(a@ =~= b@);
    true
}

/// Equality of two shapes.
pub fn kinds_equal(a: &TypeKind, b: &TypeKind) -> (r: bool)
    ensures
        r == (a@ == b@),
{
    match (a, b) {
        (TypeKind::Primitive(x), TypeKind::Primitive(y)) => *x == *y,
        (TypeKind::Pointer(x), TypeKind::Pointer(y)) => *x == *y,
        (TypeKind::VolatilePtr(x), TypeKind::VolatilePtr(y)) => *x == *y,
        (TypeKind::Array { elem: e1, len: l1 }, TypeKind::Array { elem: e2, len: l2 }) => *e1
            == *e2 && *l1 == *l2,
        (TypeKind::Slice(x), TypeKind::Slice(y)) => *x == *y,
        (TypeKind::Mut(x), TypeKind::Mut(y)) => *x == *y,
        (TypeKind::Def(d1, a1), TypeKind::Def(d2, a2)) => *d1 == *d2 && ids_equal(a1, a2),
        (TypeKind::Adt(d1, a1), TypeKind::Adt(d2, a2)) => *d1 == *d2 && ids_equal(a1, a2),
        (TypeKind::AdtPayload(d1, a1), TypeKind::AdtPayload(d2, a2)) => *d1 == *d2 && ids_equal(
            a1,
            a2,
        ),
        (TypeKind::TraitObject(d1, a1), TypeKind::TraitObject(d2, a2)) => *d1 == *d2
            && ids_equal(a1, a2),
        (TypeKind::Alias(s1, t1), TypeKind::Alias(s2, t2)) => *s1 == *s2 && *t1 == *t2,
        (TypeKind::Param(s1), TypeKind::Param(s2)) => *s1 == *s2,
        (
            TypeKind::Function { params: p1, ret: r1, is_variadic: v1 },
            TypeKind::Function { params: p2, ret: r2, is_variadic: v2 },
        ) => *r1 == *r2 && *v1 == *v2 && ids_equal(p1, p2),
        (TypeKind::FnDef(d1, a1), TypeKind::FnDef(d2, a2)) => *d1 == *d2 && ids_equal(a1, a2),
        (TypeKind::Error, TypeKind::Error) => true,
        (TypeKind::Module(d1), TypeKind::Module(d2)) => *d1 == *d2,
        _ => false,
    }
}

/// A copy of an id list.
pub fn copy_ids(v: &Vec<TypeId>) -> (r: Vec<TypeId>)
    ensures
        r@ == v@,
{
    let mut r: Vec<TypeId> = Vec::new();
    let mut i: usize = 0;
    while i < v.len()
        invariant
            0 <= i <= v.len(),
            r@ == v@.subrange(0, i as int),
        decreases v.len() - i,
    {
        r.push(v[i]);
        i = i + 1;
        assert(r@ =~= v@.subrange(0, i as int));
    }
    assert(v@.subrange(0, v@.len() as int) =~= v@);
    r
}

/// A copy of a shape.
pub fn copy_kind(k: &TypeKind) -> (r: TypeKind)
    ensures
        r@ == k@,
{
    match k {
        TypeKind::Primitive(p) => TypeKind::Primitive(*p),
        TypeKind::Pointer(t) => TypeKind::Pointer(*t),
        TypeKind::VolatilePtr(t) => TypeKind::VolatilePtr(*t),
        TypeKind::Array { elem, len } => TypeKind::Array { elem: *elem, len: *len },
        TypeKind::Slice(t) => TypeKind::Slice(*t),
        TypeKind::Mut(t) => TypeKind::Mut(*t),
        TypeKind::Def(d, a) => TypeKind::Def(*d, copy_ids(a)),
        TypeKind::Adt(d, a) => TypeKind::Adt(*d, copy_ids(a)),
        TypeKind::AdtPayload(d, a) => TypeKind::AdtPayload(*d, copy_ids(a)),
        TypeKind::TraitObject(d, a) => TypeKind::TraitObject(*d, copy_ids(a)),
        TypeKind::Alias(s, t) => TypeKind::Alias(*s, *t),
        TypeKind::Param(s) => TypeKind::Param(*s),
        TypeKind::Function { params, ret, is_variadic } => TypeKind::Function {
            params: copy_ids(params),
            ret: *ret,
            is_variadic: *is_variadic,
        },
        TypeKind::FnDef(d, a) => TypeKind::FnDef(*d, copy_ids(a)),
        TypeKind::Error => TypeKind::Error,
        TypeKind::Module(d) => TypeKind::Module(*d),
    }
}

} // verus!
