use super::expr::{base_type, law_coercion_reflexive, lemma_base_type, plain, spec_coercion, Coercion, ExprChecker};
use crate::sema::ty::{interned, refs_below, reserved_shape, PrimitiveType, TypeId, TypeKind, TypeRegistry, TypeShape};
use crate::parser::ast::{BinaryOperator, ExprKind, SwitchCase, SwitchPattern, UnaryOperator};
use crate::utils::SymbolId;
use vstd::prelude::*;

verus! {

// The typing rules of operators, indexing, slicing, assignment, casts and
// returns, given the types of the operands.

/// A type error found by the rules; each variant stands for one diagnostic.
#[derive(Debug, Clone, Copy, PartialEq, Eq, Structural)]
pub enum TypeIssue {
    /// A coercion was refused ("mismatched types", or the array decay
    /// error).
    Coercion(Coercion),
    /// "implicit pointer arithmetic is strictly forbidden in Kern"
    PointerArithmetic,
    /// "bitwise operations require integer types"
    BitwiseNeedsIntegers,
    /// "cannot dereference a non-pointer type"
    DerefNonPointer,
    /// "length operator `#` can only be applied to arrays and slices"
    LengthOfNonArray,
    /// "negation requires a numeric type"
    NegateNonNumeric,
    /// "bitwise NOT requires an integer type"
    BitwiseNotNonInteger,
    /// "index must be an integer type"
    IndexNotInteger,
    /// "cannot index into a non-array/non-slice type"
    IndexNonArray,
    /// "slice start index must be an integer"
    SliceStartNotInteger,
    /// "slice end index must be an integer"
    SliceEndNotInteger,
    /// "cannot slice a non-array/non-slice type"
    SliceNonArray,
    /// "cannot assign to an immutable variable or location"
    AssignToImmutable,
    /// "`undef` must have a known expected type context"
    UndefWithoutType,
    /// "expected a return value, but found empty return"
    MissingReturnValue,
    /// "function expects at least {expected} arguments, but {provided} were
    /// provided"
    TooFewVariadicArguments { expected: usize, provided: usize },
    /// "function expects exactly {expected} arguments, but {provided} were
    /// provided"
    WrongArgumentCount { expected: usize, provided: usize },
    /// "C ABI requires integer arguments passed to `...` to be at least
    /// 32-bit"
    VariadicSmallInteger,
    /// "C ABI requires float arguments passed to `...` to be 64-bit"
    VariadicF32,
    /// "method receiver type mismatch", with the hint that the method wants
    /// a pointer receiver.
    ReceiverNeedsPointer,
    /// "array literal length ({found}) does not match expected length
    /// ({expected})"
    ArrayLengthMismatch { found: u64, expected: u64 },
    /// "expected an array type for array literal `.{ ... }`"
    ArrayLiteralNeedsArrayType,
    /// "expected an array type for repeat literal `.{ v; N }`"
    RepeatLiteralNeedsArrayType,
    /// "repeat count must be an integer"
    RepeatCountNotInteger,
}

/// How an `as` cast is judged.
#[derive(Debug, Clone, Copy, PartialEq, Eq, Structural)]
pub enum CastCheck {
    /// The cast keeps the bit pattern (or changes nothing) and is allowed.
    Allowed,
    /// "cannot cast a read-only pointer to a mutable trait object `mut Trait`"
    ReadOnlyToMutableTraitObject,
    /// "only pointers or trait objects can be cast to a trait object"
    NotPointerToTraitObject,
    /// A cast to the trait object of this trait definition: allowed where
    /// the source type implements the trait.
    NeedsTraitImpl(crate::sema::ty::DefId),
    /// "invalid `as` cast"
    Invalid,
}

pub open spec fn bool_type() -> TypeId {
    TypeId::spec_primitive(PrimitiveType::Bool)
}

/// The issue of a refused coercion, or none.
pub open spec fn coercion_issues(reg: &TypeRegistry, expected: TypeId, actual: TypeId) -> Seq<TypeIssue> {
    if spec_coercion(reg, expected, actual) == Coercion::Accepted {
        Seq::empty()
    } else {
        seq![TypeIssue::Coercion(spec_coercion(reg, expected, actual))]
    }
}

/// The stored shape is a pointer or a volatile pointer.
pub open spec fn is_pointer_shape(s: TypeShape) -> bool {
    s is Pointer || s is VolatilePtr
}

pub open spec fn is_arithmetic(op: BinaryOperator) -> bool {
    op == BinaryOperator::Add || op == BinaryOperator::Subtract || op == BinaryOperator::Multiply
        || op == BinaryOperator::Divide || op == BinaryOperator::Modulo
}

pub open spec fn is_comparison(op: BinaryOperator) -> bool {
    op == BinaryOperator::Equal || op == BinaryOperator::NotEqual || op == BinaryOperator::LessThan
        || op == BinaryOperator::GreaterThan || op == BinaryOperator::LessOrEqual || op
        == BinaryOperator::GreaterOrEqual
}

/// The type of `l op r` for operands of types `lhs` and `rhs`, and the
/// issues found: arithmetic takes no pointers and needs the right operand
/// to coerce to the left; comparisons give `bool`; `and`/`or` want `bool`
/// on both sides; bitwise operators want integers.
pub open spec fn binary_typing(reg: &TypeRegistry, op: BinaryOperator, lhs: TypeId, rhs: TypeId) -> (TypeId, Seq<TypeIssue>) {
    let l = base_type(reg, lhs);
    let r = base_type(reg, rhs);
    if l == TypeId::spec_error() || r == TypeId::spec_error() {
        (TypeId::spec_error(), Seq::empty())
    } else if is_arithmetic(op) {
        if is_pointer_shape(reg@[l.0 as int]) || is_pointer_shape(reg@[r.0 as int]) {
            (TypeId::spec_error(), seq![TypeIssue::PointerArithmetic])
        } else if spec_coercion(reg, l, r) != Coercion::Accepted {
            (TypeId::spec_error(), coercion_issues(reg, l, r))
        } else {
            (l, Seq::empty())
        }
    } else if is_comparison(op) {
        if spec_coercion(reg, l, r) != Coercion::Accepted {
            (TypeId::spec_error(), coercion_issues(reg, l, r))
        } else {
            (bool_type(), Seq::empty())
        }
    } else if op == BinaryOperator::LogicalAnd || op == BinaryOperator::LogicalOr {
        (bool_type(), coercion_issues(reg, bool_type(), l) + coercion_issues(reg, bool_type(), r))
    } else {
        let first = if !reg.spec_is_integer(l) {
            seq![TypeIssue::BitwiseNeedsIntegers]
        } else {
            Seq::empty()
        };
        if spec_coercion(reg, l, r) != Coercion::Accepted {
            (TypeId::spec_error(), first + coercion_issues(reg, l, r))
        } else {
            (l, first)
        }
    }
}

/// The type an operand of a unary operator is checked against, given the
/// type expected of the whole expression: negation passes it on, `&`
/// passes on what the expected pointer points to.
pub open spec fn unary_operand_expectation(reg: &TypeRegistry, op: UnaryOperator, expected: Option<TypeId>) -> Option<TypeId> {
    match op {
        UnaryOperator::Negate | UnaryOperator::BitwiseNot => expected,
        UnaryOperator::AddressOf => match expected {
            Some(e) => match reg@[base_type(reg, e).0 as int] {
                TypeShape::Pointer(inner) | TypeShape::VolatilePtr(inner) => Some(inner),
                _ => None,
            },
            None => None,
        },
        _ => None,
    }
}

/// The type of a unary expression whose operand has type `operand` (for
/// `&`, the pointer type is looked up in or added to the registry `s`).
pub open spec fn unary_typing(reg: &TypeRegistry, s: Seq<TypeShape>, op: UnaryOperator, operand: TypeId) -> (TypeId, Seq<TypeIssue>) {
    let b = base_type(reg, operand);
    if operand == TypeId::spec_error() {
        (TypeId::spec_error(), Seq::empty())
    } else {
        match op {
            UnaryOperator::AddressOf => (interned(s, TypeShape::Pointer(operand)).1, Seq::empty()),
            UnaryOperator::PointerDeRef => match reg@[b.0 as int] {
                TypeShape::Pointer(inner) | TypeShape::VolatilePtr(inner) => (inner, Seq::empty()),
                _ => (TypeId::spec_error(), seq![TypeIssue::DerefNonPointer]),
            },
            UnaryOperator::LengthOf => match reg@[b.0 as int] {
                TypeShape::Array { .. } | TypeShape::Slice(_) => (
                    TypeId::spec_primitive(PrimitiveType::USize),
                    Seq::empty(),
                ),
                _ => (TypeId::spec_error(), seq![TypeIssue::LengthOfNonArray]),
            },
            UnaryOperator::Negate => if !reg.spec_is_integer(b) && !reg.spec_is_float(b) {
                (operand, seq![TypeIssue::NegateNonNumeric])
            } else {
                (operand, Seq::empty())
            },
            UnaryOperator::LogicalNot => (bool_type(), coercion_issues(reg, bool_type(), operand)),
            UnaryOperator::BitwiseNot => if !reg.spec_is_integer(b) {
                (operand, seq![TypeIssue::BitwiseNotNonInteger])
            } else {
                (operand, Seq::empty())
            },
        }
    }
}

/// The registry after typing a unary expression: `&` may add a pointer
/// type.
pub open spec fn unary_registry(s: Seq<TypeShape>, op: UnaryOperator, operand: TypeId) -> Seq<TypeShape> {
    if operand != TypeId::spec_error() && op == UnaryOperator::AddressOf {
        interned(s, TypeShape::Pointer(operand)).0
    } else {
        s
    }
}

/// A pointer or volatile pointer to a `mut` type.
pub open spec fn spec_is_mutable_pointer(reg: &TypeRegistry, ty: TypeId) -> bool {
    match reg.normalized_shape(ty) {
        TypeShape::Pointer(inner) | TypeShape::VolatilePtr(inner) => reg.spec_is_mut(inner),
        _ => false,
    }
}

/// The judgement of the cast `from as to`. A cast to a trait object needs
/// a pointer (a mutable one for a `mut` trait object) or another trait
/// object; otherwise casts go between integers and pointers, or from a
/// slice to a pointer.
pub open spec fn cast_check(reg: &TypeRegistry, from: TypeId, to: TypeId) -> CastCheck {
    let f = base_type(reg, from);
    let t = base_type(reg, to);
    let fs = reg@[f.0 as int];
    let ts = reg@[t.0 as int];
    if from == to || from == TypeId::spec_error() || to == TypeId::spec_error() {
        CastCheck::Allowed
    } else if ts is TraitObject {
        if reg.spec_is_mut(to) && !spec_is_mutable_pointer(reg, from) {
            CastCheck::ReadOnlyToMutableTraitObject
        } else if !is_pointer_shape(fs) && !(fs is TraitObject) {
            CastCheck::NotPointerToTraitObject
        } else {
            match ts {
                TypeShape::TraitObject(d, _) => CastCheck::NeedsTraitImpl(d),
                _ => CastCheck::Invalid,
            }
        }
    } else {
        let fi = reg.spec_is_integer(f);
        let ti = reg.spec_is_integer(t);
        let fp = is_pointer_shape(fs);
        let tp = is_pointer_shape(ts);
        if (fs is Slice) && tp {
            CastCheck::Allowed
        } else if (fi && ti) || (fp && tp) || (fi && tp) || (fp && ti) {
            CastCheck::Allowed
        } else {
            CastCheck::Invalid
        }
    }
}

/// The type reached from `ty` by looking through aliases, `mut` and
/// pointers, and whether the place reached is mutable: `mut` makes it so,
/// going through a pointer starts over (`*T` gives no write access,
/// `*mut T` has its own `mut`).
pub open spec fn base_and_mut(reg: &TypeRegistry, ty: TypeId, m: bool) -> (TypeId, bool)
    decreases ty.0,
{
    let n = reg.spec_normalize(ty);
    match reg@[n.0 as int] {
        TypeShape::Mut(inner) => if inner.0 < ty.0 {
            base_and_mut(reg, inner, true)
        } else {
            (n, m)
        },
        TypeShape::Pointer(inner) | TypeShape::VolatilePtr(inner) => if inner.0 < ty.0 {
            base_and_mut(reg, inner, false)
        } else {
            (n, m)
        },
        _ => (n, m),
    }
}

/// The element type of `ty[i]` (a `mut` element where `ty` is `mut`), and
/// the issues found: the index must be an integer.
pub open spec fn index_typing(reg: &TypeRegistry, s: Seq<TypeShape>, lhs: TypeId, index: TypeId) -> (TypeId, Seq<TypeIssue>) {
    let ib = base_type(reg, index);
    let first = if !reg.spec_is_integer(ib) && ib != TypeId::spec_error() {
        seq![TypeIssue::IndexNotInteger]
    } else {
        Seq::empty()
    };
    match reg@[base_type(reg, lhs).0 as int] {
        TypeShape::Array { elem, .. } | TypeShape::Slice(elem) => if reg.spec_is_mut(lhs) {
            (interned(s, TypeShape::Mut(elem)).1, first)
        } else {
            (elem, first)
        },
        TypeShape::Error => (TypeId::spec_error(), first),
        _ => (TypeId::spec_error(), first.push(TypeIssue::IndexNonArray)),
    }
}

/// The registry after typing `lhs[i]`: a `mut` element type may be added.
pub open spec fn index_registry(reg: &TypeRegistry, s: Seq<TypeShape>, lhs: TypeId) -> Seq<TypeShape> {
    match reg@[base_type(reg, lhs).0 as int] {
        TypeShape::Array { elem, .. } | TypeShape::Slice(elem) => if reg.spec_is_mut(lhs) {
            interned(s, TypeShape::Mut(elem)).0
        } else {
            s
        },
        _ => s,
    }
}

/// The issue of a slice bound that is no integer.
pub open spec fn bound_issues(reg: &TypeRegistry, bound: Option<TypeId>, issue: TypeIssue) -> Seq<TypeIssue> {
    match bound {
        Some(b) => if !reg.spec_is_integer(base_type(reg, b)) {
            seq![issue]
        } else {
            Seq::empty()
        },
        None => Seq::empty(),
    }
}

/// The element type of the slice `ty.[start..end]` (`mut` where `ty` is)
/// before the slice type is formed.
pub open spec fn slice_elem(reg: &TypeRegistry, s: Seq<TypeShape>, lhs: TypeId, elem: TypeId) -> (Seq<TypeShape>, TypeId) {
    if reg.spec_is_mut(lhs) {
        interned(s, TypeShape::Mut(elem))
    } else {
        (s, elem)
    }
}

/// The registry and type of `ty.[start..end]`, and the issues found.
pub open spec fn slice_typing(
    reg: &TypeRegistry,
    s: Seq<TypeShape>,
    lhs: TypeId,
    start: Option<TypeId>,
    end: Option<TypeId>,
) -> (Seq<TypeShape>, TypeId, Seq<TypeIssue>) {
    let issues = bound_issues(reg, start, TypeIssue::SliceStartNotInteger) + bound_issues(
        reg,
        end,
        TypeIssue::SliceEndNotInteger,
    );
    match reg@[base_type(reg, lhs).0 as int] {
        TypeShape::Array { elem, .. } | TypeShape::Slice(elem) => {
            let (s1, e) = slice_elem(reg, s, lhs, elem);
            let (s2, t) = interned(s1, TypeShape::Slice(e));
            (s2, t, issues)
        },
        TypeShape::Error => (s, TypeId::spec_error(), issues),
        _ => (s, TypeId::spec_error(), issues.push(TypeIssue::SliceNonArray)),
    }
}

/// The type of an assignment and the issues found: the target must be
/// `mut`, and the value must coerce to its type.
pub open spec fn assign_typing(reg: &TypeRegistry, lhs: TypeId, rhs: TypeId) -> (TypeId, Seq<TypeIssue>) {
    let first = if !reg.spec_is_mut(lhs) && lhs != TypeId::spec_error() {
        seq![TypeIssue::AssignToImmutable]
    } else {
        Seq::empty()
    };
    if lhs == TypeId::spec_error() || rhs == TypeId::spec_error() {
        (TypeId::spec_error(), first)
    } else {
        (
            TypeId::spec_primitive(PrimitiveType::Void),
            first + coercion_issues(reg, base_type(reg, lhs), base_type(reg, rhs)),
        )
    }
}

/// The issues of a `return` in a function returning `ret` (`void` where
/// none is declared), with a value of type `value` or without one.
pub open spec fn return_issues(reg: &TypeRegistry, ret: Option<TypeId>, value: Option<TypeId>) -> Seq<TypeIssue> {
    let expected = match ret {
        Some(t) => t,
        None => TypeId::spec_primitive(PrimitiveType::Void),
    };
    match value {
        Some(v) => coercion_issues(reg, expected, v),
        None => if expected != TypeId::spec_primitive(PrimitiveType::Void) && expected
            != TypeId::spec_error() {
            seq![TypeIssue::MissingReturnValue]
        } else {
            Seq::empty()
        },
    }
}

/// Pointer arithmetic is never implicit: an arithmetic operator with a
/// pointer operand (neither operand being the error type) has the error
/// type and reports exactly that.
pub proof fn law_no_implicit_pointer_arithmetic(reg: &TypeRegistry, op: BinaryOperator, lhs: TypeId, rhs: TypeId)
    requires
        is_arithmetic(op),
        base_type(reg, lhs) != TypeId::spec_error(),
        base_type(reg, rhs) != TypeId::spec_error(),
        is_pointer_shape(reg@[base_type(reg, lhs).0 as int]) || is_pointer_shape(
            reg@[base_type(reg, rhs).0 as int],
        ),
    ensures
        binary_typing(reg, op, lhs, rhs) == (TypeId::spec_error(), seq![TypeIssue::PointerArithmetic]),
{
}

/// Mutability is explicit: assigning to a place whose type is not `mut`
/// (and not the error type) is reported first, whatever the value.
pub proof fn law_assignment_needs_mut(reg: &TypeRegistry, lhs: TypeId, rhs: TypeId)
    requires
        !reg.spec_is_mut(lhs),
        lhs != TypeId::spec_error(),
    ensures
        assign_typing(reg, lhs, rhs).1.len() >= 1,
        assign_typing(reg, lhs, rhs).1[0] == TypeIssue::AssignToImmutable,
{
}

/// A `mut` trait object is only made from a pointer to `mut`: casting
/// anything else to one is refused.
pub proof fn law_mutable_trait_object_needs_mutable_pointer(reg: &TypeRegistry, from: TypeId, to: TypeId)
    requires
        from != to,
        from != TypeId::spec_error(),
        to != TypeId::spec_error(),
        reg@[base_type(reg, to).0 as int] is TraitObject,
        reg.spec_is_mut(to),
        !spec_is_mutable_pointer(reg, from),
    ensures
        cast_check(reg, from, to) == CastCheck::ReadOnlyToMutableTraitObject,
{
}

impl ExprChecker {
    /// The issue of a refused coercion, if any.
    fn coercion_issue(&self, reg: &TypeRegistry, expected: TypeId, actual: TypeId) -> (r: Vec<TypeIssue>)
        requires
            reg.wf(),
            reg.contains(expected),
            reg.contains(actual),
        ensures
            r@ == coercion_issues(reg, expected, actual),
    {
        let mut v: Vec<TypeIssue> = Vec::new();
        let c = self.check_coercion(reg, expected, actual);
        if c != Coercion::Accepted {
            v.push(TypeIssue::Coercion(c));
        }
        proof {
            if c == Coercion::Accepted {
                assert(v@ =~= Seq::<TypeIssue>::empty());
            } else {
                assert(v@ =~= seq![TypeIssue::Coercion(c)]);
            }
        }
        v
    }

    fn is_pointer_kind(&self, reg: &TypeRegistry, ty: TypeId) -> (r: bool)
        requires
            reg.contains(ty),
        ensures
            r == is_pointer_shape(reg@[ty.0 as int]),
    {
        match reg.get(ty) {
            TypeKind::Pointer(_) | TypeKind::VolatilePtr(_) => true,
            _ => false,
        }
    }

    /// The typing of a binary operator applied to operands of types `lhs`
    /// and `rhs`: the type of the result and the issues to report.
    pub fn check_binary_types(&self, reg: &TypeRegistry, op: BinaryOperator, lhs: TypeId, rhs: TypeId) -> (r: (TypeId, Vec<TypeIssue>))
        requires
            reg.wf(),
            reg.contains(lhs),
            reg.contains(rhs),
        ensures
            (r.0, r.1@) == binary_typing(reg, op, lhs, rhs),
    {
        let l = self.strip_mut(reg, lhs);
        let r = self.strip_mut(reg, rhs);
        if l == TypeId::error() || r == TypeId::error() {
            return (TypeId::error(), Vec::new());
        }
        let bool_ty = TypeId::primitive(PrimitiveType::Bool);
        match op {
            BinaryOperator::Add | BinaryOperator::Subtract | BinaryOperator::Multiply
            | BinaryOperator::Divide | BinaryOperator::Modulo => {
                if self.is_pointer_kind(reg, l) || self.is_pointer_kind(reg, r) {
                    return (TypeId::error(), vec![TypeIssue::PointerArithmetic]);
                }
                let issues = self.coercion_issue(reg, l, r);
                if issues.len() > 0 {
                    return (TypeId::error(), issues);
                }
                (l, issues)
            },
            BinaryOperator::Equal | BinaryOperator::NotEqual | BinaryOperator::LessThan
            | BinaryOperator::GreaterThan | BinaryOperator::LessOrEqual
            | BinaryOperator::GreaterOrEqual => {
                let issues = self.coercion_issue(reg, l, r);
                if issues.len() > 0 {
                    return (TypeId::error(), issues);
                }
                (bool_ty, issues)
            },
            BinaryOperator::LogicalAnd | BinaryOperator::LogicalOr => {
                let mut issues = self.coercion_issue(reg, bool_ty, l);
                let mut more = self.coercion_issue(reg, bool_ty, r);
                issues.append(&mut more);
                (bool_ty, issues)
            },
            _ => {
                let mut issues: Vec<TypeIssue> = Vec::new();
                if !reg.is_integer(l) {
                    issues.push(TypeIssue::BitwiseNeedsIntegers);
                }
                let ghost first = issues@;
                let mut c = self.coercion_issue(reg, l, r);
                let refused = c.len() > 0;
                issues.append(&mut c);
                proof {
                    if !reg.spec_is_integer(l) {
                        assert(first =~= seq![TypeIssue::BitwiseNeedsIntegers]);
                    } else {
                        assert(first =~= Seq::<TypeIssue>::empty());
                    }
                }
                if refused {
                    (TypeId::error(), issues)
                } else {
                    assert(issues@ =~= first);
                    (l, issues)
                }
            },
        }
    }

    /// The type a unary operator's operand is checked against, given the
    /// type expected of the whole expression.
    pub fn unary_operand_expected(&self, reg: &TypeRegistry, op: UnaryOperator, expected: Option<TypeId>) -> (r: Option<TypeId>)
        requires
            reg.wf(),
            expected matches Some(e) ==> reg.contains(e),
        ensures
            r == unary_operand_expectation(reg, op, expected),
    {
        match op {
            UnaryOperator::Negate | UnaryOperator::BitwiseNot => expected,
            UnaryOperator::AddressOf => match expected {
                Some(e) => {
                    let n = self.strip_mut(reg, e);
                    match reg.get(n) {
                        TypeKind::Pointer(inner) | TypeKind::VolatilePtr(inner) => Some(*inner),
                        _ => None,
                    }
                },
                None => None,
            },
            _ => None,
        }
    }

    /// The typing of a unary operator applied to an operand of type
    /// `operand`; `&` looks up or adds the pointer type in `reg`.
    pub fn check_unary_types(&self, reg: &mut TypeRegistry, op: UnaryOperator, operand: TypeId) -> (r: (TypeId, Vec<TypeIssue>))
        requires
            old(reg).wf(),
            old(reg).contains(operand),
            old(reg)@.len() < u32::MAX,
        ensures
            final(reg).wf(),
            final(reg)@ == unary_registry(old(reg)@, op, operand),
            (r.0, r.1@) == unary_typing(&*old(reg), old(reg)@, op, operand),
            final(reg).contains(r.0),
    {
        if operand == TypeId::error() {
            return (TypeId::error(), Vec::new());
        }
        proof {
            lemma_base_type(&*reg, operand);
        }
        match op {
            UnaryOperator::AddressOf => {
                let p = reg.intern(TypeKind::Pointer(operand));
                (p, Vec::new())
            },
            UnaryOperator::PointerDeRef => {
                let b = self.strip_mut(reg, operand);
                proof {
                    assert(refs_below(reg@[b.0 as int], b.0 as nat));
                }
                match reg.get(b) {
                    TypeKind::Pointer(inner) | TypeKind::VolatilePtr(inner) => (*inner, Vec::new()),
                    _ => (TypeId::error(), vec![TypeIssue::DerefNonPointer]),
                }
            },
            UnaryOperator::LengthOf => {
                let b = self.strip_mut(reg, operand);
                match reg.get(b) {
                    TypeKind::Array { .. } | TypeKind::Slice(_) => (
                        TypeId::primitive(PrimitiveType::USize),
                        Vec::new(),
                    ),
                    _ => (TypeId::error(), vec![TypeIssue::LengthOfNonArray]),
                }
            },
            UnaryOperator::Negate => {
                let b = self.strip_mut(reg, operand);
                if !reg.is_integer(b) && !reg.is_float(b) {
                    (operand, vec![TypeIssue::NegateNonNumeric])
                } else {
                    (operand, Vec::new())
                }
            },
            UnaryOperator::LogicalNot => {
                let issues = self.coercion_issue(reg, TypeId::primitive(PrimitiveType::Bool), operand);
                (TypeId::primitive(PrimitiveType::Bool), issues)
            },
            UnaryOperator::BitwiseNot => {
                let b = self.strip_mut(reg, operand);
                if !reg.is_integer(b) {
                    (operand, vec![TypeIssue::BitwiseNotNonInteger])
                } else {
                    (operand, Vec::new())
                }
            },
        }
    }

    /// The judgement of the cast `from as to`.
    pub fn check_cast(&self, reg: &TypeRegistry, from: TypeId, to: TypeId) -> (r: CastCheck)
        requires
            reg.wf(),
            reg.contains(from),
            reg.contains(to),
        ensures
            r == cast_check(reg, from, to),
    {
        if from == to || from == TypeId::error() || to == TypeId::error() {
            return CastCheck::Allowed;
        }
        let f = self.strip_mut(reg, from);
        let t = self.strip_mut(reg, to);
        match reg.get(t) {
            TypeKind::TraitObject(d, _) => {
                if self.is_mut_type(reg, to) && !self.is_mutable_pointer(reg, from) {
                    return CastCheck::ReadOnlyToMutableTraitObject;
                }
                let from_ptr = self.is_pointer_kind(reg, f);
                let from_obj = match reg.get(f) {
                    TypeKind::TraitObject(..) => true,
                    _ => false,
                };
                if !from_ptr && !from_obj {
                    return CastCheck::NotPointerToTraitObject;
                }
                return CastCheck::NeedsTraitImpl(*d);
            },
            _ => {},
        }
        let fi = reg.is_integer(f);
        let ti = reg.is_integer(t);
        let fp = self.is_pointer_kind(reg, f);
        let tp = self.is_pointer_kind(reg, t);
        let fs = match reg.get(f) {
            TypeKind::Slice(_) => true,
            _ => false,
        };
        if fs && tp {
            return CastCheck::Allowed;
        }
        if (fi && ti) || (fp && tp) || (fi && tp) || (fp && ti) {
            return CastCheck::Allowed;
        }
        CastCheck::Invalid
    }

    /// The type reached from `ty` through aliases, `mut` and pointers, and
    /// whether the place reached may be written.
    pub fn get_base_type_and_mut(&self, reg: &TypeRegistry, ty: TypeId) -> (r: (TypeId, bool))
        requires
            reg.wf(),
            reg.contains(ty),
        ensures
            r == base_and_mut(reg, ty, false),
            reg.contains(r.0),
    {
        let mut base_ty = ty;
        let mut is_target_mut = false;
        loop
            invariant
                reg.wf(),
                reg.contains(base_ty),
                base_and_mut(reg, base_ty, is_target_mut) == base_and_mut(reg, ty, false),
            decreases base_ty.0,
        {
            proof {
                reg.lemma_normalize(base_ty);
            }
            let norm = reg.normalize(base_ty);
            proof {
                assert(refs_below(reg@[norm.0 as int], norm.0 as nat));
            }
            match reg.get(norm) {
                TypeKind::Mut(inner) => {
                    is_target_mut = true;
                    base_ty = *inner;
                },
                TypeKind::Pointer(inner) | TypeKind::VolatilePtr(inner) => {
                    is_target_mut = false;
                    base_ty = *inner;
                },
                _ => {
                    return (norm, is_target_mut);
                },
            }
        }
    }

    /// The typing of `lhs[index]` for a target of type `lhs` and an index
    /// of type `index`; a `mut` element type may be added to `reg`.
    pub fn check_index_types(&self, reg: &mut TypeRegistry, lhs: TypeId, index: TypeId) -> (r: (TypeId, Vec<TypeIssue>))
        requires
            old(reg).wf(),
            old(reg).contains(lhs),
            old(reg).contains(index),
            old(reg)@.len() < u32::MAX,
        ensures
            final(reg).wf(),
            final(reg)@ == index_registry(&*old(reg), old(reg)@, lhs),
            (r.0, r.1@) == index_typing(&*old(reg), old(reg)@, lhs, index),
            final(reg).contains(r.0),
    {
        let ghost r0 = *reg;
        let ib = self.strip_mut(reg, index);
        let mut issues: Vec<TypeIssue> = Vec::new();
        if !reg.is_integer(ib) && ib != TypeId::error() {
            issues.push(TypeIssue::IndexNotInteger);
        }
        let n = self.strip_mut(reg, lhs);
        proof {
            assert(refs_below(reg@[n.0 as int], n.0 as nat));
        }
        let elem = match reg.get(n) {
            TypeKind::Array { elem, .. } | TypeKind::Slice(elem) => Some(*elem),
            TypeKind::Error => None,
            _ => {
                issues.push(TypeIssue::IndexNonArray);
                None
            },
        };
        match elem {
            Some(e) => {
                if self.is_mut_type(reg, lhs) {
                    let m = reg.intern(TypeKind::Mut(e));
                    (m, issues)
                } else {
                    (e, issues)
                }
            },
            None => (TypeId::error(), issues),
        }
    }

    fn bound_issue(&self, reg: &TypeRegistry, bound: Option<TypeId>, issue: TypeIssue) -> (r: Vec<TypeIssue>)
        requires
            reg.wf(),
            bound matches Some(b) ==> reg.contains(b),
        ensures
            r@ == bound_issues(reg, bound, issue),
    {
        let mut v: Vec<TypeIssue> = Vec::new();
        match bound {
            Some(b) => {
                let bb = self.strip_mut(reg, b);
                if !reg.is_integer(bb) {
                    v.push(issue);
                    assert(v@ =~= seq![issue]);
                }
            },
            None => {},
        }
        assert(v@ =~= bound_issues(reg, bound, issue));
        v
    }

    /// The typing of the slice `lhs.[start..end]`: the slice type (added
    /// to `reg` where new) and the issues found.
    pub fn check_slice_types(
        &self,
        reg: &mut TypeRegistry,
        lhs: TypeId,
        start: Option<TypeId>,
        end: Option<TypeId>,
    ) -> (r: (TypeId, Vec<TypeIssue>))
        requires
            old(reg).wf(),
            old(reg).contains(lhs),
            start matches Some(s) ==> old(reg).contains(s),
            end matches Some(e) ==> old(reg).contains(e),
            old(reg)@.len() + 1 < u32::MAX,
        ensures
            final(reg).wf(),
            (final(reg)@, r.0, r.1@) == slice_typing(&*old(reg), old(reg)@, lhs, start, end),
            final(reg).contains(r.0),
    {
        let mut issues = self.bound_issue(reg, start, TypeIssue::SliceStartNotInteger);
        let mut more = self.bound_issue(reg, end, TypeIssue::SliceEndNotInteger);
        issues.append(&mut more);
        let n = self.strip_mut(reg, lhs);
        proof {
            assert(refs_below(reg@[n.0 as int], n.0 as nat));
        }
        let elem = match reg.get(n) {
            TypeKind::Array { elem, .. } | TypeKind::Slice(elem) => Some(*elem),
            TypeKind::Error => None,
            _ => {
                issues.push(TypeIssue::SliceNonArray);
                None
            },
        };
        match elem {
            Some(e) => {
                let se = if self.is_mut_type(reg, lhs) {
                    reg.intern(TypeKind::Mut(e))
                } else {
                    e
                };
                let s = reg.intern(TypeKind::Slice(se));
                (s, issues)
            },
            None => (TypeId::error(), issues),
        }
    }

    /// The typing of an assignment of a value of type `rhs` to a place of
    /// type `lhs`.
    pub fn check_assign_types(&self, reg: &TypeRegistry, lhs: TypeId, rhs: TypeId) -> (r: (TypeId, Vec<TypeIssue>))
        requires
            reg.wf(),
            reg.contains(lhs),
            reg.contains(rhs),
        ensures
            (r.0, r.1@) == assign_typing(reg, lhs, rhs),
    {
        let mut issues: Vec<TypeIssue> = Vec::new();
        if !self.is_mut_type(reg, lhs) && lhs != TypeId::error() {
            issues.push(TypeIssue::AssignToImmutable);
        }
        let ghost first = issues@;
        if lhs == TypeId::error() || rhs == TypeId::error() {
            return (TypeId::error(), issues);
        }
        let l = self.strip_mut(reg, lhs);
        let r = self.strip_mut(reg, rhs);
        let mut c = self.coercion_issue(reg, l, r);
        issues.append(&mut c);
        (TypeId::primitive(PrimitiveType::Void), issues)
    }

    /// The type of `undef`: the type expected of it, which must be known.
    pub fn check_undef(&self, expected_ty: Option<TypeId>) -> (r: Result<TypeId, TypeIssue>)
        ensures
            r == match expected_ty {
                Some(t) => Ok::<TypeId, TypeIssue>(t),
                None => Err(TypeIssue::UndefWithoutType),
            },
    {
        match expected_ty {
            Some(t) => Ok(t),
            None => Err(TypeIssue::UndefWithoutType),
        }
    }

    /// Record a `return` with a value of type `value`, or without one, and
    /// give the issues to report.
    pub fn check_return_types(&mut self, reg: &TypeRegistry, value: Option<TypeId>) -> (r: Vec<TypeIssue>)
        requires
            reg.wf(),
            old(self).current_return_type matches Some(t) ==> reg.contains(t),
            value matches Some(v) ==> reg.contains(v),
        ensures
            final(self).has_returned,
            final(self).current_return_type == old(self).current_return_type,
            r@ == return_issues(reg, old(self).current_return_type, value),
    {
        self.has_returned = true;
        let expected = match self.current_return_type {
            Some(t) => t,
            None => TypeId::primitive(PrimitiveType::Void),
        };
        match value {
            Some(v) => self.coercion_issue(reg, expected, v),
            None => {
                let mut issues: Vec<TypeIssue> = Vec::new();
                if expected != TypeId::primitive(PrimitiveType::Void) && expected != TypeId::error() {
                    issues.push(TypeIssue::MissingReturnValue);
                }
                assert(issues@ =~= return_issues(reg, old(self).current_return_type, value));
                issues
            },
        }
    }
}

/// The arity issue of a call with `args` arguments of a function with
/// `params` parameters (the receiver of a method counted among them).
pub open spec fn arity_issue(args: usize, params: usize, is_method: bool, is_variadic: bool) -> Option<TypeIssue> {
    let expected: usize = if is_method {
        if params >= 1 {
            (params - 1) as usize
        } else {
            0
        }
    } else {
        params
    };
    if is_variadic {
        if args < expected {
            Some(TypeIssue::TooFewVariadicArguments { expected, provided: args })
        } else {
            None
        }
    } else if args != expected {
        Some(TypeIssue::WrongArgumentCount { expected, provided: args })
    } else {
        None
    }
}

/// The issue of an argument of type `arg` passed to `...`: C promotes small
/// integers to 32 bits and `f32` to `f64`, so those must be cast first.
pub open spec fn variadic_issue(reg: &TypeRegistry, arg: TypeId) -> Option<TypeIssue> {
    let b = base_type(reg, arg);
    if b == TypeId::spec_error() {
        None
    } else if b == TypeId::spec_primitive(PrimitiveType::I8) || b == TypeId::spec_primitive(
        PrimitiveType::I16,
    ) || b == TypeId::spec_primitive(PrimitiveType::U8) || b == TypeId::spec_primitive(
        PrimitiveType::U16,
    ) {
        Some(TypeIssue::VariadicSmallInteger)
    } else if b == TypeId::spec_primitive(PrimitiveType::F32) {
        Some(TypeIssue::VariadicF32)
    } else {
        None
    }
}

/// The issues of passing a receiver of type `receiver` where a method
/// wants `expected`: a refused coercion, and the pointer hint where the
/// method wants a pointer.
pub open spec fn receiver_issues(reg: &TypeRegistry, expected: TypeId, receiver: TypeId) -> Seq<TypeIssue> {
    let c = coercion_issues(reg, expected, receiver);
    if c.len() > 0 && is_pointer_shape(reg@[base_type(reg, expected).0 as int]) {
        c.push(TypeIssue::ReceiverNeedsPointer)
    } else {
        c
    }
}

/// The pattern is the enum literal `.n`.
pub open spec fn names_literal(p: SwitchPattern, n: SymbolId) -> bool {
    match p {
        SwitchPattern::Value(e) => e.kind == ExprKind::EnumLiteral(n),
        _ => false,
    }
}

/// The names that the case patterns of a switch spell as enum literals.
pub open spec fn pattern_names(cases: Seq<SwitchCase>) -> Set<SymbolId> {
    Set::new(
        |n: SymbolId|
            exists|i: int, j: int|
                0 <= i < cases.len() && 0 <= j < cases[i].patterns@.len() && #[trigger] names_literal(cases[i].patterns@[j], n),
    )
}

impl ExprChecker {
    /// Check the number of arguments of a call.
    pub fn check_call_arity(&self, arg_count: usize, param_count: usize, is_method: bool, is_variadic: bool) -> (r: Option<TypeIssue>)
        ensures
            r == arity_issue(arg_count, param_count, is_method, is_variadic),
    {
        let expected = if is_method {
            param_count.saturating_sub(1)
        } else {
            param_count
        };
        if is_variadic {
            if arg_count < expected {
                return Some(TypeIssue::TooFewVariadicArguments { expected, provided: arg_count });
            }
            None
        } else {
            if arg_count != expected {
                return Some(TypeIssue::WrongArgumentCount { expected, provided: arg_count });
            }
            None
        }
    }

    /// Check an argument of type `arg` passed to the `...` of a variadic
    /// function.
    pub fn check_variadic_argument(&self, reg: &TypeRegistry, arg: TypeId) -> (r: Option<TypeIssue>)
        requires
            reg.wf(),
            reg.contains(arg),
        ensures
            r == variadic_issue(reg, arg),
    {
        let b = self.strip_mut(reg, arg);
        if b == TypeId::error() {
            return None;
        }
        if b == TypeId::primitive(PrimitiveType::I8) || b == TypeId::primitive(PrimitiveType::I16)
            || b == TypeId::primitive(PrimitiveType::U8) || b == TypeId::primitive(PrimitiveType::U16) {
            Some(TypeIssue::VariadicSmallInteger)
        } else if b == TypeId::primitive(PrimitiveType::F32) {
            Some(TypeIssue::VariadicF32)
        } else {
            None
        }
    }

    /// Check the receiver of a method call.
    pub fn check_method_receiver(&self, reg: &TypeRegistry, expected_self: TypeId, receiver_ty: TypeId) -> (r: Vec<TypeIssue>)
        requires
            reg.wf(),
            reg.contains(expected_self),
            reg.contains(receiver_ty),
        ensures
            r@ == receiver_issues(reg, expected_self, receiver_ty),
    {
        let mut issues = self.coercion_issue(reg, expected_self, receiver_ty);
        if issues.len() > 0 {
            let n = self.strip_mut(reg, expected_self);
            if self.is_pointer_kind(reg, n) {
                issues.push(TypeIssue::ReceiverNeedsPointer);
            }
        }
        issues
    }

    /// The variants of an enum that no case of a switch without `else`
    /// names, in the order they are declared.
    pub fn unhandled_variants(&self, variants: &Vec<SymbolId>, cases: &Vec<SwitchCase>) -> (r: Vec<SymbolId>)
        ensures
            r@ == variants@.filter(|n: SymbolId| !pattern_names(cases@).contains(n)),
    {
        let mut out: Vec<SymbolId> = Vec::new();
        let mut i: usize = 0;
        while i < variants.len()
            invariant
                0 <= i <= variants.len(),
                out@ == variants@.take(i as int).filter(|n: SymbolId| !pattern_names(cases@).contains(n)),
            decreases variants.len() - i,
        {
            let name = variants[i];
            let named = self.named_in_cases(cases, name);
            proof {
                assert(variants@.take(i + 1).drop_last() =~= variants@.take(i as int));
                reveal(Seq::filter);
            }
            if !named {
                out.push(name);
            }
            i = i + 1;
        }
        proof {
            assert(variants@.take(variants@.len() as int) =~= variants@);
        }
        out
    }

    /// Some case pattern of the switch is the enum literal `name`.
    fn named_in_cases(&self, cases: &Vec<SwitchCase>, name: SymbolId) -> (r: bool)
        ensures
            r == pattern_names(cases@).contains(name),
    {
        let mut i: usize = 0;
        while i < cases.len()
            invariant
                0 <= i <= cases.len(),
                forall|a: int, b: int|
                    0 <= a < i && 0 <= b < cases@[a].patterns@.len() ==> !names_literal(
                        #[trigger] cases@[a].patterns@[b],
                        name,
                    ),
            decreases cases.len() - i,
        {
            let pats = &cases[i].patterns;
            let mut j: usize = 0;
            while j < pats.len()
                invariant
                    0 <= i < cases.len(),
                    pats@ == cases@[i as int].patterns@,
                    0 <= j <= pats.len(),
                    forall|b: int| 0 <= b < j ==> !names_literal(#[trigger] pats@[b], name),
                    forall|a: int, b: int|
                        0 <= a < i && 0 <= b < cases@[a].patterns@.len() ==> !names_literal(
                            #[trigger] cases@[a].patterns@[b],
                            name,
                        ),
                decreases pats.len() - j,
            {
                match &pats[j] {
                    SwitchPattern::Value(e) => match &e.kind {
                        ExprKind::EnumLiteral(n) => {
                            if *n == name {
                                proof {
                                    assert(cases@[i as int].patterns@[j as int] == pats@[j as int]);
                                    assert(names_literal(cases@[i as int].patterns@[j as int], name));
                                }
                                return true;
                            }
                        },
                        _ => {},
                    },
                    _ => {},
                }
                j = j + 1;
            }
            i = i + 1;
        }
        false
    }
}

/// The issues of the elements of an array literal, of types `elems`,
/// against the element type `elem`, in order.
pub open spec fn element_issues(reg: &TypeRegistry, elem: TypeId, elems: Seq<TypeId>) -> Seq<TypeIssue>
    decreases elems.len(),
{
    if elems.len() == 0 {
        Seq::empty()
    } else {
        element_issues(reg, elem, elems.drop_last()) + coercion_issues(reg, elem, elems.last())
    }
}

/// The type of an array literal `.{ e1, e2, ... }` whose elements have the
/// types `elems`, where `expected` is wanted: the expected type, which
/// must be an array of as many elements, each coercing to its element
/// type.
pub open spec fn array_literal_typing(reg: &TypeRegistry, expected: TypeId, elems: Seq<TypeId>) -> (TypeId, Seq<TypeIssue>) {
    match reg@[base_type(reg, expected).0 as int] {
        TypeShape::Array { elem, len } => (
            expected,
            (if elems.len() != len {
                seq![TypeIssue::ArrayLengthMismatch { found: elems.len() as u64, expected: len }]
            } else {
                Seq::empty()
            }) + element_issues(reg, elem, elems),
        ),
        _ => (TypeId::spec_error(), seq![TypeIssue::ArrayLiteralNeedsArrayType]),
    }
}

/// The type of a repeat literal `.{ v; n }` with a value of type `value`
/// and a count of type `count`, where `expected` is wanted.
pub open spec fn repeat_literal_typing(reg: &TypeRegistry, expected: TypeId, value: TypeId, count: TypeId) -> (TypeId, Seq<TypeIssue>) {
    match reg@[base_type(reg, expected).0 as int] {
        TypeShape::Array { elem, .. } => (
            expected,
            coercion_issues(reg, elem, value) + if !reg.spec_is_integer(base_type(reg, count)) {
                seq![TypeIssue::RepeatCountNotInteger]
            } else {
                Seq::empty()
            },
        ),
        _ => (TypeId::spec_error(), seq![TypeIssue::RepeatLiteralNeedsArrayType]),
    }
}

/// The type the elements of an array or repeat literal are checked
/// against, where `expected` is wanted of the literal.
pub open spec fn literal_element_expectation(reg: &TypeRegistry, expected: TypeId) -> Option<TypeId> {
    match reg@[base_type(reg, expected).0 as int] {
        TypeShape::Array { elem, .. } => Some(elem),
        _ => None,
    }
}

impl ExprChecker {
    /// The element type that the elements of an array or repeat literal
    /// are checked against.
    pub fn literal_element_type(&self, reg: &TypeRegistry, expected: TypeId) -> (r: Option<TypeId>)
        requires
            reg.wf(),
            reg.contains(expected),
        ensures
            r == literal_element_expectation(reg, expected),
            r matches Some(e) ==> reg.contains(e),
    {
        let n = self.strip_mut(reg, expected);
        proof {
            assert(refs_below(reg@[n.0 as int], n.0 as nat));
        }
        match reg.get(n) {
            TypeKind::Array { elem, .. } => Some(*elem),
            _ => None,
        }
    }

    /// The typing of an array literal whose elements have the types
    /// `elems`, where `expected` is wanted.
    pub fn check_array_literal_types(&self, reg: &TypeRegistry, expected: TypeId, elems: &Vec<TypeId>) -> (r: (TypeId, Vec<TypeIssue>))
        requires
            reg.wf(),
            reg.contains(expected),
            forall|i: int| 0 <= i < elems@.len() ==> reg.contains(#[trigger] elems@[i]),
        ensures
            (r.0, r.1@) == array_literal_typing(reg, expected, elems@),
    {
        let n = self.strip_mut(reg, expected);
        proof {
            assert(refs_below(reg@[n.0 as int], n.0 as nat));
        }
        let (elem, len) = match reg.get(n) {
            TypeKind::Array { elem, len } => (*elem, *len),
            _ => {
                return (TypeId::error(), vec![TypeIssue::ArrayLiteralNeedsArrayType]);
            },
        };
        let mut issues: Vec<TypeIssue> = Vec::new();
        let found = elems.len() as u64;
        if found != len {
            issues.push(TypeIssue::ArrayLengthMismatch { found, expected: len });
        }
        let ghost first = issues@;
        let mut i: usize = 0;
        assert(elems@.take(0) =~= Seq::<TypeId>::empty());
        assert(issues@ =~= first + element_issues(reg, elem, elems@.take(0)));
        while i < elems.len()
            invariant
                reg.wf(),
                reg.contains(elem),
                forall|k: int| 0 <= k < elems@.len() ==> reg.contains(#[trigger] elems@[k]),
                0 <= i <= elems.len(),
                issues@ == first + element_issues(reg, elem, elems@.take(i as int)),
            decreases elems.len() - i,
        {
            let ghost before = issues@;
            let mut c = self.coercion_issue(reg, elem, elems[i]);
            issues.append(&mut c);
            proof {
                assert(elems@.take(i + 1).drop_last() =~= elems@.take(i as int));
                assert(elems@.take(i + 1).last() == elems@[i as int]);
                assert(issues@ =~= first + element_issues(reg, elem, elems@.take(i + 1)));
            }
            i = i + 1;
        }
        proof {
            assert(elems@.take(elems@.len() as int) =~= elems@);
        }
        (expected, issues)
    }

    /// The typing of a repeat literal with a value of type `value` and a
    /// count of type `count`, where `expected` is wanted.
    pub fn check_repeat_literal_types(&self, reg: &TypeRegistry, expected: TypeId, value: TypeId, count: TypeId) -> (r: (TypeId, Vec<TypeIssue>))
        requires
            reg.wf(),
            reg.contains(expected),
            reg.contains(value),
            reg.contains(count),
        ensures
            (r.0, r.1@) == repeat_literal_typing(reg, expected, value, count),
    {
        match self.literal_element_type(reg, expected) {
            Some(elem) => {
                let mut issues = self.coercion_issue(reg, elem, value);
                let c = self.strip_mut(reg, count);
                let ghost first = issues@;
                if !reg.is_integer(c) {
                    issues.push(TypeIssue::RepeatCountNotInteger);
                }
                proof {
                    if !reg.spec_is_integer(c) {
                        assert(issues@ =~= first + seq![TypeIssue::RepeatCountNotInteger]);
                    } else {
                        assert(issues@ =~= first + Seq::<TypeIssue>::empty());
                    }
                }
                (expected, issues)
            },
            None => (TypeId::error(), vec![TypeIssue::RepeatLiteralNeedsArrayType]),
        }
    }
}

/// The types of the two kinds of switch pattern: a value, or a range from
/// `start` to `end`.
#[derive(Debug, Clone, Copy, PartialEq, Eq, Structural)]
pub enum PatternTypes {
    Value(TypeId),
    Range(TypeId, TypeId),
}

/// The issues of an `if` whose condition, branches have these types, and
/// its type: the condition must be `bool`, the `else` branch must coerce
/// to the `then` branch, whose type is the type of the whole; without
/// `else` the type is `void`.
pub open spec fn if_typing(reg: &TypeRegistry, cond: TypeId, then_ty: TypeId, else_ty: Option<TypeId>) -> (TypeId, Seq<TypeIssue>) {
    match else_ty {
        Some(e) => (then_ty, coercion_issues(reg, bool_type(), cond) + coercion_issues(reg, then_ty, e)),
        None => (TypeId::spec_primitive(PrimitiveType::Void), coercion_issues(reg, bool_type(), cond)),
    }
}

/// The issues of the patterns of one switch case against the type of the
/// switch target: every value and both ends of every range must coerce
/// to it.
pub open spec fn pattern_issues(reg: &TypeRegistry, target: TypeId, pats: Seq<PatternTypes>) -> Seq<TypeIssue>
    decreases pats.len(),
{
    if pats.len() == 0 {
        Seq::empty()
    } else {
        pattern_issues(reg, target, pats.drop_last()) + match pats.last() {
            PatternTypes::Value(v) => coercion_issues(reg, target, v),
            PatternTypes::Range(a, b) => coercion_issues(reg, target, a) + coercion_issues(
                reg,
                target,
                b,
            ),
        }
    }
}

/// One arm of a switch: the first arm's body type becomes the type of the
/// switch where none was expected; later arms must coerce to it.
pub open spec fn arm_step(reg: &TypeRegistry, common: Option<TypeId>, body: TypeId) -> (Option<TypeId>, Seq<TypeIssue>) {
    match common {
        None => (Some(body), Seq::empty()),
        Some(c) => (Some(c), coercion_issues(reg, c, body)),
    }
}

impl ExprChecker {
    /// The typing of an `if` from the types of its condition and branches.
    pub fn check_if_types(&self, reg: &TypeRegistry, cond: TypeId, then_ty: TypeId, else_ty: Option<TypeId>) -> (r: (TypeId, Vec<TypeIssue>))
        requires
            reg.wf(),
            reg.contains(cond),
            reg.contains(then_ty),
            else_ty matches Some(e) ==> reg.contains(e),
        ensures
            (r.0, r.1@) == if_typing(reg, cond, then_ty, else_ty),
    {
        let mut issues = self.coercion_issue(reg, TypeId::primitive(PrimitiveType::Bool), cond);
        match else_ty {
            Some(e) => {
                let mut more = self.coercion_issue(reg, then_ty, e);
                issues.append(&mut more);
                (then_ty, issues)
            },
            None => (TypeId::primitive(PrimitiveType::Void), issues),
        }
    }

    /// The issues of the condition of a `for`, which must be `bool`; the
    /// loop has type `void`.
    pub fn check_for_condition(&self, reg: &TypeRegistry, cond: Option<TypeId>) -> (r: Vec<TypeIssue>)
        requires
            reg.wf(),
            cond matches Some(c) ==> reg.contains(c),
        ensures
            r@ == match cond {
                Some(c) => coercion_issues(reg, bool_type(), c),
                None => Seq::empty(),
            },
    {
        match cond {
            Some(c) => self.coercion_issue(reg, TypeId::primitive(PrimitiveType::Bool), c),
            None => Vec::new(),
        }
    }

    /// The issues of the patterns of one switch case.
    pub fn check_switch_patterns(&self, reg: &TypeRegistry, target: TypeId, pats: &Vec<PatternTypes>) -> (r: Vec<TypeIssue>)
        requires
            reg.wf(),
            reg.contains(target),
            forall|i: int| 0 <= i < pats@.len() ==> match #[trigger] pats@[i] {
                PatternTypes::Value(v) => reg.contains(v),
                PatternTypes::Range(a, b) => reg.contains(a) && reg.contains(b),
            },
        ensures
            r@ == pattern_issues(reg, target, pats@),
    {
        let mut issues: Vec<TypeIssue> = Vec::new();
        let mut i: usize = 0;
        assert(pats@.take(0) =~= Seq::<PatternTypes>::empty());
        while i < pats.len()
            invariant
                reg.wf(),
                reg.contains(target),
                forall|k: int| 0 <= k < pats@.len() ==> match #[trigger] pats@[k] {
                    PatternTypes::Value(v) => reg.contains(v),
                    PatternTypes::Range(a, b) => reg.contains(a) && reg.contains(b),
                },
                0 <= i <= pats.len(),
                issues@ == pattern_issues(reg, target, pats@.take(i as int)),
            decreases pats.len() - i,
        {
            let ghost before = issues@;
            let p = pats[i];
            assert(match pats@[i as int] {
                PatternTypes::Value(v) => reg.contains(v),
                PatternTypes::Range(a, b) => reg.contains(a) && reg.contains(b),
            });
            match p {
                PatternTypes::Value(v) => {
                    let mut c = self.coercion_issue(reg, target, v);
                    issues.append(&mut c);
                },
                PatternTypes::Range(a, b) => {
                    let mut c1 = self.coercion_issue(reg, target, a);
                    let mut c2 = self.coercion_issue(reg, target, b);
                    issues.append(&mut c1);
                    issues.append(&mut c2);
                },
            }
            proof {
                assert(pats@.take(i + 1).drop_last() =~= pats@.take(i as int));
                assert(pats@.take(i + 1).last() == pats@[i as int]);
                assert(issues@ =~= pattern_issues(reg, target, pats@.take(i + 1)));
            }
            i = i + 1;
        }
        proof {
            assert(pats@.take(pats@.len() as int) =~= pats@);
        }
        issues
    }

    /// One arm of a switch (a case body, or the `else` body), given the
    /// type of the switch so far; gives the type afterwards and the issues.
    /// A switch with no type after all its arms has type `void`.
    pub fn check_switch_arm(&self, reg: &TypeRegistry, common: Option<TypeId>, body: TypeId) -> (r: (Option<TypeId>, Vec<TypeIssue>))
        requires
            reg.wf(),
            reg.contains(body),
            common matches Some(c) ==> reg.contains(c),
        ensures
            (r.0, r.1@) == arm_step(reg, common, body),
    {
        match common {
            None => {
                let v: Vec<TypeIssue> = Vec::new();
                assert(v@ =~= Seq::<TypeIssue>::empty());
                (Some(body), v)
            },
            Some(c) => (Some(c), self.coercion_issue(reg, c, body)),
        }
    }
}

/// A call passes the arity check exactly when it supplies the parameters:
/// a variadic function takes any number of arguments from its fixed
/// parameters on (so exactly as many is fine), any other function exactly
/// its parameters; a method's receiver is not counted among the
/// arguments. A refused call's issue names the number of parameters
/// wanted and the number of arguments given.
pub proof fn law_call_arity(args: usize, params: usize, is_method: bool, is_variadic: bool)
    ensures
        ({
            let wanted: int = if is_method && params >= 1 {
                params - 1
            } else if is_method {
                0
            } else {
                params as int
            };
            let issue = arity_issue(args, params, is_method, is_variadic);
            &&& is_variadic ==> (issue is None <==> args >= wanted)
            &&& !is_variadic ==> (issue is None <==> args == wanted)
            &&& is_variadic && args < wanted ==> issue == Some(
                TypeIssue::TooFewVariadicArguments { expected: wanted as usize, provided: args },
            )
            &&& !is_variadic && args != wanted ==> issue == Some(
                TypeIssue::WrongArgumentCount { expected: wanted as usize, provided: args },
            )
        }),
        params < usize::MAX ==> arity_issue(args, (params + 1) as usize, true, is_variadic) == arity_issue(
            args,
            params,
            false,
            is_variadic,
        ),
{
}

/// Operators on two operands of one type `t` (not a pointer, not the error
/// type): `+ - * / %` give `t`; `== != < > <= >=` give `bool`; `and`/`or`
/// give `bool` and accept `bool` operands; the bitwise operators and
/// shifts give `t` for an integer type and are refused for any other.
/// With a pointer operand, `+ - * / %` are refused as pointer arithmetic.
pub proof fn law_operator_result_types(reg: &TypeRegistry, op: BinaryOperator, t: TypeId, ptr: TypeId)
    requires
        reg.wf(),
        plain(reg, t),
        t != TypeId::spec_error(),
        !is_pointer_shape(reg@[t.0 as int]),
        plain(reg, ptr),
        reg@[ptr.0 as int] is Pointer,
    ensures
        (op == BinaryOperator::Add || op == BinaryOperator::Subtract || op == BinaryOperator::Multiply || op
            == BinaryOperator::Divide || op == BinaryOperator::Modulo) ==> binary_typing(reg, op, t, t) == (
            t,
            Seq::<TypeIssue>::empty(),
        ) && binary_typing(reg, op, ptr, t) == (TypeId::spec_error(), seq![TypeIssue::PointerArithmetic])
            && binary_typing(reg, op, t, ptr) == (TypeId::spec_error(), seq![TypeIssue::PointerArithmetic]),
        (op == BinaryOperator::Equal || op == BinaryOperator::NotEqual || op == BinaryOperator::LessThan || op
            == BinaryOperator::GreaterThan || op == BinaryOperator::LessOrEqual || op
            == BinaryOperator::GreaterOrEqual) ==> binary_typing(reg, op, t, t) == (
            TypeId::spec_primitive(PrimitiveType::Bool),
            Seq::<TypeIssue>::empty(),
        ),
        (op == BinaryOperator::LogicalAnd || op == BinaryOperator::LogicalOr) ==> binary_typing(reg, op, t, t).0
            == TypeId::spec_primitive(PrimitiveType::Bool),
        (op == BinaryOperator::LogicalAnd || op == BinaryOperator::LogicalOr) && t == TypeId::spec_primitive(
            PrimitiveType::Bool,
        ) ==> binary_typing(reg, op, t, t).1.len() == 0,
        (op == BinaryOperator::BitwiseAnd || op == BinaryOperator::BitwiseOr || op == BinaryOperator::BitwiseXor
            || op == BinaryOperator::ShiftLeft || op == BinaryOperator::ShiftRight) ==> binary_typing(
            reg,
            op,
            t,
            t,
        ) == if reg.spec_is_integer(t) {
            (t, Seq::<TypeIssue>::empty())
        } else {
            (t, seq![TypeIssue::BitwiseNeedsIntegers])
        },
{
    law_coercion_reflexive(reg, t, t);
    assert(reg.spec_normalize(t) == t);
    assert(reg.spec_normalize(ptr) == ptr);
    assert(reg@[17] == reserved_shape(17));
    assert(ptr != TypeId::spec_error());
    let b = TypeId::spec_primitive(PrimitiveType::Bool);
    if t == b {
        law_coercion_reflexive(reg, b, b);
    }
    assert(Seq::<TypeIssue>::empty() + Seq::<TypeIssue>::empty() =~= Seq::<TypeIssue>::empty());
    assert(seq![TypeIssue::BitwiseNeedsIntegers] + Seq::<TypeIssue>::empty() =~= seq![TypeIssue::BitwiseNeedsIntegers]);
}

/// Unary operators on a value of type `t` (neither the error type nor an
/// alias nor `mut`): `&` gives a pointer to `t`; `.*` on a pointer to `t`
/// gives `t` back, on anything else is refused; `#` gives `usize` for an
/// array or slice and is refused for anything else; `-` and `~` keep an
/// integer's type; `!` gives `bool` and accepts a `bool`.
pub proof fn law_unary_operator_types(reg: &TypeRegistry, t: TypeId, p: TypeId)
    requires
        reg.wf(),
        plain(reg, t),
        t != TypeId::spec_error(),
        plain(reg, p),
        reg@[p.0 as int] == TypeShape::Pointer(t),
    ensures
        ({
            let (s1, q) = interned(reg@, TypeShape::Pointer(t));
            &&& unary_typing(reg, reg@, UnaryOperator::AddressOf, t) == (q, Seq::<TypeIssue>::empty())
            &&& s1[q.0 as int] == TypeShape::Pointer(t)
        }),
        unary_typing(reg, reg@, UnaryOperator::PointerDeRef, p) == (t, Seq::<TypeIssue>::empty()),
        !(reg@[t.0 as int] is Pointer || reg@[t.0 as int] is VolatilePtr) ==> unary_typing(
            reg,
            reg@,
            UnaryOperator::PointerDeRef,
            t,
        ) == (TypeId::spec_error(), seq![TypeIssue::DerefNonPointer]),
        (reg@[t.0 as int] is Array || reg@[t.0 as int] is Slice) ==> unary_typing(
            reg,
            reg@,
            UnaryOperator::LengthOf,
            t,
        ) == (TypeId::spec_primitive(PrimitiveType::USize), Seq::<TypeIssue>::empty()),
        !(reg@[t.0 as int] is Array || reg@[t.0 as int] is Slice) ==> unary_typing(
            reg,
            reg@,
            UnaryOperator::LengthOf,
            t,
        ) == (TypeId::spec_error(), seq![TypeIssue::LengthOfNonArray]),
        (reg@[t.0 as int] matches TypeShape::Primitive(pr) && pr.is_integer()) ==> unary_typing(
            reg,
            reg@,
            UnaryOperator::Negate,
            t,
        ) == (t, Seq::<TypeIssue>::empty()) && unary_typing(reg, reg@, UnaryOperator::BitwiseNot, t) == (
            t,
            Seq::<TypeIssue>::empty(),
        ),
        t == TypeId::spec_primitive(PrimitiveType::Bool) ==> unary_typing(reg, reg@, UnaryOperator::LogicalNot, t)
            == (t, Seq::<TypeIssue>::empty()) && unary_typing(reg, reg@, UnaryOperator::Negate, t) == (
            t,
            seq![TypeIssue::NegateNonNumeric],
        ),
{
    assert(reg@[17] == reserved_shape(17));
    assert(reg.spec_normalize(t) == t);
    assert(reg.spec_normalize(p) == p);
    crate::sema::ty::lemma_interned(reg@, TypeShape::Pointer(t));
    law_coercion_reflexive(reg, t, t);
    if t == TypeId::spec_primitive(PrimitiveType::Bool) {
        assert(reg@[t.0 as int] == reserved_shape(t.0 as int));
    }
}

/// Casts with `as`: a type casts to itself; integers cast to integers,
/// pointers to pointers, integers to pointers and back, and a slice to a
/// pointer; a boolean, a float or a slice does not cast to an integer.
pub proof fn law_cast_rules(reg: &TypeRegistry, from: TypeId, to: TypeId)
    requires
        reg.wf(),
        plain(reg, from),
        plain(reg, to),
        from != TypeId::spec_error(),
        to != TypeId::spec_error(),
    ensures
        cast_check(reg, from, from) == CastCheck::Allowed,
        ({
            let fs = reg@[from.0 as int];
            let ts = reg@[to.0 as int];
            let int_from = fs matches TypeShape::Primitive(p) && p.is_integer();
            let int_to = ts matches TypeShape::Primitive(p) && p.is_integer();
            let ptr_from = fs is Pointer || fs is VolatilePtr;
            let ptr_to = ts is Pointer || ts is VolatilePtr;
            &&& (int_from || ptr_from || fs is Slice) && (int_to || ptr_to) && !(fs is Slice && int_to) ==> cast_check(
                reg,
                from,
                to,
            ) == CastCheck::Allowed
            &&& from != to && int_to && (fs == TypeShape::Primitive(PrimitiveType::Bool) || fs is Slice || (
            fs matches TypeShape::Primitive(p) && p.is_float())) ==> cast_check(reg, from, to) == CastCheck::Invalid
        }),
{
    assert(reg.spec_normalize(from) == from);
    assert(reg.spec_normalize(to) == to);
}

/// A switch misses exactly the variants that none of its case patterns
/// names as an enum literal: a variant written as `.n` in some case is
/// never reported, and a variant that no pattern names is.
pub proof fn law_missing_variants(variants: Seq<SymbolId>, cases: Seq<SwitchCase>, n: SymbolId, i: int, j: int)
    ensures
        (0 <= i < cases.len() && 0 <= j < cases[i].patterns@.len() && (cases[i].patterns@[j] matches SwitchPattern::Value(e)
            && e.kind == ExprKind::EnumLiteral(n))) ==> !variants.filter(|v: SymbolId| !pattern_names(cases).contains(v)).contains(n),
        (variants.contains(n) && forall|a: int, b: int|
            0 <= a < cases.len() && 0 <= b < cases[a].patterns@.len() ==> !(#[trigger] cases[a].patterns@[b] matches SwitchPattern::Value(e)
                && e.kind == ExprKind::EnumLiteral(n))) ==> variants.filter(|v: SymbolId| !pattern_names(cases).contains(v)).contains(n),
{
    let f = |v: SymbolId| !pattern_names(cases).contains(v);
    if 0 <= i < cases.len() && 0 <= j < cases[i].patterns@.len() && (cases[i].patterns@[j] matches SwitchPattern::Value(e)
        && e.kind == ExprKind::EnumLiteral(n)) {
        assert(names_literal(cases[i].patterns@[j], n));
        assert(pattern_names(cases).contains(n));
        if variants.filter(f).contains(n) {
            let k = choose|k: int| 0 <= k < variants.filter(f).len() && variants.filter(f)[k] == n;
            variants.lemma_filter_pred(f, k);
        }
    }
    if variants.contains(n) && forall|a: int, b: int|
        0 <= a < cases.len() && 0 <= b < cases[a].patterns@.len() ==> !(#[trigger] cases[a].patterns@[b] matches SwitchPattern::Value(e)
            && e.kind == ExprKind::EnumLiteral(n)) {
        assert(!pattern_names(cases).contains(n)) by {
            if pattern_names(cases).contains(n) {
                let (a, b) = choose|a: int, b: int|
                    0 <= a < cases.len() && 0 <= b < cases[a].patterns@.len() && #[trigger] names_literal(cases[a].patterns@[b], n);
                assert(names_literal(cases[a].patterns@[b], n));
            }
        }
        let k = choose|k: int| 0 <= k < variants.len() && variants[k] == n;
        variants.lemma_filter_contains(f, k);
    }
}

} // verus!
