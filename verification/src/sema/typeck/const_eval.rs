use crate::parser::ast::{BinaryOperator, UnaryOperator};
use crate::sema::ty::PrimitiveType;
use vstd::prelude::*;
use vstd::wrapping::i128_specs;

verus! {

/// A scalar value of constant evaluation.
#[derive(Debug, Clone, PartialEq, Eq, Structural)]
pub enum ConstScalar {
    Int(i128),
    Bool(bool),
}

/// Why a constant expression has no value; each variant stands for one
/// diagnostic of the evaluator.
#[derive(Debug, Clone, Copy, PartialEq, Eq, Structural)]
pub enum ConstEvalError {
    /// "division by zero in constant expression"
    DivisionByZero,
    /// "modulo by zero in constant expression"
    ModuloByZero,
    /// "unsupported operator for constant integers"
    UnsupportedIntOperator,
    /// "unsupported operator for constant booleans"
    UnsupportedBoolOperator,
    /// "type mismatch or unsupported types in constant binary expression"
    MismatchedOperands,
    /// "invalid unary operator for the given constant type"
    InvalidUnaryOperand,
    /// "constant expression cannot evaluate to a negative number here"
    NegativeWhereUnsigned,
    /// "expected an integer constant"
    ExpectedInteger,
}

/// `l op r` overflows or shifts out of range, which panics at run time
/// rather than giving a value.
pub open spec fn int_op_panics(op: BinaryOperator, l: i128, r: i128) -> bool {
    match op {
        BinaryOperator::Divide | BinaryOperator::Modulo => r == -1 && l == i128::MIN,
        BinaryOperator::ShiftLeft | BinaryOperator::ShiftRight => r < 0 || r >= 128,
        _ => false,
    }
}

/// The value of `l op r` on integer constants. Addition, subtraction and
/// multiplication wrap around at 128 bits; division and remainder
/// truncate toward zero.
pub open spec fn spec_int_binary(op: BinaryOperator, l: i128, r: i128) -> Result<ConstScalar, ConstEvalError> {
    match op {
        BinaryOperator::Add => Ok(ConstScalar::Int(i128_specs::wrapping_add(l, r))),
        BinaryOperator::Subtract => Ok(ConstScalar::Int(i128_specs::wrapping_sub(l, r))),
        BinaryOperator::Multiply => Ok(ConstScalar::Int(i128_specs::wrapping_mul(l, r))),
        BinaryOperator::Divide => if r == 0 {
            Err(ConstEvalError::DivisionByZero)
        } else {
            Ok(ConstScalar::Int(truncating_div(l as int, r as int) as i128))
        },
        BinaryOperator::Modulo => if r == 0 {
            Err(ConstEvalError::ModuloByZero)
        } else {
            Ok(ConstScalar::Int((l - truncating_div(l as int, r as int) * r) as i128))
        },
        BinaryOperator::ShiftLeft => Ok(ConstScalar::Int(l << (r as u32))),
        BinaryOperator::ShiftRight => Ok(ConstScalar::Int(l >> (r as u32))),
        BinaryOperator::BitwiseAnd => Ok(ConstScalar::Int(l & r)),
        BinaryOperator::BitwiseOr => Ok(ConstScalar::Int(l | r)),
        BinaryOperator::BitwiseXor => Ok(ConstScalar::Int(l ^ r)),
        BinaryOperator::Equal => Ok(ConstScalar::Bool(l == r)),
        BinaryOperator::NotEqual => Ok(ConstScalar::Bool(l != r)),
        BinaryOperator::LessThan => Ok(ConstScalar::Bool(l < r)),
        BinaryOperator::LessOrEqual => Ok(ConstScalar::Bool(l <= r)),
        BinaryOperator::GreaterThan => Ok(ConstScalar::Bool(l > r)),
        BinaryOperator::GreaterOrEqual => Ok(ConstScalar::Bool(l >= r)),
        _ => Err(ConstEvalError::UnsupportedIntOperator),
    }
}

/// Division rounding toward zero, as integer division does at run time.
pub open spec fn truncating_div(a: int, b: int) -> int {
    if a >= 0 {
        if b > 0 {
            a / b
        } else {
            -(a / (-b))
        }
    } else {
        if b > 0 {
            -((-a) / b)
        } else {
            (-a) / (-b)
        }
    }
}

/// |x| as an unsigned number.
fn magnitude(x: i128) -> (m: u128)
    ensures
        m == if x < 0 { -x } else { x as int },
{
    if x < 0 {
        ((-(x + 1)) as u128) + 1
    } else {
        x as u128
    }
}

/// `l / r` rounded toward zero.
fn truncated_quotient(l: i128, r: i128) -> (q: i128)
    requires
        r != 0,
        !(l == i128::MIN && r == -1),
    ensures
        q == truncating_div(l as int, r as int),
{
    let a = magnitude(l);
    let b = magnitude(r);
    let m = a / b;
    if (l < 0) == (r < 0) {
        proof {
            assert(m <= a);
            if l == i128::MIN {
                assert(b >= 2);
                assert(m <= a / 2) by (nonlinear_arith) requires b >= 2, m == a / b;
            }
        }
        m as i128
    } else {
        if m == 0 {
            0
        } else {
            proof {
                assert(m <= a);
            }
            -((m - 1) as i128) - 1
        }
    }
}

/// The remainder of `l / r` rounded toward zero; it takes the sign of `l`.
fn truncated_remainder(l: i128, r: i128) -> (m: i128)
    requires
        r != 0,
        !(l == i128::MIN && r == -1),
    ensures
        m == l - truncating_div(l as int, r as int) * r,
{
    let a = magnitude(l);
    let b = magnitude(r);
    let rem = a % b;
    proof {
        let q = (a / b) as int;
        assert(a == q * b + rem) by (nonlinear_arith) requires b > 0, rem == a % b, q == a / b;
        let t = truncating_div(l as int, r as int);
        if l < 0 {
            if r > 0 {
                assert(t == -q);
                assert(t * r == -(q * b)) by (nonlinear_arith) requires t == -q, r == b;
            } else {
                assert(t == q);
                assert(t * r == -(q * b)) by (nonlinear_arith) requires t == q, r == -b;
            }
        } else {
            if r > 0 {
                assert(t == q);
                assert(t * r == q * b) by (nonlinear_arith) requires t == q, r == b;
            } else {
                assert(t == -q);
                assert(t * r == q * b) by (nonlinear_arith) requires t == -q, r == -b;
            }
        }
    }
    if l < 0 {
        -(rem as i128)
    } else {
        rem as i128
    }
}

/// The value of `l op r` on boolean constants.
pub open spec fn spec_bool_binary(op: BinaryOperator, l: bool, r: bool) -> Result<ConstScalar, ConstEvalError> {
    match op {
        BinaryOperator::LogicalAnd => Ok(ConstScalar::Bool(l && r)),
        BinaryOperator::LogicalOr => Ok(ConstScalar::Bool(l || r)),
        BinaryOperator::Equal => Ok(ConstScalar::Bool(l == r)),
        BinaryOperator::NotEqual => Ok(ConstScalar::Bool(l != r)),
        _ => Err(ConstEvalError::UnsupportedBoolOperator),
    }
}

/// The value of `left op right` on scalar constants.
pub open spec fn spec_eval_binary(op: BinaryOperator, left: ConstScalar, right: ConstScalar) -> Result<ConstScalar, ConstEvalError> {
    match (left, right) {
        (ConstScalar::Int(l), ConstScalar::Int(r)) => spec_int_binary(op, l, r),
        (ConstScalar::Bool(l), ConstScalar::Bool(r)) => spec_bool_binary(op, l, r),
        _ => Err(ConstEvalError::MismatchedOperands),
    }
}

/// The operation panics on these operands.
pub open spec fn binary_panics(op: BinaryOperator, left: ConstScalar, right: ConstScalar) -> bool {
    match (left, right) {
        (ConstScalar::Int(l), ConstScalar::Int(r)) => int_op_panics(op, l, r),
        _ => false,
    }
}

/// Fold a binary operator over two scalar constants.
pub fn eval_binary(op: BinaryOperator, left: &ConstScalar, right: &ConstScalar) -> (r: Result<
    ConstScalar,
    ConstEvalError,
>)
    requires
        !binary_panics(op, *left, *right),
    ensures
        r == spec_eval_binary(op, *left, *right),
{
    match (left, right) {
        (ConstScalar::Int(l), ConstScalar::Int(r)) => {
            let l = *l;
            let r = *r;
            match op {
                BinaryOperator::Add => Ok(ConstScalar::Int(l.wrapping_add(r))),
                BinaryOperator::Subtract => Ok(ConstScalar::Int(l.wrapping_sub(r))),
                BinaryOperator::Multiply => Ok(ConstScalar::Int(l.wrapping_mul(r))),
                BinaryOperator::Divide => {
                    if r == 0 {
                        Err(ConstEvalError::DivisionByZero)
                    } else {
                        Ok(ConstScalar::Int(truncated_quotient(l, r)))
                    }
                },
                BinaryOperator::Modulo => {
                    if r == 0 {
                        Err(ConstEvalError::ModuloByZero)
                    } else {
                        Ok(ConstScalar::Int(truncated_remainder(l, r)))
                    }
                },
                BinaryOperator::ShiftLeft => {
                    let x = l << (r as u32);
                    assert(x == l << (r as u32));
                    Ok(ConstScalar::Int(x))
                },
                BinaryOperator::ShiftRight => Ok(ConstScalar::Int(l >> (r as u32))),
                BinaryOperator::BitwiseAnd => Ok(ConstScalar::Int(l & r)),
                BinaryOperator::BitwiseOr => Ok(ConstScalar::Int(l | r)),
                BinaryOperator::BitwiseXor => Ok(ConstScalar::Int(l ^ r)),
                BinaryOperator::Equal => Ok(ConstScalar::Bool(l == r)),
                BinaryOperator::NotEqual => Ok(ConstScalar::Bool(l != r)),
                BinaryOperator::LessThan => Ok(ConstScalar::Bool(l < r)),
                BinaryOperator::LessOrEqual => Ok(ConstScalar::Bool(l <= r)),
                BinaryOperator::GreaterThan => Ok(ConstScalar::Bool(l > r)),
                BinaryOperator::GreaterOrEqual => Ok(ConstScalar::Bool(l >= r)),
                _ => Err(ConstEvalError::UnsupportedIntOperator),
            }
        },
        (ConstScalar::Bool(l), ConstScalar::Bool(r)) => {
            let l = *l;
            let r = *r;
            match op {
                BinaryOperator::LogicalAnd => Ok(ConstScalar::Bool(l && r)),
                BinaryOperator::LogicalOr => Ok(ConstScalar::Bool(l || r)),
                BinaryOperator::Equal => Ok(ConstScalar::Bool(l == r)),
                BinaryOperator::NotEqual => Ok(ConstScalar::Bool(l != r)),
                _ => Err(ConstEvalError::UnsupportedBoolOperator),
            }
        },
        _ => Err(ConstEvalError::MismatchedOperands),
    }
}

/// The value of `op operand` on a scalar constant: negation wraps around,
/// `~` flips every bit, `!` negates a boolean.
pub open spec fn spec_eval_unary(op: UnaryOperator, v: ConstScalar) -> Result<ConstScalar, ConstEvalError> {
    match (op, v) {
        (UnaryOperator::Negate, ConstScalar::Int(x)) => Ok(ConstScalar::Int(i128_specs::wrapping_sub(0, x))),
        (UnaryOperator::BitwiseNot, ConstScalar::Int(x)) => Ok(ConstScalar::Int(!x)),
        (UnaryOperator::LogicalNot, ConstScalar::Bool(b)) => Ok(ConstScalar::Bool(!b)),
        _ => Err(ConstEvalError::InvalidUnaryOperand),
    }
}

/// Fold a unary operator over a scalar constant.
pub fn eval_unary(op: UnaryOperator, v: &ConstScalar) -> (r: Result<ConstScalar, ConstEvalError>)
    ensures
        r == spec_eval_unary(op, *v),
{
    match (op, v) {
        (UnaryOperator::Negate, ConstScalar::Int(x)) => Ok(ConstScalar::Int(0i128.wrapping_sub(*x))),
        (UnaryOperator::BitwiseNot, ConstScalar::Int(x)) => Ok(ConstScalar::Int(!*x)),
        (UnaryOperator::LogicalNot, ConstScalar::Bool(b)) => Ok(ConstScalar::Bool(!*b)),
        _ => Err(ConstEvalError::InvalidUnaryOperand),
    }
}

/// A constant used where an unsigned size is needed, such as an array
/// length: negative integers and non-integers are refused.
pub fn expect_usize(v: &ConstScalar) -> (r: Result<u64, ConstEvalError>)
    ensures
        match *v {
            ConstScalar::Int(x) => if x < 0 {
                r == Err::<u64, ConstEvalError>(ConstEvalError::NegativeWhereUnsigned)
            } else {
                r == Ok::<u64, ConstEvalError>(x as u64)
            },
            _ => r == Err::<u64, ConstEvalError>(ConstEvalError::ExpectedInteger),
        },
{
    match v {
        ConstScalar::Int(x) => {
            if *x < 0 {
                Err(ConstEvalError::NegativeWhereUnsigned)
            } else {
                Ok(*x as u64)
            }
        },
        _ => Err(ConstEvalError::ExpectedInteger),
    }
}

/// Size in bytes of a primitive type on a target with the given pointer
/// size.
pub open spec fn spec_primitive_size(p: PrimitiveType, pointer_size: u64) -> u64 {
    match p {
        PrimitiveType::I8 | PrimitiveType::U8 | PrimitiveType::Bool => 1,
        PrimitiveType::I16 | PrimitiveType::U16 => 2,
        PrimitiveType::I32 | PrimitiveType::U32 | PrimitiveType::F32 => 4,
        PrimitiveType::I64 | PrimitiveType::U64 | PrimitiveType::F64 => 8,
        PrimitiveType::ISize | PrimitiveType::USize => pointer_size,
        PrimitiveType::I128 | PrimitiveType::U128 => 16,
        _ => 0,
    }
}

/// Alignment in bytes of a primitive type on a target with the given
/// pointer size.
pub open spec fn spec_primitive_align(p: PrimitiveType, pointer_size: u64) -> u64 {
    match p {
        PrimitiveType::I16 | PrimitiveType::U16 => 2,
        PrimitiveType::I32 | PrimitiveType::U32 | PrimitiveType::F32 => 4,
        PrimitiveType::I64 | PrimitiveType::U64 | PrimitiveType::F64 => 8,
        PrimitiveType::ISize | PrimitiveType::USize => pointer_size,
        PrimitiveType::I128 | PrimitiveType::U128 => 16,
        _ => 1,
    }
}

pub fn primitive_size(p: PrimitiveType, pointer_size: u64) -> (r: u64)
    ensures
        r == spec_primitive_size(p, pointer_size),
{
    match p {
        PrimitiveType::I8 | PrimitiveType::U8 | PrimitiveType::Bool => 1,
        PrimitiveType::I16 | PrimitiveType::U16 => 2,
        PrimitiveType::I32 | PrimitiveType::U32 | PrimitiveType::F32 => 4,
        PrimitiveType::I64 | PrimitiveType::U64 | PrimitiveType::F64 => 8,
        PrimitiveType::ISize | PrimitiveType::USize => pointer_size,
        PrimitiveType::I128 | PrimitiveType::U128 => 16,
        _ => 0,
    }
}

pub fn primitive_align(p: PrimitiveType, pointer_size: u64) -> (r: u64)
    ensures
        r == spec_primitive_align(p, pointer_size),
{
    match p {
        PrimitiveType::I8 | PrimitiveType::U8 | PrimitiveType::Bool => 1,
        PrimitiveType::I16 | PrimitiveType::U16 => 2,
        PrimitiveType::I32 | PrimitiveType::U32 | PrimitiveType::F32 => 4,
        PrimitiveType::I64 | PrimitiveType::U64 | PrimitiveType::F64 => 8,
        PrimitiveType::ISize | PrimitiveType::USize => pointer_size,
        PrimitiveType::I128 | PrimitiveType::U128 => 16,
        _ => 1,
    }
}

/// `offset` rounded up to a multiple of `align`, for the alignments that
/// types have (1, 2, 4, 8 or 16 bytes).
pub open spec fn is_type_alignment(align: u64) -> bool {
    align == 1 || align == 2 || align == 4 || align == 8 || align == 16
}

/// Round `offset` up to the next multiple of `align`.
pub fn align_to(offset: u64, align: u64) -> (r: u64)
    requires
        is_type_alignment(align),
        offset + align - 1 <= u64::MAX,
    ensures
        r % align == 0,
        offset <= r < offset + align,
{
    let t = offset + (align - 1);
    let m = align - 1;
    let r = t & !m;
    proof {
        let o = offset;
        if align == 1 {
            assert(t == o && m == 0 ==> (t & !m) == o) by (bit_vector);
        } else if align == 2 {
            assert(t == o + 1 && m == 1 ==> (t & !m) % 2 == 0 && o <= (t & !m) && (t & !m) < o + 2) by (bit_vector);
        } else if align == 4 {
            assert(t == o + 3 && m == 3 ==> (t & !m) % 4 == 0 && o <= (t & !m) && (t & !m) < o + 4) by (bit_vector);
        } else if align == 8 {
            assert(t == o + 7 && m == 7 ==> (t & !m) % 8 == 0 && o <= (t & !m) && (t & !m) < o + 8) by (bit_vector);
        } else {
            assert(t == o + 15 && m == 15 ==> (t & !m) % 16 == 0 && o <= (t & !m) && (t & !m) < o + 16) by (bit_vector);
        }
    }
    r
}

/// How a symbol of this kind is named in messages about constants.
pub fn kind_to_string(kind: crate::sema::scope::SymbolKind) -> (r: &'static str)
    ensures
        r@ == (match kind {
            crate::sema::scope::SymbolKind::Var => "variable (`let`)"@,
            crate::sema::scope::SymbolKind::Static => "static variable"@,
            crate::sema::scope::SymbolKind::Function => "function"@,
            crate::sema::scope::SymbolKind::Struct => "struct"@,
            _ => "symbol"@,
        }),
{
    match kind {
        crate::sema::scope::SymbolKind::Var => "variable (`let`)",
        crate::sema::scope::SymbolKind::Static => "static variable",
        crate::sema::scope::SymbolKind::Function => "function",
        crate::sema::scope::SymbolKind::Struct => "struct",
        _ => "symbol",
    }
}

/// |x|.
pub open spec fn abs(x: int) -> int {
    if x < 0 {
        -x
    } else {
        x
    }
}

proof fn lemma_truncating_div(a: int, b: int)
    requires
        b != 0,
    ensures
        abs(a - truncating_div(a, b) * b) < abs(b),
        a - truncating_div(a, b) * b == 0 || (a - truncating_div(a, b) * b < 0) == (a < 0),
        abs(truncating_div(a, b)) * abs(b) <= abs(a),
        truncating_div(a, b) == 0 || (truncating_div(a, b) < 0) == ((a < 0) != (b < 0)),
{
    let x = abs(a);
    let y = abs(b);
    let q = x / y;
    let m = x % y;
    assert(x == q * y + m && 0 <= m < y && q >= 0) by (nonlinear_arith)
        requires
            y > 0,
            x >= 0,
            q == x / y,
            m == x % y,
    ;
    assert(q * y <= x);
    let t = truncating_div(a, b);
    if a >= 0 {
        if b > 0 {
            assert(t == q);
            assert(a - t * b == m);
        } else {
            assert(t == -q);
            assert(t * b == q * y) by (nonlinear_arith)
                requires
                    t == -q,
                    b == -y,
            ;
        }
    } else {
        if b > 0 {
            assert(t == -q);
            assert(t * b == -(q * y)) by (nonlinear_arith)
                requires
                    t == -q,
                    b == y,
            ;
        } else {
            assert(t == q);
            assert(t * b == -(q * y)) by (nonlinear_arith)
                requires
                    t == q,
                    b == -y,
            ;
        }
    }
    assert(abs(t) == q);
}

/// Integer constants compare as numbers: each comparison operator gives
/// the mathematical comparison of its operands, so equal operands satisfy
/// `==`, `<=` and `>=` and neither `<` nor `>`.
pub proof fn law_constant_comparisons(l: i128, r: i128)
    ensures
        spec_eval_binary(BinaryOperator::Equal, ConstScalar::Int(l), ConstScalar::Int(r)) == Ok::<
            ConstScalar,
            ConstEvalError,
        >(ConstScalar::Bool(l == r)),
        spec_eval_binary(BinaryOperator::NotEqual, ConstScalar::Int(l), ConstScalar::Int(r)) == Ok::<
            ConstScalar,
            ConstEvalError,
        >(ConstScalar::Bool(l != r)),
        spec_eval_binary(BinaryOperator::LessThan, ConstScalar::Int(l), ConstScalar::Int(r)) == Ok::<
            ConstScalar,
            ConstEvalError,
        >(ConstScalar::Bool(l < r)),
        spec_eval_binary(BinaryOperator::LessOrEqual, ConstScalar::Int(l), ConstScalar::Int(r)) == Ok::<
            ConstScalar,
            ConstEvalError,
        >(ConstScalar::Bool(l <= r)),
        spec_eval_binary(BinaryOperator::GreaterThan, ConstScalar::Int(l), ConstScalar::Int(r)) == Ok::<
            ConstScalar,
            ConstEvalError,
        >(ConstScalar::Bool(l > r)),
        spec_eval_binary(BinaryOperator::GreaterOrEqual, ConstScalar::Int(l), ConstScalar::Int(r)) == Ok::<
            ConstScalar,
            ConstEvalError,
        >(ConstScalar::Bool(l >= r)),
{
}

/// Addition, subtraction and multiplication of integer constants give the
/// mathematical result where it fits in 128 bits; addition and
/// subtraction otherwise wrap around by 2^128.
pub proof fn law_constant_arithmetic(l: i128, r: i128)
    ensures
        spec_eval_binary(BinaryOperator::Add, ConstScalar::Int(l), ConstScalar::Int(r)) matches Ok(
            ConstScalar::Int(v),
        ) && (v == l + r || v == l + r - 0x1_0000_0000_0000_0000_0000_0000_0000_0000int || v == l + r
            + 0x1_0000_0000_0000_0000_0000_0000_0000_0000int),
        i128::MIN <= l + r <= i128::MAX ==> spec_eval_binary(
            BinaryOperator::Add,
            ConstScalar::Int(l),
            ConstScalar::Int(r),
        ) == Ok::<ConstScalar, ConstEvalError>(ConstScalar::Int((l + r) as i128)),
        spec_eval_binary(BinaryOperator::Subtract, ConstScalar::Int(l), ConstScalar::Int(r)) matches Ok(
            ConstScalar::Int(v),
        ) && (v == l - r || v == l - r - 0x1_0000_0000_0000_0000_0000_0000_0000_0000int || v == l - r
            + 0x1_0000_0000_0000_0000_0000_0000_0000_0000int),
        i128::MIN <= l - r <= i128::MAX ==> spec_eval_binary(
            BinaryOperator::Subtract,
            ConstScalar::Int(l),
            ConstScalar::Int(r),
        ) == Ok::<ConstScalar, ConstEvalError>(ConstScalar::Int((l - r) as i128)),
        i128::MIN <= l * r <= i128::MAX ==> spec_eval_binary(
            BinaryOperator::Multiply,
            ConstScalar::Int(l),
            ConstScalar::Int(r),
        ) == Ok::<ConstScalar, ConstEvalError>(ConstScalar::Int((l * r) as i128)),
{
    let v = l * r;
    if i128::MIN <= v <= i128::MAX {
        let range: int = 0x1_0000_0000_0000_0000_0000_0000_0000_0000int;
        if v >= 0 {
            assert(v % range == v);
        } else {
            assert(v % range == v + range);
        }
    }
}

/// Division and remainder of integer constants agree with each other and
/// round toward zero: for a divisor `r` other than zero, `q * r + m == l`,
/// the remainder is smaller than the divisor in magnitude and has the
/// sign of `l` (or is zero), and the quotient is no larger in magnitude
/// than `l / r`. A zero divisor is an error of its own.
pub proof fn law_constant_division(l: i128, r: i128)
    requires
        !(l == i128::MIN && r == -1),
    ensures
        r == 0 ==> spec_eval_binary(BinaryOperator::Divide, ConstScalar::Int(l), ConstScalar::Int(r)) == Err::<
            ConstScalar,
            ConstEvalError,
        >(ConstEvalError::DivisionByZero),
        r == 0 ==> spec_eval_binary(BinaryOperator::Modulo, ConstScalar::Int(l), ConstScalar::Int(r)) == Err::<
            ConstScalar,
            ConstEvalError,
        >(ConstEvalError::ModuloByZero),
        r != 0 ==> (spec_eval_binary(BinaryOperator::Divide, ConstScalar::Int(l), ConstScalar::Int(r)) matches Ok(
            ConstScalar::Int(q),
        ) && (spec_eval_binary(BinaryOperator::Modulo, ConstScalar::Int(l), ConstScalar::Int(r)) matches Ok(
            ConstScalar::Int(m),
        ) && {
            &&& q * r + m == l
            &&& abs(m as int) < abs(r as int)
            &&& (m == 0 || (m < 0) == (l < 0))
            &&& abs(q as int) * abs(r as int) <= abs(l as int)
        })),
{
    if r != 0 {
        lemma_truncating_div(l as int, r as int);
        let t = truncating_div(l as int, r as int);
        if t > i128::MAX {
            assert(abs(r as int) == 1) by (nonlinear_arith)
                requires
                    abs(t) * abs(r as int) <= abs(l as int),
                    t > i128::MAX,
                    abs(l as int) <= 0x8000_0000_0000_0000_0000_0000_0000_0000int,
                    abs(r as int) >= 1,
                    abs(t) == t,
            ;
        }
        if t < i128::MIN {
            assert(abs(r as int) * abs(t) >= abs(t)) by (nonlinear_arith)
                requires
                    abs(r as int) >= 1,
                    abs(t) >= 0,
            ;
        }
        assert(i128::MIN <= t <= i128::MAX);
    }
}

/// Boolean constants combine as booleans; the arithmetic operators refuse
/// them, and operands of two kinds are refused as mismatched.
pub proof fn law_constant_booleans(a: bool, b: bool, x: i128)
    ensures
        spec_eval_binary(BinaryOperator::LogicalAnd, ConstScalar::Bool(a), ConstScalar::Bool(b)) == Ok::<
            ConstScalar,
            ConstEvalError,
        >(ConstScalar::Bool(a && b)),
        spec_eval_binary(BinaryOperator::LogicalOr, ConstScalar::Bool(a), ConstScalar::Bool(b)) == Ok::<
            ConstScalar,
            ConstEvalError,
        >(ConstScalar::Bool(a || b)),
        spec_eval_binary(BinaryOperator::Equal, ConstScalar::Bool(a), ConstScalar::Bool(b)) == Ok::<
            ConstScalar,
            ConstEvalError,
        >(ConstScalar::Bool(a == b)),
        spec_eval_binary(BinaryOperator::NotEqual, ConstScalar::Bool(a), ConstScalar::Bool(b)) == Ok::<
            ConstScalar,
            ConstEvalError,
        >(ConstScalar::Bool(a != b)),
        spec_eval_binary(BinaryOperator::Add, ConstScalar::Bool(a), ConstScalar::Bool(b)) == Err::<
            ConstScalar,
            ConstEvalError,
        >(ConstEvalError::UnsupportedBoolOperator),
        spec_eval_binary(BinaryOperator::LogicalAnd, ConstScalar::Int(x), ConstScalar::Int(x)) == Err::<
            ConstScalar,
            ConstEvalError,
        >(ConstEvalError::UnsupportedIntOperator),
        spec_eval_binary(BinaryOperator::Add, ConstScalar::Int(x), ConstScalar::Bool(a)) == Err::<
            ConstScalar,
            ConstEvalError,
        >(ConstEvalError::MismatchedOperands),
        spec_eval_binary(BinaryOperator::Equal, ConstScalar::Bool(a), ConstScalar::Int(x)) == Err::<
            ConstScalar,
            ConstEvalError,
        >(ConstEvalError::MismatchedOperands),
{
}

/// Unary operators on constants: `-x` is the negation (where it fits),
/// `~x` is `-x - 1`, `!` negates a boolean; any other pairing is refused.
pub proof fn law_constant_unary(x: i128, b: bool)
    ensures
        x != i128::MIN ==> spec_eval_unary(UnaryOperator::Negate, ConstScalar::Int(x)) == Ok::<
            ConstScalar,
            ConstEvalError,
        >(ConstScalar::Int((-x) as i128)),
        spec_eval_unary(UnaryOperator::BitwiseNot, ConstScalar::Int(x)) == Ok::<ConstScalar, ConstEvalError>(
            ConstScalar::Int((-1 - x) as i128),
        ),
        spec_eval_unary(UnaryOperator::LogicalNot, ConstScalar::Bool(b)) == Ok::<ConstScalar, ConstEvalError>(
            ConstScalar::Bool(!b),
        ),
        spec_eval_unary(UnaryOperator::Negate, ConstScalar::Bool(b)) == Err::<ConstScalar, ConstEvalError>(
            ConstEvalError::InvalidUnaryOperand,
        ),
        spec_eval_unary(UnaryOperator::LogicalNot, ConstScalar::Int(x)) == Err::<ConstScalar, ConstEvalError>(
            ConstEvalError::InvalidUnaryOperand,
        ),
{
    assert(!x == (-1 - x) as i128) by (bit_vector);
}

} // verus!
