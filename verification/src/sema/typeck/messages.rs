use super::const_eval::ConstEvalError;
use super::expr::Coercion;
use super::rules::{CastCheck, TypeIssue};
use crate::utils::{concat3, decimal, decimal_text};
use vstd::prelude::*;

verus! {

// The text of the diagnostic that each refusal of the type rules and of
// constant evaluation stands for.

/// `n` written in decimal, as `{}` formats it.
pub fn decimal_text_u64(n: u64) -> (s: String)
    ensures
        s@ == decimal(n as nat),
    decreases n,
{
    let mut s = if n < 10 {
        String::new()
    } else {
        decimal_text_u64(n / 10)
    };
    let d = n % 10;
    let c = if d == 0 { '0' } else if d == 1 { '1' } else if d == 2 { '2' } else if d == 3 { '3' }
        else if d == 4 { '4' } else if d == 5 { '5' } else if d == 6 { '6' } else if d == 7 { '7' }
        else if d == 8 { '8' } else { '9' };
    crate::parser::escape::push_char(&mut s, c);
    proof {
        if n < 10 {
            assert(s@ =~= seq![crate::utils::digit_char(n as nat)]);
        }
    }
    s
}

pub open spec fn coercion_message(c: Coercion) -> Seq<char> {
    match c {
        Coercion::Accepted => Seq::empty(),
        Coercion::ImmutableArrayToMutableSlice => "cannot implicitly convert an immutable array to a mutable slice `[]mut T`"@,
        Coercion::Mismatched => "mismatched types"@,
    }
}

pub open spec fn arity_message(kind: Seq<char>, expected: nat, provided: nat) -> Seq<char> {
    "function expects "@ + kind + " "@ + decimal(expected) + " arguments, but "@ + decimal(provided)
        + " were provided"@
}

pub open spec fn length_message(found: nat, expected: nat) -> Seq<char> {
    "array literal length ("@ + decimal(found) + ") does not match expected length ("@ + decimal(expected)
        + ")"@
}

/// The message of the diagnostic that `issue` stands for.
pub open spec fn issue_message(issue: TypeIssue) -> Seq<char> {
    match issue {
        TypeIssue::Coercion(c) => coercion_message(c),
        TypeIssue::PointerArithmetic => "implicit pointer arithmetic is strictly forbidden in Kern"@,
        TypeIssue::BitwiseNeedsIntegers => "bitwise operations require integer types"@,
        TypeIssue::DerefNonPointer => "cannot dereference a non-pointer type"@,
        TypeIssue::LengthOfNonArray => "length operator `#` can only be applied to arrays and slices"@,
        TypeIssue::NegateNonNumeric => "negation requires a numeric type"@,
        TypeIssue::BitwiseNotNonInteger => "bitwise NOT requires an integer type"@,
        TypeIssue::IndexNotInteger => "index must be an integer type"@,
        TypeIssue::IndexNonArray => "cannot index into a non-array/non-slice type"@,
        TypeIssue::SliceStartNotInteger => "slice start index must be an integer"@,
        TypeIssue::SliceEndNotInteger => "slice end index must be an integer"@,
        TypeIssue::SliceNonArray => "cannot slice a non-array/non-slice type"@,
        TypeIssue::AssignToImmutable => "cannot assign to an immutable variable or location"@,
        TypeIssue::UndefWithoutType => "`undef` must have a known expected type context"@,
        TypeIssue::MissingReturnValue => "expected a return value, but found empty return"@,
        TypeIssue::TooFewVariadicArguments { expected, provided } => arity_message(
            "at least"@,
            expected as nat,
            provided as nat,
        ),
        TypeIssue::WrongArgumentCount { expected, provided } => arity_message(
            "exactly"@,
            expected as nat,
            provided as nat,
        ),
        TypeIssue::VariadicSmallInteger => "C ABI requires integer arguments passed to `...` to be at least 32-bit"@,
        TypeIssue::VariadicF32 => "C ABI requires float arguments passed to `...` to be 64-bit"@,
        TypeIssue::ReceiverNeedsPointer => "method receiver type mismatch"@,
        TypeIssue::ArrayLengthMismatch { found, expected } => length_message(found as nat, expected as nat),
        TypeIssue::ArrayLiteralNeedsArrayType => "expected an array type for array literal `.{ ... }`"@,
        TypeIssue::RepeatLiteralNeedsArrayType => "expected an array type for repeat literal `.{ v; N }`"@,
        TypeIssue::RepeatCountNotInteger => "repeat count must be an integer"@,
    }
}

fn owned(s: &str) -> (r: String)
    ensures
        r@ == s@,
{
    s.to_owned()
}

impl TypeIssue {
    /// The message of the diagnostic this issue stands for.
    pub fn message(&self) -> (s: String)
        ensures
            s@ == issue_message(*self),
    {
        match *self {
            TypeIssue::Coercion(c) => match c {
                Coercion::Accepted => String::new(),
                Coercion::ImmutableArrayToMutableSlice => owned(
                    "cannot implicitly convert an immutable array to a mutable slice `[]mut T`",
                ),
                Coercion::Mismatched => owned("mismatched types"),
            },
            TypeIssue::PointerArithmetic => owned("implicit pointer arithmetic is strictly forbidden in Kern"),
            TypeIssue::BitwiseNeedsIntegers => owned("bitwise operations require integer types"),
            TypeIssue::DerefNonPointer => owned("cannot dereference a non-pointer type"),
            TypeIssue::LengthOfNonArray => owned("length operator `#` can only be applied to arrays and slices"),
            TypeIssue::NegateNonNumeric => owned("negation requires a numeric type"),
            TypeIssue::BitwiseNotNonInteger => owned("bitwise NOT requires an integer type"),
            TypeIssue::IndexNotInteger => owned("index must be an integer type"),
            TypeIssue::IndexNonArray => owned("cannot index into a non-array/non-slice type"),
            TypeIssue::SliceStartNotInteger => owned("slice start index must be an integer"),
            TypeIssue::SliceEndNotInteger => owned("slice end index must be an integer"),
            TypeIssue::SliceNonArray => owned("cannot slice a non-array/non-slice type"),
            TypeIssue::AssignToImmutable => owned("cannot assign to an immutable variable or location"),
            TypeIssue::UndefWithoutType => owned("`undef` must have a known expected type context"),
            TypeIssue::MissingReturnValue => owned("expected a return value, but found empty return"),
            TypeIssue::TooFewVariadicArguments { expected, provided } => {
                let a = concat3("function expects ", "at least", " ");
                let e = decimal_text(expected);
                let b = concat3(a.as_str(), e.as_str(), " arguments, but ");
                let p = decimal_text(provided);
                concat3(b.as_str(), p.as_str(), " were provided")
            },
            TypeIssue::WrongArgumentCount { expected, provided } => {
                let a = concat3("function expects ", "exactly", " ");
                let e = decimal_text(expected);
                let b = concat3(a.as_str(), e.as_str(), " arguments, but ");
                let p = decimal_text(provided);
                concat3(b.as_str(), p.as_str(), " were provided")
            },
            TypeIssue::VariadicSmallInteger => owned(
                "C ABI requires integer arguments passed to `...` to be at least 32-bit",
            ),
            TypeIssue::VariadicF32 => owned("C ABI requires float arguments passed to `...` to be 64-bit"),
            TypeIssue::ReceiverNeedsPointer => owned("method receiver type mismatch"),
            TypeIssue::ArrayLengthMismatch { found, expected } => {
                let f = decimal_text_u64(found);
                let a = concat3("array literal length (", f.as_str(), ") does not match expected length (");
                let e = decimal_text_u64(expected);
                concat3(a.as_str(), e.as_str(), ")")
            },
            TypeIssue::ArrayLiteralNeedsArrayType => owned("expected an array type for array literal `.{ ... }`"),
            TypeIssue::RepeatLiteralNeedsArrayType => owned("expected an array type for repeat literal `.{ v; N }`"),
            TypeIssue::RepeatCountNotInteger => owned("repeat count must be an integer"),
        }
    }
}

/// The message of the diagnostic that a refused cast stands for; `None`
/// for a cast that is allowed or is left to the check of the trait
/// implementation.
pub open spec fn cast_message(c: CastCheck) -> Option<Seq<char>> {
    match c {
        CastCheck::ReadOnlyToMutableTraitObject => Some(
            "cannot cast a read-only pointer to a mutable trait object `mut Trait`"@,
        ),
        CastCheck::NotPointerToTraitObject => Some("only pointers or trait objects can be cast to a trait object"@),
        CastCheck::Invalid => Some("invalid `as` cast"@),
        _ => None,
    }
}

impl CastCheck {
    /// The message of the diagnostic this cast judgement stands for, if it
    /// is a refusal.
    pub fn message(&self) -> (s: Option<String>)
        ensures
            match s {
                Some(t) => cast_message(*self) == Some(t@),
                None => cast_message(*self) is None,
            },
    {
        match *self {
            CastCheck::ReadOnlyToMutableTraitObject => Some(
                owned("cannot cast a read-only pointer to a mutable trait object `mut Trait`"),
            ),
            CastCheck::NotPointerToTraitObject => Some(
                owned("only pointers or trait objects can be cast to a trait object"),
            ),
            CastCheck::Invalid => Some(owned("invalid `as` cast")),
            _ => None,
        }
    }
}

/// The message of the diagnostic that a failure of constant evaluation
/// stands for.
pub open spec fn const_eval_message(e: ConstEvalError) -> Seq<char> {
    match e {
        ConstEvalError::DivisionByZero => "division by zero in constant expression"@,
        ConstEvalError::ModuloByZero => "modulo by zero in constant expression"@,
        ConstEvalError::UnsupportedIntOperator => "unsupported operator for constant integers"@,
        ConstEvalError::UnsupportedBoolOperator => "unsupported operator for constant booleans"@,
        ConstEvalError::MismatchedOperands => "type mismatch or unsupported types in constant binary expression"@,
        ConstEvalError::InvalidUnaryOperand => "invalid unary operator for the given constant type"@,
        ConstEvalError::NegativeWhereUnsigned => "constant expression cannot evaluate to a negative number here"@,
        ConstEvalError::ExpectedInteger => "expected an integer constant"@,
    }
}

impl ConstEvalError {
    /// The message of the diagnostic this failure stands for.
    pub fn message(&self) -> (s: String)
        ensures
            s@ == const_eval_message(*self),
    {
        match *self {
            ConstEvalError::DivisionByZero => owned("division by zero in constant expression"),
            ConstEvalError::ModuloByZero => owned("modulo by zero in constant expression"),
            ConstEvalError::UnsupportedIntOperator => owned("unsupported operator for constant integers"),
            ConstEvalError::UnsupportedBoolOperator => owned("unsupported operator for constant booleans"),
            ConstEvalError::MismatchedOperands => owned(
                "type mismatch or unsupported types in constant binary expression",
            ),
            ConstEvalError::InvalidUnaryOperand => owned("invalid unary operator for the given constant type"),
            ConstEvalError::NegativeWhereUnsigned => owned(
                "constant expression cannot evaluate to a negative number here",
            ),
            ConstEvalError::ExpectedInteger => owned("expected an integer constant"),
        }
    }
}

} // verus!
