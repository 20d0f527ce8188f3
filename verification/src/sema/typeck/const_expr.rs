use super::const_eval::{
    binary_panics, eval_binary, eval_unary, kind_to_string, spec_eval_binary, spec_eval_unary,
    ConstEvalError, ConstScalar,
};
use super::messages::const_eval_message;
use crate::driver::context::{diagnostic_added, Context};
use crate::driver::diagnostic::DiagnosticLevel;
use crate::parser::ast::{DataLiteralKind, Expr, ExprKind};
use crate::sema::scope::{SymbolKind, SymbolTable};
use crate::utils::{concat3, symbol_text, Span, SymbolId};
use vstd::prelude::*;

verus! {

// Evaluating a constant expression tree to a scalar: integer and boolean
// literals, operators, `.{ v }` and the names of `const` declarations,
// whose value expressions are evaluated in turn. Every step goes one level
// deeper; past the depth limit evaluation stops, so a `const` that refers
// to itself is reported instead of looping.

/// The deepest level at which an expression is still evaluated.
pub const MAX_CONST_DEPTH: u64 = 100;

/// Why a constant expression has no scalar value.
#[derive(Debug, Clone, Copy, PartialEq, Eq, Structural)]
pub enum ConstFailure {
    /// An operator refused its operands.
    Op(ConstEvalError),
    /// Evaluation went past the depth limit.
    TooDeep,
    /// The name is a symbol of this kind, not a `const`.
    NotConstant(SymbolId, SymbolKind),
    /// The name is not declared (or is a `const` without a definition).
    Undeclared,
    /// The `const` is defined by something other than a global: evaluation
    /// fails without a diagnostic.
    NotGlobal,
    /// A generic instantiation used as a value.
    GenericInstantiation,
    /// Not a constant expression at all.
    NotConstantExpression,
    /// A float, string, aggregate, intrinsic call or enum literal: its
    /// value is not a scalar of this evaluator.
    NotScalar,
    /// An operation that panics: an overflowing division or shift, or a
    /// `const` whose definition id is outside the definitions.
    Panics,
}

/// The value of `e` at depth `depth`, with `scopes` resolving names and
/// `globals[d]` holding the value expression of global definition `d`.
/// The first failure, with the span of the expression it belongs to, is
/// the result; a binary operator evaluates its left operand first.
pub open spec fn const_value(scopes: SymbolTable, globals: Seq<Option<Expr>>, e: Expr, depth: nat) -> Result<
    ConstScalar,
    (ConstFailure, Span),
>
    decreases 101 - depth,
{
    if depth > MAX_CONST_DEPTH {
        Err((ConstFailure::TooDeep, e.span))
    } else {
        match e.kind {
            ExprKind::Integer(v) => Ok(ConstScalar::Int(v as i128)),
            ExprKind::Bool(b) => Ok(ConstScalar::Bool(b)),
            ExprKind::Char(c) => Ok(ConstScalar::Int((c as u32) as i128)),
            ExprKind::Binary { lhs, op, rhs } => match const_value(scopes, globals, *lhs, depth + 1) {
                Err(f) => Err(f),
                Ok(l) => match const_value(scopes, globals, *rhs, depth + 1) {
                    Err(f) => Err(f),
                    Ok(r) => if binary_panics(op, l, r) {
                        Err((ConstFailure::Panics, e.span))
                    } else {
                        match spec_eval_binary(op, l, r) {
                            Ok(v) => Ok(v),
                            Err(x) => Err((ConstFailure::Op(x), e.span)),
                        }
                    },
                },
            },
            ExprKind::Unary { op, operand } => match const_value(scopes, globals, *operand, depth + 1) {
                Err(f) => Err(f),
                Ok(v) => match spec_eval_unary(op, v) {
                    Ok(w) => Ok(w),
                    Err(x) => Err((ConstFailure::Op(x), e.span)),
                },
            },
            ExprKind::Identifier(name) => match scopes.lookup_from(scopes.current(), name.0) {
                None => Err((ConstFailure::Undeclared, e.span)),
                Some(info) => if info.kind == SymbolKind::Const {
                    match info.def_id {
                        None => Err((ConstFailure::Undeclared, e.span)),
                        Some(d) => if d.0 >= globals.len() {
                            Err((ConstFailure::Panics, e.span))
                        } else {
                            match globals[d.0 as int] {
                                Some(v) => const_value(scopes, globals, v, depth + 1),
                                None => Err((ConstFailure::NotGlobal, e.span)),
                            }
                        },
                    }
                } else {
                    Err((ConstFailure::NotConstant(name, info.kind), e.span))
                },
            },
            ExprKind::DataInit { literal: DataLiteralKind::Scalar(inner), .. } => const_value(
                scopes,
                globals,
                *inner,
                depth + 1,
            ),
            ExprKind::Float(_) | ExprKind::String(_) | ExprKind::DataInit { .. } | ExprKind::FieldAccess { .. }
            | ExprKind::IndexAccess { .. } | ExprKind::Call { .. } | ExprKind::EnumLiteral(_) => Err(
                (ConstFailure::NotScalar, e.span),
            ),
            ExprKind::GenericInstantiation { .. } => Err((ConstFailure::GenericInstantiation, e.span)),
            _ => Err((ConstFailure::NotConstantExpression, e.span)),
        }
    }
}

/// Evaluation of `e` at `depth` reaches an operation that panics.
pub open spec fn const_value_panics(scopes: SymbolTable, globals: Seq<Option<Expr>>, e: Expr, depth: nat) -> bool {
    const_value(scopes, globals, e, depth) matches Err((ConstFailure::Panics, _))
}

/// Evaluate `e` at depth `depth` to a scalar, or give the first failure
/// and its span.
pub fn eval_const_tree(scopes: &SymbolTable, globals: &Vec<Option<Expr>>, e: &Expr, depth: u64) -> (r: Result<
    ConstScalar,
    (ConstFailure, Span),
>)
    requires
        scopes.wf(),
        !const_value_panics(*scopes, globals@, *e, depth as nat),
    ensures
        r == const_value(*scopes, globals@, *e, depth as nat),
    decreases 101 - depth,
{
    if depth > MAX_CONST_DEPTH {
        return Err((ConstFailure::TooDeep, e.span));
    }
    match &e.kind {
        ExprKind::Integer(v) => Ok(ConstScalar::Int(*v as i128)),
        ExprKind::Bool(b) => Ok(ConstScalar::Bool(*b)),
        ExprKind::Char(c) => Ok(ConstScalar::Int((*c as u32) as i128)),
        ExprKind::Binary { lhs, op, rhs } => {
            let l = match eval_const_tree(scopes, globals, lhs, depth + 1) {
                Err(f) => return Err(f),
                Ok(l) => l,
            };
            let r = match eval_const_tree(scopes, globals, rhs, depth + 1) {
                Err(f) => return Err(f),
                Ok(r) => r,
            };
            match eval_binary(*op, &l, &r) {
                Ok(v) => Ok(v),
                Err(x) => Err((ConstFailure::Op(x), e.span)),
            }
        },
        ExprKind::Unary { op, operand } => {
            let v = match eval_const_tree(scopes, globals, operand, depth + 1) {
                Err(f) => return Err(f),
                Ok(v) => v,
            };
            match eval_unary(*op, &v) {
                Ok(w) => Ok(w),
                Err(x) => Err((ConstFailure::Op(x), e.span)),
            }
        },
        ExprKind::Identifier(name) => match scopes.resolve(*name) {
            None => Err((ConstFailure::Undeclared, e.span)),
            Some(info) => {
                if info.kind == SymbolKind::Const {
                    match info.def_id {
                        None => Err((ConstFailure::Undeclared, e.span)),
                        Some(d) => match &globals[d.0 as usize] {
                            Some(v) => eval_const_tree(scopes, globals, v, depth + 1),
                            None => Err((ConstFailure::NotGlobal, e.span)),
                        },
                    }
                } else {
                    Err((ConstFailure::NotConstant(*name, info.kind), e.span))
                }
            },
        },
        ExprKind::DataInit { literal: DataLiteralKind::Scalar(inner), .. } => eval_const_tree(
            scopes,
            globals,
            inner,
            depth + 1,
        ),
        ExprKind::Float(_) | ExprKind::String(_) | ExprKind::DataInit { .. } | ExprKind::FieldAccess { .. }
        | ExprKind::IndexAccess { .. } | ExprKind::Call { .. } | ExprKind::EnumLiteral(_) => Err(
            (ConstFailure::NotScalar, e.span),
        ),
        ExprKind::GenericInstantiation { .. } => Err((ConstFailure::GenericInstantiation, e.span)),
        _ => Err((ConstFailure::NotConstantExpression, e.span)),
    }
}

/// A failure that evaluation reports as a diagnostic.
pub open spec fn is_reported(f: ConstFailure) -> bool {
    !(f is NotGlobal || f is NotScalar || f is Panics)
}

/// How a symbol of `kind` is named in messages about constants.
pub open spec fn kind_name(kind: SymbolKind) -> Seq<char> {
    match kind {
        SymbolKind::Var => "variable (`let`)"@,
        SymbolKind::Static => "static variable"@,
        SymbolKind::Function => "function"@,
        SymbolKind::Struct => "struct"@,
        _ => "symbol"@,
    }
}

/// The message of the diagnostic for failure `f`, with `names` the
/// interned texts.
pub open spec fn failure_message(names: Seq<Seq<char>>, f: ConstFailure) -> Seq<char> {
    match f {
        ConstFailure::Op(x) => const_eval_message(x),
        ConstFailure::TooDeep => "constant evaluation exceeded maximum recursion depth"@,
        ConstFailure::NotConstant(name, kind) => "`"@ + symbol_text(names, name) + "` is a "@ + kind_name(kind)
            + ", not a compile-time constant"@,
        ConstFailure::Undeclared => "use of undeclared identifier in constant expression"@,
        ConstFailure::GenericInstantiation => "generic instantiation cannot be evaluated directly as a value"@,
        _ => "expected a valid constant expression"@,
    }
}

/// The hints of the diagnostic for failure `f`.
pub open spec fn failure_hints(f: ConstFailure) -> Seq<Seq<char>> {
    match f {
        ConstFailure::TooDeep => seq!["check for circular references in your `const` declarations"@],
        ConstFailure::NotConstant(_, _) => seq!["only `const` variables can be used in constant expressions"@],
        _ => Seq::empty(),
    }
}

fn owned(s: &str) -> (r: String)
    ensures
        r@ == s@,
{
    s.to_owned()
}

/// Report failure `f` at `span` as an error with its message and hints.
fn report_failure(ctx: &mut Context, f: ConstFailure, span: Span)
    requires
        old(ctx).wf(),
        old(ctx).diagnostics@.len() < usize::MAX,
        is_reported(f),
    ensures
        final(ctx).wf(),
        diagnostic_added(
            *old(ctx),
            *final(ctx),
            DiagnosticLevel::Error,
            span,
            failure_message(old(ctx).interner@, f),
            failure_hints(f),
            Seq::empty(),
        ),
{
    let msg = match f {
        ConstFailure::Op(x) => x.message(),
        ConstFailure::TooDeep => owned("constant evaluation exceeded maximum recursion depth"),
        ConstFailure::NotConstant(name, kind) => {
            let head = concat3("`", ctx.resolve(name), "` is a ");
            concat3(head.as_str(), kind_to_string(kind), ", not a compile-time constant")
        },
        ConstFailure::Undeclared => owned("use of undeclared identifier in constant expression"),
        ConstFailure::GenericInstantiation => owned("generic instantiation cannot be evaluated directly as a value"),
        _ => owned("expected a valid constant expression"),
    };
    let b = ctx.struct_error(span, msg);
    let b = match f {
        ConstFailure::TooDeep => b.with_hint(owned("check for circular references in your `const` declarations")),
        ConstFailure::NotConstant(_, _) => b.with_hint(
            owned("only `const` variables can be used in constant expressions"),
        ),
        _ => b,
    };
    proof {
        assert(b.pending().hint_texts() =~= failure_hints(f));
    }
    b.emit(ctx);
}

/// Evaluate the constant expression `e` at depth `depth` with the names of
/// the context: its scalar value, or the failure, which is reported as an
/// error diagnostic unless it is one that the evaluator leaves to its
/// caller (no global definition, not a scalar).
pub fn eval_inner(ctx: &mut Context, globals: &Vec<Option<Expr>>, e: &Expr, depth: u64) -> (r: Result<
    ConstScalar,
    ConstFailure,
>)
    requires
        old(ctx).wf(),
        old(ctx).diagnostics@.len() < usize::MAX,
        !const_value_panics(old(ctx).scopes, globals@, *e, depth as nat),
    ensures
        final(ctx).wf(),
        match const_value(old(ctx).scopes, globals@, *e, depth as nat) {
            Ok(v) => r == Ok::<ConstScalar, ConstFailure>(v) && *final(ctx) == *old(ctx),
            Err((f, span)) => {
                &&& r == Err::<ConstScalar, ConstFailure>(f)
                &&& if is_reported(f) {
                    diagnostic_added(
                        *old(ctx),
                        *final(ctx),
                        DiagnosticLevel::Error,
                        span,
                        failure_message(old(ctx).interner@, f),
                        failure_hints(f),
                        Seq::empty(),
                    )
                } else {
                    *final(ctx) == *old(ctx)
                }
            },
        },
{
    match eval_const_tree(&ctx.scopes, globals, e, depth) {
        Ok(v) => Ok(v),
        Err((f, span)) => {
            if !(matches!(f, ConstFailure::NotGlobal) || matches!(f, ConstFailure::NotScalar)) {
                report_failure(ctx, f, span);
            }
            Err(f)
        },
    }
}

/// The unsigned value of `e` as an array length or the like: a negative
/// integer is reported ("constant expression cannot evaluate to a negative
/// number here"), a boolean too ("expected an integer constant"); a value
/// above `u64::MAX` keeps its low 64 bits.
pub fn eval_usize(ctx: &mut Context, globals: &Vec<Option<Expr>>, e: &Expr) -> (r: Result<u64, ConstFailure>)
    requires
        old(ctx).wf(),
        old(ctx).diagnostics@.len() < usize::MAX,
        !const_value_panics(old(ctx).scopes, globals@, *e, 0),
    ensures
        final(ctx).wf(),
        match const_value(old(ctx).scopes, globals@, *e, 0) {
            Ok(ConstScalar::Int(v)) => if v < 0 {
                &&& r == Err::<u64, ConstFailure>(ConstFailure::Op(ConstEvalError::NegativeWhereUnsigned))
                &&& diagnostic_added(
                    *old(ctx),
                    *final(ctx),
                    DiagnosticLevel::Error,
                    e.span,
                    const_eval_message(ConstEvalError::NegativeWhereUnsigned),
                    seq!["array lengths and similar contexts require positive integers"@],
                    Seq::empty(),
                )
            } else {
                r == Ok::<u64, ConstFailure>(v as u64) && *final(ctx) == *old(ctx)
            },
            Ok(ConstScalar::Bool(_)) => {
                &&& r == Err::<u64, ConstFailure>(ConstFailure::Op(ConstEvalError::ExpectedInteger))
                &&& diagnostic_added(
                    *old(ctx),
                    *final(ctx),
                    DiagnosticLevel::Error,
                    e.span,
                    const_eval_message(ConstEvalError::ExpectedInteger),
                    Seq::empty(),
                    Seq::empty(),
                )
            },
            Err((f, span)) => {
                &&& r == Err::<u64, ConstFailure>(f)
                &&& if is_reported(f) {
                    diagnostic_added(
                        *old(ctx),
                        *final(ctx),
                        DiagnosticLevel::Error,
                        span,
                        failure_message(old(ctx).interner@, f),
                        failure_hints(f),
                        Seq::empty(),
                    )
                } else {
                    *final(ctx) == *old(ctx)
                }
            },
        },
{
    match eval_inner(ctx, globals, e, 0) {
        Ok(ConstScalar::Int(v)) => {
            if v < 0 {
                let b = ctx.struct_error(e.span, ConstEvalError::NegativeWhereUnsigned.message());
                let b = b.with_hint(owned("array lengths and similar contexts require positive integers"));
                proof {
                    assert(b.pending().hint_texts() =~= seq!["array lengths and similar contexts require positive integers"@]);
                }
                b.emit(ctx);
                Err(ConstFailure::Op(ConstEvalError::NegativeWhereUnsigned))
            } else {
                Ok(v as u64)
            }
        },
        Ok(ConstScalar::Bool(_)) => {
            let b = ctx.struct_error(e.span, ConstEvalError::ExpectedInteger.message());
            b.emit(ctx);
            Err(ConstFailure::Op(ConstEvalError::ExpectedInteger))
        },
        Err(f) => Err(f),
    }
}

/// The signed integer value of `e`: a boolean is reported ("expected an
/// integer constant").
pub fn eval_math(ctx: &mut Context, globals: &Vec<Option<Expr>>, e: &Expr) -> (r: Result<i128, ConstFailure>)
    requires
        old(ctx).wf(),
        old(ctx).diagnostics@.len() < usize::MAX,
        !const_value_panics(old(ctx).scopes, globals@, *e, 0),
    ensures
        final(ctx).wf(),
        match const_value(old(ctx).scopes, globals@, *e, 0) {
            Ok(ConstScalar::Int(v)) => r == Ok::<i128, ConstFailure>(v) && *final(ctx) == *old(ctx),
            Ok(ConstScalar::Bool(_)) => {
                &&& r == Err::<i128, ConstFailure>(ConstFailure::Op(ConstEvalError::ExpectedInteger))
                &&& diagnostic_added(
                    *old(ctx),
                    *final(ctx),
                    DiagnosticLevel::Error,
                    e.span,
                    const_eval_message(ConstEvalError::ExpectedInteger),
                    Seq::empty(),
                    Seq::empty(),
                )
            },
            Err((f, span)) => {
                &&& r == Err::<i128, ConstFailure>(f)
                &&& if is_reported(f) {
                    diagnostic_added(
                        *old(ctx),
                        *final(ctx),
                        DiagnosticLevel::Error,
                        span,
                        failure_message(old(ctx).interner@, f),
                        failure_hints(f),
                        Seq::empty(),
                    )
                } else {
                    *final(ctx) == *old(ctx)
                }
            },
        },
{
    match eval_inner(ctx, globals, e, 0) {
        Ok(ConstScalar::Int(v)) => Ok(v),
        Ok(ConstScalar::Bool(_)) => {
            let b = ctx.struct_error(e.span, ConstEvalError::ExpectedInteger.message());
            b.emit(ctx);
            Err(ConstFailure::Op(ConstEvalError::ExpectedInteger))
        },
        Err(f) => Err(f),
    }
}

/// A `const` whose value is its own name is reported as too deep, at
/// every depth: evaluation of a circular definition stops.
pub proof fn law_self_reference_is_too_deep(scopes: SymbolTable, globals: Seq<Option<Expr>>, e: Expr, depth: nat)
    requires
        e.kind matches ExprKind::Identifier(name) && (scopes.lookup_from(scopes.current(), name.0) matches Some(info)
            && (info.kind == SymbolKind::Const && (info.def_id matches Some(d) && (d.0 < globals.len()
            && globals[d.0 as int] == Some(e))))),
    ensures
        const_value(scopes, globals, e, depth) == Err::<ConstScalar, (ConstFailure, Span)>(
            (ConstFailure::TooDeep, e.span),
        ),
    decreases 101 - depth,
{
    if depth <= MAX_CONST_DEPTH {
        law_self_reference_is_too_deep(scopes, globals, e, depth + 1);
    }
}

} // verus!
