use crate::driver::context::{diagnostic_added, Context};
use crate::driver::diagnostic::DiagnosticLevel;
use crate::parser::ast::{BinaryOperator, Expr, ExprKind, UnaryOperator};
use crate::utils::{concat3, symbol_text, text_eq, Span, SymbolId};
use vstd::prelude::*;

verus! {

// Conditions of `#[if(...)]` attributes: booleans, strings, the variables
// `os` and `arch` of the target and those defined with `-D`, combined with
// `and`, `or`, `!`, `==` and `!=`.

/// A value met while evaluating a condition.
#[derive(Debug)]
pub enum CondValue {
    Bool(bool),
    Text(String),
}

/// [`CondValue`] over mathematical strings.
pub enum CondVal {
    Bool(bool),
    Text(Seq<char>),
}

impl CondValue {
    pub open spec fn val(&self) -> CondVal {
        match *self {
            CondValue::Bool(b) => CondVal::Bool(b),
            CondValue::Text(s) => CondVal::Text(s@),
        }
    }
}

/// What a condition can read: the interned names, the target's operating
/// system and architecture, and the `-D` defines.
pub struct CondEnv {
    pub names: Seq<Seq<char>>,
    pub os: Seq<char>,
    pub arch: Seq<char>,
    pub defines: Map<Seq<char>, Seq<char>>,
}

/// The environment that `ctx` gives a condition.
pub open spec fn env_of(ctx: Context) -> CondEnv {
    CondEnv {
        names: ctx.interner@,
        os: ctx.target.os@,
        arch: ctx.target.arch@,
        defines: ctx.custom_defines.to_map(),
    }
}

/// The error reported for a condition that cannot be evaluated.
pub struct CondFault {
    pub span: Span,
    pub message: Seq<char>,
    pub hints: Seq<Seq<char>>,
}

pub open spec fn unknown_variable_message(name: Seq<char>) -> Seq<char> {
    "unknown environment variable `"@ + name + "` in compilation condition"@
}

pub open spec fn fault(span: Span, message: Seq<char>, hints: Seq<Seq<char>>) -> CondFault {
    CondFault { span, message, hints }
}

/// The value of a condition, or the error that stops its evaluation.
/// `and` and `or` look at their right side only where the left side does
/// not decide.
pub open spec fn cond_value(e: Expr, env: CondEnv) -> Result<CondVal, CondFault>
    decreases e,
{
    match e.kind {
        ExprKind::Bool(b) => Ok(CondVal::Bool(b)),
        ExprKind::String(s) => Ok(CondVal::Text(s@)),
        ExprKind::Identifier(sym) => {
            let name = symbol_text(env.names, sym);
            if name == "os"@ {
                Ok(CondVal::Text(env.os))
            } else if name == "arch"@ {
                Ok(CondVal::Text(env.arch))
            } else if env.defines.contains_key(name) {
                let v = env.defines[name];
                if v == "true"@ {
                    Ok(CondVal::Bool(true))
                } else if v == "false"@ {
                    Ok(CondVal::Bool(false))
                } else {
                    Ok(CondVal::Text(v))
                }
            } else {
                Err(
                    fault(
                        e.span,
                        unknown_variable_message(name),
                        seq![
                            "available variables: `os`, `arch`, or custom defines via CLI (e.g., `-D feature=true`)"@,
                        ],
                    ),
                )
            }
        },
        ExprKind::Unary { op: UnaryOperator::LogicalNot, operand } => match cond_value(*operand, env) {
            Err(f) => Err(f),
            Ok(CondVal::Bool(b)) => Ok(CondVal::Bool(!b)),
            Ok(CondVal::Text(_)) => Err(
                fault(operand.span, "cannot apply `!` to a non-boolean value"@, Seq::empty()),
            ),
        },
        ExprKind::Binary { lhs, op, rhs } => match cond_value(*lhs, env) {
            Err(f) => Err(f),
            Ok(left) => if op == BinaryOperator::LogicalAnd {
                if left == CondVal::Bool(false) {
                    Ok(CondVal::Bool(false))
                } else {
                    cond_value(*rhs, env)
                }
            } else if op == BinaryOperator::LogicalOr {
                if left == CondVal::Bool(true) {
                    Ok(CondVal::Bool(true))
                } else {
                    cond_value(*rhs, env)
                }
            } else {
                match cond_value(*rhs, env) {
                    Err(f) => Err(f),
                    Ok(right) => if op == BinaryOperator::Equal {
                        Ok(CondVal::Bool(left == right))
                    } else if op == BinaryOperator::NotEqual {
                        Ok(CondVal::Bool(left != right))
                    } else {
                        Err(
                            fault(
                                e.span,
                                "unsupported operator in compilation condition"@,
                                Seq::empty(),
                            ),
                        )
                    },
                }
            },
        },
        _ => Err(
            fault(
                e.span,
                "invalid expression in compilation condition"@,
                seq![
                    "conditions only support booleans, strings, `and`, `or`, `!`, `==`, and `!=`"@,
                ],
            ),
        ),
    }
}

/// `and` and `or` short-circuit: where the left side decides, the right
/// side is never looked at, so even a right side that cannot be evaluated
/// does no harm.
pub proof fn law_short_circuit(a: Expr, b: Expr, env: CondEnv, id: crate::parser::ast::NodeId, span: Span)
    ensures
        cond_value(a, env) == Ok::<CondVal, CondFault>(CondVal::Bool(false)) ==> cond_value(
            Expr {
                id,
                span,
                kind: ExprKind::Binary { lhs: Box::new(a), op: BinaryOperator::LogicalAnd, rhs: Box::new(b) },
            },
            env,
        ) == Ok::<CondVal, CondFault>(CondVal::Bool(false)),
        cond_value(a, env) == Ok::<CondVal, CondFault>(CondVal::Bool(true)) ==> cond_value(
            Expr {
                id,
                span,
                kind: ExprKind::Binary { lhs: Box::new(a), op: BinaryOperator::LogicalOr, rhs: Box::new(b) },
            },
            env,
        ) == Ok::<CondVal, CondFault>(CondVal::Bool(true)),
{
}

/// The node of `l op r`.
pub open spec fn bin_node(l: Expr, op: BinaryOperator, r: Expr, id: crate::parser::ast::NodeId, span: Span) -> Expr {
    Expr { id, span, kind: ExprKind::Binary { lhs: Box::new(l), op, rhs: Box::new(r) } }
}

/// Conditions follow boolean logic: on boolean sides `x` and `y`, `and` is
/// `x && y`, `or` is `x || y`, `==` and `!=` compare, and `!` negates;
/// `os` and `arch` name the target's operating system and architecture.
pub proof fn law_condition_logic(
    a: Expr,
    b: Expr,
    x: bool,
    y: bool,
    env: CondEnv,
    id: crate::parser::ast::NodeId,
    span: Span,
    sym: crate::utils::SymbolId,
)
    requires
        cond_value(a, env) == Ok::<CondVal, CondFault>(CondVal::Bool(x)),
        cond_value(b, env) == Ok::<CondVal, CondFault>(CondVal::Bool(y)),
    ensures
        cond_value(bin_node(a, BinaryOperator::LogicalAnd, b, id, span), env) == Ok::<CondVal, CondFault>(
            CondVal::Bool(x && y),
        ),
        cond_value(bin_node(a, BinaryOperator::LogicalOr, b, id, span), env) == Ok::<CondVal, CondFault>(
            CondVal::Bool(x || y),
        ),
        cond_value(bin_node(a, BinaryOperator::Equal, b, id, span), env) == Ok::<CondVal, CondFault>(
            CondVal::Bool(x == y),
        ),
        cond_value(bin_node(a, BinaryOperator::NotEqual, b, id, span), env) == Ok::<CondVal, CondFault>(
            CondVal::Bool(x != y),
        ),
        cond_value(
            Expr { id, span, kind: ExprKind::Unary { op: UnaryOperator::LogicalNot, operand: Box::new(a) } },
            env,
        ) == Ok::<CondVal, CondFault>(CondVal::Bool(!x)),
        symbol_text(env.names, sym) == "os"@ ==> cond_value(Expr { id, span, kind: ExprKind::Identifier(sym) }, env)
            == Ok::<CondVal, CondFault>(CondVal::Text(env.os)),
        symbol_text(env.names, sym) == "arch"@ ==> cond_value(Expr { id, span, kind: ExprKind::Identifier(sym) }, env)
            == Ok::<CondVal, CondFault>(CondVal::Text(env.arch)),
{
    if symbol_text(env.names, sym) == "arch"@ {
        reveal_strlit("arch");
        reveal_strlit("os");
        assert("arch"@.len() == 4);
        assert("os"@.len() == 2);
        assert(symbol_text(env.names, sym) != "os"@);
    }
}

/// The truth of a condition: its value, which must be a boolean.
pub open spec fn cond_holds(e: Expr, env: CondEnv) -> Result<bool, CondFault> {
    match cond_value(e, env) {
        Ok(CondVal::Bool(b)) => Ok(b),
        Ok(CondVal::Text(_)) => Err(
            fault(e.span, "condition must evaluate to a boolean value"@, Seq::empty()),
        ),
        Err(f) => Err(f),
    }
}

/// `after` is `before` with the fault of `r` reported, or unchanged where
/// there is none.
pub open spec fn reported<T>(before: Context, after: Context, r: Result<T, CondFault>) -> bool {
    match r {
        Ok(_) => after == before,
        Err(f) => diagnostic_added(
            before,
            after,
            DiagnosticLevel::Error,
            f.span,
            f.message,
            f.hints,
            Seq::empty(),
        ),
    }
}

/// Whether two condition values are equal: the same kind and the same
/// boolean or text.
fn cond_values_equal(a: &CondValue, b: &CondValue) -> (r: bool)
    ensures
        r == (a.val() == b.val()),
{
    match (a, b) {
        (CondValue::Bool(x), CondValue::Bool(y)) => *x == *y,
        (CondValue::Text(x), CondValue::Text(y)) => *x == *y,
        _ => false,
    }
}

/// Report an error with the given hints.
fn report_fault(ctx: &mut Context, span: Span, message: String, hint: Option<String>)
    requires
        old(ctx).wf(),
        old(ctx).diagnostics@.len() < usize::MAX,
    ensures
        final(ctx).wf(),
        diagnostic_added(
            *old(ctx),
            *final(ctx),
            DiagnosticLevel::Error,
            span,
            message@,
            match hint {
                Some(h) => seq![h@],
                None => Seq::empty(),
            },
            Seq::empty(),
        ),
{
    let b = ctx.struct_error(span, message);
    let b = match hint {
        Some(h) => b.with_hint(h),
        None => b,
    };
    proof {
        assert(Seq::<Seq<char>>::empty().push(hint.unwrap()@) =~= seq![hint.unwrap()@]);
    }
    let _ = b.emit(ctx);
}

/// Evaluate a condition, reporting into `ctx` the error that stops it.
pub fn eval_condition_value(ctx: &mut Context, expr: &Expr) -> (r: Result<CondValue, ()>)
    requires
        old(ctx).wf(),
        old(ctx).diagnostics@.len() < usize::MAX,
    ensures
        final(ctx).wf(),
        reported(*old(ctx), *final(ctx), cond_value(*expr, env_of(*old(ctx)))),
        match (r, cond_value(*expr, env_of(*old(ctx)))) {
            (Ok(v), Ok(w)) => v.val() == w,
            (Err(_), Err(_)) => true,
            _ => false,
        },
    decreases expr,
{
    let ghost env = env_of(*ctx);
    match &expr.kind {
        ExprKind::Bool(b) => Ok(CondValue::Bool(*b)),
        ExprKind::String(s) => Ok(CondValue::Text(s.clone())),
        ExprKind::Identifier(sym) => {
            let name = ctx.resolve(*sym);
            if text_eq(name, "os") {
                return Ok(CondValue::Text(ctx.target.os.clone()));
            }
            if text_eq(name, "arch") {
                return Ok(CondValue::Text(ctx.target.arch.clone()));
            }
            match ctx.custom_defines.get(name) {
                Some(val) => {
                    if text_eq(val.as_str(), "true") {
                        return Ok(CondValue::Bool(true));
                    }
                    if text_eq(val.as_str(), "false") {
                        return Ok(CondValue::Bool(false));
                    }
                    return Ok(CondValue::Text(val.clone()));
                },
                None => {},
            }
            let message = concat3(
                "unknown environment variable `",
                name,
                "` in compilation condition",
            );
            report_fault(
                ctx,
                expr.span,
                message,
                Some(
                    "available variables: `os`, `arch`, or custom defines via CLI (e.g., `-D feature=true`)".to_owned(),
                ),
            );
            Err(())
        },
        ExprKind::Unary { op: UnaryOperator::LogicalNot, operand } => {
            let val = eval_condition_value(ctx, operand)?;
            match val {
                CondValue::Bool(b) => Ok(CondValue::Bool(!b)),
                CondValue::Text(_) => {
                    report_fault(
                        ctx,
                        operand.span,
                        "cannot apply `!` to a non-boolean value".to_owned(),
                        None,
                    );
                    Err(())
                },
            }
        },
        ExprKind::Binary { lhs, op, rhs } => {
            let left = eval_condition_value(ctx, lhs)?;
            if *op == BinaryOperator::LogicalAnd {
                match left {
                    CondValue::Bool(false) => {
                        return Ok(CondValue::Bool(false));
                    },
                    _ => {},
                }
                return eval_condition_value(ctx, rhs);
            }
            if *op == BinaryOperator::LogicalOr {
                match left {
                    CondValue::Bool(true) => {
                        return Ok(CondValue::Bool(true));
                    },
                    _ => {},
                }
                return eval_condition_value(ctx, rhs);
            }
            let right = eval_condition_value(ctx, rhs)?;
            if *op == BinaryOperator::Equal {
                Ok(CondValue::Bool(cond_values_equal(&left, &right)))
            } else if *op == BinaryOperator::NotEqual {
                Ok(CondValue::Bool(!cond_values_equal(&left, &right)))
            } else {
                report_fault(
                    ctx,
                    expr.span,
                    "unsupported operator in compilation condition".to_owned(),
                    None,
                );
                Err(())
            }
        },
        _ => {
            report_fault(
                ctx,
                expr.span,
                "invalid expression in compilation condition".to_owned(),
                Some(
                    "conditions only support booleans, strings, `and`, `or`, `!`, `==`, and `!=`".to_owned(),
                ),
            );
            Err(())
        },
    }
}

/// Evaluate a condition that must be a boolean, reporting into `ctx` the
/// error that stops it.
pub fn eval_condition(ctx: &mut Context, expr: &Expr) -> (r: Result<bool, ()>)
    requires
        old(ctx).wf(),
        old(ctx).diagnostics@.len() < usize::MAX,
    ensures
        final(ctx).wf(),
        reported(*old(ctx), *final(ctx), cond_holds(*expr, env_of(*old(ctx)))),
        match (r, cond_holds(*expr, env_of(*old(ctx)))) {
            (Ok(b), Ok(c)) => b == c,
            (Err(_), Err(_)) => true,
            _ => false,
        },
{
    let val = eval_condition_value(ctx, expr)?;
    match val {
        CondValue::Bool(b) => Ok(b),
        CondValue::Text(_) => {
            report_fault(
                ctx,
                expr.span,
                "condition must evaluate to a boolean value".to_owned(),
                None,
            );
            Err(())
        },
    }
}

/// Whether all the conditions of an item hold: they are evaluated in order
/// up to the first that is false or cannot be evaluated.
pub open spec fn all_hold(conds: Seq<Expr>, env: CondEnv) -> Result<bool, CondFault>
    decreases conds.len(),
{
    if conds.len() == 0 {
        Ok(true)
    } else {
        match cond_holds(conds[0], env) {
            Ok(true) => all_hold(conds.drop_first(), env),
            Ok(false) => Ok(false),
            Err(f) => Err(f),
        }
    }
}

/// Whether an item with the `#[if(...)]` conditions `conds` is kept: every
/// condition holds. A condition that cannot be evaluated is reported and
/// drops the item, as a false one does.
pub fn conditions_hold(ctx: &mut Context, conds: &Vec<Expr>) -> (keep: bool)
    requires
        old(ctx).wf(),
        old(ctx).diagnostics@.len() < usize::MAX,
    ensures
        final(ctx).wf(),
        reported(*old(ctx), *final(ctx), all_hold(conds@, env_of(*old(ctx)))),
        keep == (all_hold(conds@, env_of(*old(ctx))) == Ok::<bool, CondFault>(true)),
{
    let ghost env = env_of(*ctx);
    let mut i: usize = 0;
    assert(conds@.skip(0) =~= conds@);
    while i < conds.len()
        invariant
            0 <= i <= conds.len(),
            ctx.wf(),
            old(ctx).diagnostics@.len() < usize::MAX,
            *ctx == *old(ctx),
            env == env_of(*old(ctx)),
            all_hold(conds@, env) == all_hold(conds@.skip(i as int), env),
        decreases conds.len() - i,
    {
        proof {
            assert(conds@.skip(i as int)[0] == conds@[i as int]);
            assert(conds@.skip(i as int).drop_first() =~= conds@.skip(i + 1));
        }
        match eval_condition(ctx, &conds[i]) {
            Ok(true) => {},
            Ok(false) => {
                return false;
            },
            Err(_) => {
                return false;
            },
        }
        i = i + 1;
    }
    proof {
        assert(conds@.skip(i as int) =~= Seq::<Expr>::empty());
    }
    true
}

} // verus!
