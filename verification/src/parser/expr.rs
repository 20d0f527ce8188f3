use super::ast::{AssignmentOperator, BinaryOperator, DataLiteralKind, Expr, ExprKind, NodeId, UnaryOperator};
use super::literal::{parse_int_literal, spec_int_literal};
use super::token::{Token, TokenType};
use super::Precedence;
use crate::driver::context::Context;
use crate::driver::diagnostic::DiagnosticLevel;
use crate::utils::{concat3, interned_str, Span, SymbolId};
use vstd::prelude::*;

verus! {

// Expressions by precedence climbing: a prefix form, then every infix or
// postfix operator that binds more strongly than the level the caller
// asked for. Read here: integer literals, names, `break`, `continue`,
// `undef`, `self`, unary and binary operators, parentheses, enum literals,
// `return`, `if`, `for`, `let`/`const`/`static` declarations, the data
// literals `.{ v }` and `.{ v; n }`, field access, dereference,
// address-of, assignment, indexing and slicing. The forms whose nodes hold
// a list or a type (blocks, `switch`, `match`, the other data literals,
// calls, casts, generic instantiation, intrinsics) and the literals that
// are not integers are left to the parser of the whole language: this one
// stops where they begin, without a diagnostic.

/// A token with its text in the source, as the lexer hands it out.
#[derive(Debug, Clone)]
pub struct Lexeme {
    pub token: Token,
    pub text: String,
}

/// Where parsing stands: the interned names and the next node id.
pub struct ParseState {
    pub names: Seq<Seq<char>>,
    pub next_id: int,
}

/// Why parsing stopped.
pub enum ParseStop {
    /// A syntax error, reported with this message and these hints.
    Error { span: Span, message: Seq<char>, hints: Seq<Seq<char>> },
    /// A form that this parser does not read begins here.
    Unread(Span),
}

/// The outcome of parsing from a position.
pub enum Parsed {
    /// An expression, the position after it, and the state after it.
    Done { expr: Expr, pos: int, st: ParseState },
    /// Parsing stopped, in this state.
    Stopped { why: ParseStop, st: ParseState },
}

/// The outcome of parsing an expression that may be left out.
pub enum OptParsed {
    /// The expression, if it was there, and the position and state after it.
    Done { expr: Option<Expr>, pos: int, st: ParseState },
    /// Parsing stopped, in this state.
    Stopped { why: ParseStop, st: ParseState },
}

/// How strongly a precedence level binds, weakest first.
pub open spec fn prec_rank(p: Precedence) -> nat {
    match p {
        Precedence::Lowest => 0,
        Precedence::Assignment => 1,
        Precedence::LogicalOr => 2,
        Precedence::LogicalAnd => 3,
        Precedence::Equality => 4,
        Precedence::Comparison => 5,
        Precedence::Shift => 6,
        Precedence::Term => 7,
        Precedence::Factor => 8,
        Precedence::Unary => 9,
        Precedence::Cast => 10,
        Precedence::Call => 11,
    }
}

fn rank(p: Precedence) -> (r: u8)
    ensures
        r == prec_rank(p),
{
    match p {
        Precedence::Lowest => 0,
        Precedence::Assignment => 1,
        Precedence::LogicalOr => 2,
        Precedence::LogicalAnd => 3,
        Precedence::Equality => 4,
        Precedence::Comparison => 5,
        Precedence::Shift => 6,
        Precedence::Term => 7,
        Precedence::Factor => 8,
        Precedence::Unary => 9,
        Precedence::Cast => 10,
        Precedence::Call => 11,
    }
}

/// The binary operator that `t` spells, if any.
pub open spec fn binary_of(t: TokenType) -> Option<BinaryOperator> {
    if BinaryOperator::is_token(t) {
        Some(choose|op: BinaryOperator| op.token() == t)
    } else {
        None
    }
}

/// The assignment operator that `t` spells, if any.
pub open spec fn assignment_of(t: TokenType) -> Option<AssignmentOperator> {
    if AssignmentOperator::is_token(t) {
        Some(choose|op: AssignmentOperator| op.token() == t)
    } else {
        None
    }
}

/// The unary operator that a prefix token spells, if any.
pub open spec fn prefix_operator(t: TokenType) -> Option<UnaryOperator> {
    match t {
        TokenType::Minus => Some(UnaryOperator::Negate),
        TokenType::Bang => Some(UnaryOperator::LogicalNot),
        TokenType::Tilde => Some(UnaryOperator::BitwiseNot),
        TokenType::Hash => Some(UnaryOperator::LengthOf),
        _ => None,
    }
}

/// The tokens that begin a form this parser leaves to the parser of the
/// whole language.
pub open spec fn begins_unread_prefix(t: TokenType) -> bool {
    match t {
        TokenType::FloatLiteral | TokenType::StringLiteral | TokenType::CharLiteral | TokenType::Switch
        | TokenType::Match | TokenType::LBrace | TokenType::At | TokenType::Mut | TokenType::LBracket
        | TokenType::Star | TokenType::Caret => true,
        _ => false,
    }
}

/// The infix and postfix tokens this parser leaves to the parser of the
/// whole language.
pub open spec fn is_unread_infix(t: TokenType) -> bool {
    match t {
        TokenType::LParen | TokenType::As | TokenType::LBracket | TokenType::DotLBrace => true,
        _ => false,
    }
}

/// A node with the next id of `st`.
pub open spec fn node(st: ParseState, span: Span, kind: ExprKind) -> Expr {
    Expr { id: NodeId(st.next_id as u32), span, kind }
}

/// `st` with one more node id handed out.
pub open spec fn bump(st: ParseState) -> ParseState {
    ParseState { names: st.names, next_id: st.next_id + 1 }
}

/// `st` after interning `text`, and the symbol of `text`.
pub open spec fn intern_in(st: ParseState, text: Seq<char>) -> (ParseState, SymbolId) {
    let (names, i) = interned_str(st.names, text);
    (ParseState { names, next_id: st.next_id }, SymbolId(i as u32))
}

/// The span from the start of `a` to the end of `b`.
pub open spec fn join(a: Span, b: Span) -> Span {
    Span { start: a.start, end: b.end }
}

/// The error that `expect` reports when `found` stands where another
/// token should: `head` names the token wanted (``expected `RParen`,
/// found ` ``), the text found follows.
pub open spec fn expected_error(head: Seq<char>, found: Lexeme, hints: Seq<Seq<char>>) -> ParseStop {
    ParseStop::Error { span: found.token.span, message: head + found.text@ + "`"@, hints }
}

/// Parse an expression at `pos` that binds more strongly than `prec`.
pub open spec fn parse_expr_spec(ls: Seq<Lexeme>, pos: int, prec: Precedence, st: ParseState) -> Parsed
    decreases ls.len() - pos, 2int,
{
    if !(0 <= pos < ls.len()) {
        Parsed::Stopped { why: ParseStop::Unread(Span { start: 0, end: 0 }), st }
    } else {
        match parse_prefix_spec(ls, pos, st) {
            Parsed::Done { expr, pos: p, st: s } => if pos < p < ls.len() {
                infix_loop_spec(ls, p, prec, expr, s)
            } else {
                Parsed::Stopped { why: ParseStop::Unread(expr.span), st: s }
            },
            stopped => stopped,
        }
    }
}

/// Parse the prefix form that begins at `pos`.
pub open spec fn parse_prefix_spec(ls: Seq<Lexeme>, pos: int, st: ParseState) -> Parsed
    decreases ls.len() - pos, 1int,
{
    if !(0 <= pos < ls.len()) {
        Parsed::Stopped { why: ParseStop::Unread(Span { start: 0, end: 0 }), st }
    } else {
        let t = ls[pos];
        let span = t.token.span;
        let more = pos + 1 < ls.len();
        match t.token.tag {
            TokenType::IntLiteral => match spec_int_literal(t.text@) {
                Some(v) => Parsed::Done { expr: node(st, span, ExprKind::Integer(v)), pos: pos + 1, st: bump(st) },
                None => Parsed::Stopped {
                    why: ParseStop::Error { span, message: "Invalid integer literal: "@ + t.text@, hints: Seq::empty() },
                    st,
                },
            },
            TokenType::Identifier => {
                let (s, sym) = intern_in(st, t.text@);
                Parsed::Done { expr: node(s, span, ExprKind::Identifier(sym)), pos: pos + 1, st: bump(s) }
            },
            TokenType::Break => Parsed::Done { expr: node(st, span, ExprKind::Break), pos: pos + 1, st: bump(st) },
            TokenType::Continue => Parsed::Done {
                expr: node(st, span, ExprKind::Continue),
                pos: pos + 1,
                st: bump(st),
            },
            TokenType::Undef => Parsed::Done { expr: node(st, span, ExprKind::Undef), pos: pos + 1, st: bump(st) },
            TokenType::SelfValue => Parsed::Done {
                expr: node(st, span, ExprKind::SelfValue),
                pos: pos + 1,
                st: bump(st),
            },
            TokenType::Minus | TokenType::Bang | TokenType::Tilde | TokenType::Hash => if more {
                match parse_expr_spec(ls, pos + 1, Precedence::Unary, st) {
                    Parsed::Done { expr: operand, pos: p, st: s } => Parsed::Done {
                        expr: node(
                            s,
                            join(span, operand.span),
                            ExprKind::Unary { op: prefix_operator(t.token.tag).unwrap(), operand: Box::new(operand) },
                        ),
                        pos: p,
                        st: bump(s),
                    },
                    stopped => stopped,
                }
            } else {
                Parsed::Stopped { why: ParseStop::Unread(span), st }
            },
            TokenType::LParen => if more {
                match parse_expr_spec(ls, pos + 1, Precedence::Lowest, st) {
                    Parsed::Done { expr: inner, pos: p, st: s } => if 0 <= p < ls.len() && ls[p].token.tag
                        == TokenType::RParen {
                        Parsed::Done {
                            expr: Expr { id: inner.id, span: join(span, ls[p].token.span), kind: inner.kind },
                            pos: p + 1,
                            st: s,
                        }
                    } else if 0 <= p < ls.len() {
                        Parsed::Stopped {
                            why: expected_error("expected `RParen`, found `"@, ls[p], seq!["unclosed parenthesis"@]),
                            st: s,
                        }
                    } else {
                        Parsed::Stopped { why: ParseStop::Unread(span), st: s }
                    },
                    stopped => stopped,
                }
            } else {
                Parsed::Stopped { why: ParseStop::Unread(span), st }
            },
            TokenType::Dot => if more && ls[pos + 1].token.tag == TokenType::Identifier {
                let (s, sym) = intern_in(st, ls[pos + 1].text@);
                Parsed::Done {
                    expr: node(s, join(span, ls[pos + 1].token.span), ExprKind::EnumLiteral(sym)),
                    pos: pos + 2,
                    st: bump(s),
                }
            } else {
                Parsed::Stopped {
                    why: ParseStop::Error {
                        span,
                        message: "Unexpected '.' at start of expression"@,
                        hints: Seq::empty(),
                    },
                    st,
                }
            },
            TokenType::Return => return_spec(ls, pos, st),
            TokenType::For => for_spec(ls, pos, st),
            TokenType::DotLBrace => data_init_spec(ls, pos, st),
            TokenType::If => if_spec(ls, pos, st),
            TokenType::Let | TokenType::Const | TokenType::Static => decl_spec(ls, pos, st),
            tag => if begins_unread_prefix(tag) {
                Parsed::Stopped { why: ParseStop::Unread(span), st }
            } else {
                Parsed::Stopped {
                    why: ParseStop::Error {
                        span,
                        message: "Expected expression, found '"@ + t.text@ + "'"@,
                        hints: Seq::empty(),
                    },
                    st,
                }
            },
        }
    }
}

/// The tokens after which `return` has no value.
pub open spec fn ends_return(t: TokenType) -> bool {
    match t {
        TokenType::Semicolon | TokenType::RBrace | TokenType::Else | TokenType::RParen | TokenType::RBracket
        | TokenType::Comma | TokenType::Eof => true,
        _ => false,
    }
}

/// `return`, with a value unless the next token ends it.
pub open spec fn return_spec(ls: Seq<Lexeme>, pos: int, st: ParseState) -> Parsed
    decreases ls.len() - pos, 0int,
{
    if !(0 <= pos && pos + 1 < ls.len()) {
        Parsed::Stopped { why: ParseStop::Unread(Span { start: 0, end: 0 }), st }
    } else {
        let span = ls[pos].token.span;
        if ends_return(ls[pos + 1].token.tag) {
            Parsed::Done { expr: node(st, span, ExprKind::Return(None)), pos: pos + 1, st: bump(st) }
        } else {
            match parse_expr_spec(ls, pos + 1, Precedence::Lowest, st) {
                Parsed::Done { expr: v, pos: p, st: s } => Parsed::Done {
                    expr: node(s, span, ExprKind::Return(Some(Box::new(v)))),
                    pos: p,
                    st: bump(s),
                },
                stopped => stopped,
            }
        }
    }
}

/// `if (cond) then` with an optional `else` branch.
pub open spec fn if_spec(ls: Seq<Lexeme>, pos: int, st: ParseState) -> Parsed
    decreases ls.len() - pos, 0int,
{
    if !(0 <= pos && pos + 1 < ls.len()) {
        Parsed::Stopped { why: ParseStop::Unread(Span { start: 0, end: 0 }), st }
    } else if ls[pos + 1].token.tag != TokenType::LParen {
        Parsed::Stopped { why: expected_error("expected `LParen`, found `"@, ls[pos + 1], Seq::empty()), st }
    } else if pos + 2 >= ls.len() {
        Parsed::Stopped { why: ParseStop::Unread(Span { start: 0, end: 0 }), st }
    } else {
        let span = ls[pos].token.span;
        match parse_expr_spec(ls, pos + 2, Precedence::Lowest, st) {
            Parsed::Done { expr: cond, pos: p1, st: s1 } => if !(pos < p1 < ls.len()) {
                Parsed::Stopped { why: ParseStop::Unread(span), st: s1 }
            } else if ls[p1].token.tag != TokenType::RParen {
                Parsed::Stopped {
                    why: expected_error("expected `RParen`, found `"@, ls[p1], seq!["unclosed parenthesis"@]),
                    st: s1,
                }
            } else if p1 + 1 >= ls.len() {
                Parsed::Stopped { why: ParseStop::Unread(span), st: s1 }
            } else {
                match parse_expr_spec(ls, p1 + 1, Precedence::Lowest, s1) {
                    Parsed::Done { expr: then_branch, pos: p2, st: s2 } => if !(pos < p2 < ls.len()) {
                        Parsed::Stopped { why: ParseStop::Unread(span), st: s2 }
                    } else if ls[p2].token.tag == TokenType::Else && p2 + 1 < ls.len() {
                        match parse_expr_spec(ls, p2 + 1, Precedence::Lowest, s2) {
                            Parsed::Done { expr: else_branch, pos: p3, st: s3 } => Parsed::Done {
                                expr: node(
                                    s3,
                                    join(span, else_branch.span),
                                    ExprKind::If {
                                        cond: Box::new(cond),
                                        then_branch: Box::new(then_branch),
                                        else_branch: Some(Box::new(else_branch)),
                                    },
                                ),
                                pos: p3,
                                st: bump(s3),
                            },
                            stopped => stopped,
                        }
                    } else {
                        Parsed::Done {
                            expr: node(
                                s2,
                                join(span, then_branch.span),
                                ExprKind::If { cond: Box::new(cond), then_branch: Box::new(then_branch), else_branch: None },
                            ),
                            pos: p2,
                            st: bump(s2),
                        }
                    },
                    stopped => stopped,
                }
            },
            stopped => stopped,
        }
    }
}

/// `let name = init`, `const name = init` (both `Let`) or
/// `static name = init`. A type written after the name (`let x: T`) is
/// left to the parser of the whole language.
pub open spec fn decl_spec(ls: Seq<Lexeme>, pos: int, st: ParseState) -> Parsed
    decreases ls.len() - pos, 0int,
{
    if !(0 <= pos && pos + 1 < ls.len()) {
        Parsed::Stopped { why: ParseStop::Unread(Span { start: 0, end: 0 }), st }
    } else if ls[pos + 1].token.tag != TokenType::Identifier {
        Parsed::Stopped { why: expected_error("expected `Identifier`, found `"@, ls[pos + 1], Seq::empty()), st }
    } else if pos + 2 >= ls.len() {
        Parsed::Stopped { why: ParseStop::Unread(Span { start: 0, end: 0 }), st }
    } else {
        let (s0, name) = intern_in(st, ls[pos + 1].text@);
        let t = ls[pos + 2];
        if t.token.tag == TokenType::Colon {
            Parsed::Stopped { why: ParseStop::Unread(t.token.span), st: s0 }
        } else if t.token.tag != TokenType::Assign || pos + 3 >= ls.len() {
            Parsed::Stopped { why: expected_error("expected `Assign`, found `"@, t, Seq::empty()), st: s0 }
        } else {
            match parse_expr_spec(ls, pos + 3, Precedence::Lowest, s0) {
                Parsed::Done { expr: init, pos: p, st: s } => {
                    let span = join(ls[pos].token.span, init.span);
                    let kind = if ls[pos].token.tag == TokenType::Static {
                        ExprKind::Static { name, init: Box::new(init) }
                    } else {
                        ExprKind::Let { name, init: Box::new(init) }
                    };
                    Parsed::Done { expr: node(s, span, kind), pos: p, st: bump(s) }
                },
                stopped => stopped,
            }
        }
    }
}

/// An expression at `pos`, or none where the token there is `stop`.
pub open spec fn opt_expr_spec(ls: Seq<Lexeme>, pos: int, stop: TokenType, st: ParseState) -> OptParsed
    decreases ls.len() - pos, 3int,
{
    if !(0 <= pos < ls.len()) {
        OptParsed::Stopped { why: ParseStop::Unread(Span { start: 0, end: 0 }), st }
    } else if ls[pos].token.tag == stop {
        OptParsed::Done { expr: None, pos, st }
    } else {
        match parse_expr_spec(ls, pos, Precedence::Lowest, st) {
            Parsed::Done { expr, pos: p, st: s } => OptParsed::Done { expr: Some(expr), pos: p, st: s },
            Parsed::Stopped { why, st: s } => OptParsed::Stopped { why, st: s },
        }
    }
}

/// The error of `expect` for a missing `;`.
pub open spec fn semicolon_error(found: Lexeme) -> ParseStop {
    expected_error("expected `Semicolon`, found `"@, found, seq!["consider adding a `;` here"@])
}

/// `for (init; cond; post) body`, each of the three parts optional.
pub open spec fn for_spec(ls: Seq<Lexeme>, pos: int, st: ParseState) -> Parsed
    decreases ls.len() - pos, 0int,
{
    if !(0 <= pos && pos + 1 < ls.len()) {
        Parsed::Stopped { why: ParseStop::Unread(Span { start: 0, end: 0 }), st }
    } else if ls[pos + 1].token.tag != TokenType::LParen {
        Parsed::Stopped { why: expected_error("expected `LParen`, found `"@, ls[pos + 1], Seq::empty()), st }
    } else {
        let span = ls[pos].token.span;
        match opt_expr_spec(ls, pos + 2, TokenType::Semicolon, st) {
            OptParsed::Done { expr: init, pos: p1, st: s1 } => if !(pos < p1 < ls.len()) {
                Parsed::Stopped { why: ParseStop::Unread(span), st: s1 }
            } else if ls[p1].token.tag != TokenType::Semicolon {
                Parsed::Stopped { why: semicolon_error(ls[p1]), st: s1 }
            } else {
                match opt_expr_spec(ls, p1 + 1, TokenType::Semicolon, s1) {
                    OptParsed::Done { expr: cond, pos: p2, st: s2 } => if !(p1 < p2 < ls.len()) {
                        Parsed::Stopped { why: ParseStop::Unread(span), st: s2 }
                    } else if ls[p2].token.tag != TokenType::Semicolon {
                        Parsed::Stopped { why: semicolon_error(ls[p2]), st: s2 }
                    } else {
                        match opt_expr_spec(ls, p2 + 1, TokenType::RParen, s2) {
                            OptParsed::Done { expr: post, pos: p3, st: s3 } => if !(p2 < p3 < ls.len()) {
                                Parsed::Stopped { why: ParseStop::Unread(span), st: s3 }
                            } else if ls[p3].token.tag != TokenType::RParen {
                                Parsed::Stopped {
                                    why: expected_error(
                                        "expected `RParen`, found `"@,
                                        ls[p3],
                                        seq!["unclosed parenthesis"@],
                                    ),
                                    st: s3,
                                }
                            } else if p3 + 1 >= ls.len() {
                                Parsed::Stopped { why: ParseStop::Unread(span), st: s3 }
                            } else {
                                match parse_expr_spec(ls, p3 + 1, Precedence::Lowest, s3) {
                                    Parsed::Done { expr: body, pos: p4, st: s4 } => Parsed::Done {
                                        expr: node(
                                            s4,
                                            join(span, body.span),
                                            ExprKind::For {
                                                init: opt_box(init),
                                                cond: opt_box(cond),
                                                post: opt_box(post),
                                                body: Box::new(body),
                                            },
                                        ),
                                        pos: p4,
                                        st: bump(s4),
                                    },
                                    stopped => stopped,
                                }
                            },
                            OptParsed::Stopped { why, st: s } => Parsed::Stopped { why, st: s },
                        }
                    },
                    OptParsed::Stopped { why, st: s } => Parsed::Stopped { why, st: s },
                }
            },
            OptParsed::Stopped { why, st: s } => Parsed::Stopped { why, st: s },
        }
    }
}

/// A boxed optional expression.
pub open spec fn opt_box(e: Option<Expr>) -> Option<Box<Expr>> {
    match e {
        Some(x) => Some(Box::new(x)),
        None => None,
    }
}

/// The node of `left.[ ... ]` closed by the token at `close`: an index
/// where no range was written, a slice otherwise.
pub open spec fn index_node(
    ls: Seq<Lexeme>,
    left: Expr,
    start: Option<Expr>,
    end: Option<Expr>,
    is_range: bool,
    is_inclusive: bool,
    close: int,
    st: ParseState,
) -> Parsed {
    if !(0 <= close < ls.len()) {
        Parsed::Stopped { why: ParseStop::Unread(left.span), st }
    } else if ls[close].token.tag != TokenType::RBracket {
        Parsed::Stopped { why: expected_error("expected `RBracket`, found `"@, ls[close], Seq::empty()), st }
    } else {
        let span = join(left.span, ls[close].token.span);
        if is_range {
            Parsed::Done {
                expr: node(
                    st,
                    span,
                    ExprKind::SliceOp { lhs: Box::new(left), start: opt_box(start), end: opt_box(end), is_inclusive },
                ),
                pos: close + 1,
                st: bump(st),
            }
        } else {
            Parsed::Done {
                expr: node(st, span, ExprKind::IndexAccess { lhs: Box::new(left), index: Box::new(start.unwrap()) }),
                pos: close + 1,
                st: bump(st),
            }
        }
    }
}

/// `left.[i]`, `left.[a..b]`, `left.[a..=b]`, with `a` and (for `..`) `b`
/// optional; the `.[` is at `pos`.
pub open spec fn index_spec(ls: Seq<Lexeme>, pos: int, left: Expr, st: ParseState) -> Parsed
    decreases ls.len() - pos - 1, 4int,
{
    if !(0 <= pos && pos + 1 < ls.len()) {
        Parsed::Stopped { why: ParseStop::Unread(left.span), st }
    } else if ls[pos + 1].token.tag == TokenType::DotDot && pos + 2 < ls.len() {
        match opt_expr_spec(ls, pos + 2, TokenType::RBracket, st) {
            OptParsed::Done { expr: end, pos: p, st: s } => if pos < p {
                index_node(ls, left, None, end, true, false, p, s)
            } else {
                Parsed::Stopped { why: ParseStop::Unread(left.span), st: s }
            },
            OptParsed::Stopped { why, st: s } => Parsed::Stopped { why, st: s },
        }
    } else {
        match parse_expr_spec(ls, pos + 1, Precedence::Lowest, st) {
            Parsed::Done { expr: start, pos: p, st: s } => if !(pos < p && p + 1 < ls.len()) {
                index_node(ls, left, Some(start), None, false, false, p, s)
            } else if ls[p].token.tag == TokenType::DotDot {
                match opt_expr_spec(ls, p + 1, TokenType::RBracket, s) {
                    OptParsed::Done { expr: end, pos: q, st: s2 } => index_node(
                        ls,
                        left,
                        Some(start),
                        end,
                        true,
                        false,
                        q,
                        s2,
                    ),
                    OptParsed::Stopped { why, st: s2 } => Parsed::Stopped { why, st: s2 },
                }
            } else if ls[p].token.tag == TokenType::DotDotEqual {
                match parse_expr_spec(ls, p + 1, Precedence::Lowest, s) {
                    Parsed::Done { expr: end, pos: q, st: s2 } => index_node(
                        ls,
                        left,
                        Some(start),
                        Some(end),
                        true,
                        true,
                        q,
                        s2,
                    ),
                    stopped => stopped,
                }
            } else {
                index_node(ls, left, Some(start), None, false, false, p, s)
            },
            stopped => stopped,
        }
    }
}

/// The node of `.{ ... }` with the literal `literal`, closed by the `}`
/// at `close`.
pub open spec fn data_node(ls: Seq<Lexeme>, pos: int, literal: DataLiteralKind, close: int, st: ParseState) -> Parsed {
    if !(0 <= close < ls.len()) {
        Parsed::Stopped { why: ParseStop::Unread(ls[pos].token.span), st }
    } else if ls[close].token.tag != TokenType::RBrace {
        Parsed::Stopped { why: expected_error("expected `RBrace`, found `"@, ls[close], seq!["unclosed block"@]), st }
    } else {
        Parsed::Done {
            expr: node(
                st,
                join(ls[pos].token.span, ls[close].token.span),
                ExprKind::DataInit { type_node: None, literal },
            ),
            pos: close + 1,
            st: bump(st),
        }
    }
}

/// `.{ v }` and `.{ v; n }`; the empty, struct (`.{ x: 1 }`) and list
/// (`.{ 1, 2 }`) forms are left to the parser of the whole language.
pub open spec fn data_init_spec(ls: Seq<Lexeme>, pos: int, st: ParseState) -> Parsed
    decreases ls.len() - pos, 0int,
{
    if !(0 <= pos && pos + 1 < ls.len()) {
        Parsed::Stopped { why: ParseStop::Unread(Span { start: 0, end: 0 }), st }
    } else if ls[pos + 1].token.tag == TokenType::RBrace || (ls[pos + 1].token.tag == TokenType::Identifier
        && pos + 2 < ls.len() && ls[pos + 2].token.tag == TokenType::Colon) {
        Parsed::Stopped { why: ParseStop::Unread(ls[pos].token.span), st }
    } else {
        match parse_expr_spec(ls, pos + 1, Precedence::Lowest, st) {
            Parsed::Done { expr: first, pos: p, st: s } => if !(pos < p < ls.len()) {
                Parsed::Stopped { why: ParseStop::Unread(ls[pos].token.span), st: s }
            } else if ls[p].token.tag == TokenType::Semicolon && p + 1 < ls.len() {
                match parse_expr_spec(ls, p + 1, Precedence::Lowest, s) {
                    Parsed::Done { expr: count, pos: q, st: s2 } => data_node(
                        ls,
                        pos,
                        DataLiteralKind::Repeat { value: Box::new(first), count: Box::new(count) },
                        q,
                        s2,
                    ),
                    stopped => stopped,
                }
            } else if ls[p].token.tag == TokenType::Comma {
                Parsed::Stopped { why: ParseStop::Unread(ls[pos].token.span), st: s }
            } else {
                data_node(ls, pos, DataLiteralKind::Scalar(Box::new(first)), p, s)
            },
            stopped => stopped,
        }
    }
}

/// Apply the infix or postfix operator at `pos` to `left`.
pub open spec fn parse_infix_spec(ls: Seq<Lexeme>, pos: int, left: Expr, st: ParseState) -> Parsed
    decreases ls.len() - pos - 1, 5int,
{
    if !(0 <= pos && pos + 1 < ls.len()) {
        Parsed::Stopped { why: ParseStop::Unread(left.span), st }
    } else {
        let t = ls[pos];
        let tag = t.token.tag;
        match binary_of(tag) {
            Some(op) => match parse_expr_spec(ls, pos + 1, Precedence::of_token(tag), st) {
                Parsed::Done { expr: right, pos: p, st: s } => Parsed::Done {
                    expr: node(
                        s,
                        join(left.span, right.span),
                        ExprKind::Binary { lhs: Box::new(left), op, rhs: Box::new(right) },
                    ),
                    pos: p,
                    st: bump(s),
                },
                stopped => stopped,
            },
            None => match assignment_of(tag) {
                Some(op) => match parse_expr_spec(ls, pos + 1, Precedence::Lowest, st) {
                    Parsed::Done { expr: right, pos: p, st: s } => Parsed::Done {
                        expr: node(
                            s,
                            join(left.span, right.span),
                            ExprKind::Assign { lhs: Box::new(left), op, rhs: Box::new(right) },
                        ),
                        pos: p,
                        st: bump(s),
                    },
                    stopped => stopped,
                },
                None => if tag == TokenType::DotStar {
                    Parsed::Done {
                        expr: node(
                            st,
                            join(left.span, t.token.span),
                            ExprKind::Unary { op: UnaryOperator::PointerDeRef, operand: Box::new(left) },
                        ),
                        pos: pos + 1,
                        st: bump(st),
                    }
                } else if tag == TokenType::DotAmpersand {
                    Parsed::Done {
                        expr: node(
                            st,
                            join(left.span, t.token.span),
                            ExprKind::Unary { op: UnaryOperator::AddressOf, operand: Box::new(left) },
                        ),
                        pos: pos + 1,
                        st: bump(st),
                    }
                } else if tag == TokenType::Dot {
                    let f = ls[pos + 1];
                    if f.token.tag == TokenType::Identifier {
                        let (s, sym) = intern_in(st, f.text@);
                        Parsed::Done {
                            expr: node(
                                s,
                                join(left.span, f.token.span),
                                ExprKind::FieldAccess { lhs: Box::new(left), field: sym },
                            ),
                            pos: pos + 2,
                            st: bump(s),
                        }
                    } else {
                        Parsed::Stopped { why: expected_error("expected `Identifier`, found `"@, f, Seq::empty()), st }
                    }
                } else if tag == TokenType::DotLBracket {
                    index_spec(ls, pos, left, st)
                } else if tag == TokenType::Bang {
                    Parsed::Stopped {
                        why: ParseStop::Error {
                            span: t.token.span,
                            message: "Unexpected infix token Bang"@,
                            hints: Seq::empty(),
                        },
                        st,
                    }
                } else {
                    Parsed::Stopped { why: ParseStop::Unread(t.token.span), st }
                },
            },
        }
    }
}

/// Apply operators to `left` while the token at `pos` binds more strongly
/// than `prec`.
pub open spec fn infix_loop_spec(ls: Seq<Lexeme>, pos: int, prec: Precedence, left: Expr, st: ParseState) -> Parsed
    decreases ls.len() - pos, 0int,
{
    if !(0 <= pos < ls.len()) {
        Parsed::Stopped { why: ParseStop::Unread(left.span), st }
    } else if prec_rank(prec) < prec_rank(Precedence::of_token(ls[pos].token.tag)) && pos + 1 < ls.len() {
        match parse_infix_spec(ls, pos, left, st) {
            Parsed::Done { expr, pos: p, st: s } => if pos < p < ls.len() {
                infix_loop_spec(ls, p, prec, expr, s)
            } else {
                Parsed::Stopped { why: ParseStop::Unread(expr.span), st: s }
            },
            stopped => stopped,
        }
    } else {
        Parsed::Done { expr: left, pos, st }
    }
}

/// The parsing state that `ctx` stands in.
pub open spec fn state_of(ctx: Context) -> ParseState {
    ParseState { names: ctx.interner@, next_id: ctx.next_node_id as int }
}

/// `after` is `before` in parsing state `st`, with the error of `why`
/// reported if it is one; nothing else differs.
pub open spec fn parse_effect(before: Context, after: Context, st: ParseState, why: Option<ParseStop>) -> bool {
    &&& after.interner@ == st.names
    &&& after.next_node_id == st.next_id
    &&& after.type_registry == before.type_registry
    &&& after.scopes == before.scopes
    &&& after.target == before.target
    &&& after.custom_defines == before.custom_defines
    &&& after.module_aliases == before.module_aliases
    &&& after.use_color == before.use_color
    &&& match why {
        Some(ParseStop::Error { span, message, hints }) => {
            let n = before.diagnostics@.len();
            &&& after.diagnostics@.len() == n + 1
            &&& after.diagnostics@.take(n as int) == before.diagnostics@
            &&& after.diagnostics@[n as int].level == DiagnosticLevel::Error
            &&& after.diagnostics@[n as int].primary_span == span
            &&& after.diagnostics@[n as int].message@ == message
            &&& after.diagnostics@[n as int].hint_texts() == hints
            &&& after.diagnostics@[n as int].related() == Seq::<(Span, Seq<char>)>::empty()
            &&& after.error_count == before.error_count + 1
        },
        _ => after.diagnostics == before.diagnostics && after.error_count == before.error_count,
    }
}

/// The result `r` of parsing from `start`, and the context `after` it,
/// are the outcome `p`.
pub open spec fn parse_agrees(before: Context, after: Context, r: Result<(Expr, usize), ()>, p: Parsed) -> bool {
    match p {
        Parsed::Done { expr, pos, st } => {
            &&& r matches Ok((e, q)) && e == expr && q == pos
            &&& parse_effect(before, after, st, None)
        },
        Parsed::Stopped { why, st } => r is Err && parse_effect(before, after, st, Some(why)),
    }
}

/// The token list a parse runs over: it ends with the end of input.
pub open spec fn lexemes_ok(ls: Seq<Lexeme>) -> bool {
    ls.len() >= 1 && ls.last().token.tag == TokenType::Eof
}

/// Room to parse from `pos`: every token left may intern one name and
/// make one node.
pub open spec fn room(ctx: Context, ls: Seq<Lexeme>, pos: int) -> bool {
    &&& ctx.wf()
    &&& ctx.interner@.len() + (ls.len() - pos) < u32::MAX
    &&& ctx.next_node_id + (ls.len() - pos) < u32::MAX
    &&& ctx.diagnostics@.len() < usize::MAX
}

/// A successful parse from `pos` ends after it, grows the interner and
/// the node ids by at most the tokens it read.
pub open spec fn progress(before: Context, after: Context, r: Result<(Expr, usize), ()>, ls: Seq<Lexeme>, pos: int) -> bool {
    r matches Ok((_, q)) ==> {
        &&& pos < q < ls.len()
        &&& after.interner@.len() <= before.interner@.len() + (q - pos)
        &&& after.next_node_id <= before.next_node_id + (q - pos)
    }
}

fn binary_token(t: TokenType) -> (r: Option<BinaryOperator>)
    ensures
        r == binary_of(t),
{
    let r = match t {
        TokenType::Plus => Some(BinaryOperator::Add),
        TokenType::Minus => Some(BinaryOperator::Subtract),
        TokenType::Star => Some(BinaryOperator::Multiply),
        TokenType::Slash => Some(BinaryOperator::Divide),
        TokenType::Percent => Some(BinaryOperator::Modulo),
        TokenType::EqualEqual => Some(BinaryOperator::Equal),
        TokenType::NotEqual => Some(BinaryOperator::NotEqual),
        TokenType::LessThan => Some(BinaryOperator::LessThan),
        TokenType::GreaterThan => Some(BinaryOperator::GreaterThan),
        TokenType::LessEqual => Some(BinaryOperator::LessOrEqual),
        TokenType::GreaterEqual => Some(BinaryOperator::GreaterOrEqual),
        TokenType::And => Some(BinaryOperator::LogicalAnd),
        TokenType::Or => Some(BinaryOperator::LogicalOr),
        TokenType::Ampersand => Some(BinaryOperator::BitwiseAnd),
        TokenType::Pipe => Some(BinaryOperator::BitwiseOr),
        TokenType::Caret => Some(BinaryOperator::BitwiseXor),
        TokenType::LShift => Some(BinaryOperator::ShiftLeft),
        TokenType::RShift => Some(BinaryOperator::ShiftRight),
        _ => None,
    };
    proof {
        match r {
            Some(op) => {
                assert(op.token() == t);
                let c = choose|o: BinaryOperator| o.token() == t;
                super::ast::lemma_binary_operator_token_injective(c, op);
            },
            None => {
                assert forall|o: BinaryOperator| #[trigger] o.token() != t by {
                    match o {
                        _ => {},
                    }
                }
            },
        }
    }
    r
}

fn assignment_token(t: TokenType) -> (r: Option<AssignmentOperator>)
    ensures
        r == assignment_of(t),
{
    let r = match t {
        TokenType::Assign => Some(AssignmentOperator::Assign),
        TokenType::PlusAssign => Some(AssignmentOperator::AddAssign),
        TokenType::MinusAssign => Some(AssignmentOperator::SubtractAssign),
        TokenType::StarAssign => Some(AssignmentOperator::MultiplyAssign),
        TokenType::SlashAssign => Some(AssignmentOperator::DivideAssign),
        TokenType::PercentAssign => Some(AssignmentOperator::ModuloAssign),
        TokenType::AmpersandAssign => Some(AssignmentOperator::BitwiseAndAssign),
        TokenType::PipeAssign => Some(AssignmentOperator::BitwiseOrAssign),
        TokenType::CaretAssign => Some(AssignmentOperator::BitwiseXorAssign),
        TokenType::LShiftAssign => Some(AssignmentOperator::ShiftLeftAssign),
        TokenType::RShiftAssign => Some(AssignmentOperator::ShiftRightAssign),
        _ => None,
    };
    proof {
        match r {
            Some(op) => {
                assert(op.token() == t);
                let c = choose|o: AssignmentOperator| o.token() == t;
                super::ast::lemma_assignment_operator_token_injective(c, op);
            },
            None => {
                assert forall|o: AssignmentOperator| #[trigger] o.token() != t by {
                    match o {
                        _ => {},
                    }
                }
            },
        }
    }
    r
}

fn owned(s: &str) -> (r: String)
    ensures
        r@ == s@,
{
    s.to_owned()
}

/// Report a syntax error with at most one hint and stop.
fn report_error(ctx: &mut Context, span: Span, message: String, hint: Option<&str>)
    requires
        old(ctx).wf(),
        old(ctx).diagnostics@.len() < usize::MAX,
    ensures
        final(ctx).wf(),
        parse_effect(
            *old(ctx),
            *final(ctx),
            state_of(*old(ctx)),
            Some(
                ParseStop::Error {
                    span,
                    message: message@,
                    hints: match hint {
                        Some(h) => seq![h@],
                        None => Seq::empty(),
                    },
                },
            ),
        ),
{
    let b = ctx.struct_error(span, message);
    let b = match hint {
        Some(h) => b.with_hint(owned(h)),
        None => b,
    };
    proof {
        match hint {
            Some(h) => assert(b.pending().hint_texts() =~= seq![h@]),
            None => {},
        }
    }
    b.emit(ctx);
}

/// A new node of the context.
fn make_node(ctx: &mut Context, span: Span, kind: ExprKind) -> (e: Expr)
    requires
        old(ctx).next_node_id < u32::MAX,
    ensures
        e == node(state_of(*old(ctx)), span, kind),
        parse_effect(*old(ctx), *final(ctx), bump(state_of(*old(ctx))), None),
        final(ctx).wf() == old(ctx).wf(),
{
    let id = ctx.next_node_id();
    Expr { id, span, kind }
}

/// Parse an expression at `pos` of `ls` that binds more strongly than
/// `prec`: a prefix form followed by the infix and postfix operators that
/// bind more strongly. The outcome is `parse_expr_spec`; an error is
/// reported once, where parsing stops.
pub fn parse_expression(ctx: &mut Context, ls: &Vec<Lexeme>, pos: usize, prec: Precedence) -> (r: Result<(Expr, usize), ()>)
    requires
        lexemes_ok(ls@),
        pos < ls@.len(),
        room(*old(ctx), ls@, pos as int),
    ensures
        final(ctx).wf(),
        parse_agrees(*old(ctx), *final(ctx), r, parse_expr_spec(ls@, pos as int, prec, state_of(*old(ctx)))),
        progress(*old(ctx), *final(ctx), r, ls@, pos as int),
    decreases ls@.len() - pos, 2int,
{
    let (left, p) = match parse_prefix(ctx, ls, pos) {
        Ok(x) => x,
        Err(()) => return Err(()),
    };
    infix_loop(ctx, ls, p, prec, left)
}

fn parse_prefix(ctx: &mut Context, ls: &Vec<Lexeme>, pos: usize) -> (r: Result<(Expr, usize), ()>)
    requires
        lexemes_ok(ls@),
        pos < ls@.len(),
        room(*old(ctx), ls@, pos as int),
    ensures
        final(ctx).wf(),
        parse_agrees(*old(ctx), *final(ctx), r, parse_prefix_spec(ls@, pos as int, state_of(*old(ctx)))),
        progress(*old(ctx), *final(ctx), r, ls@, pos as int),
    decreases ls@.len() - pos, 1int,
{
    let n = ls.len();
    let t = &ls[pos];
    let span = t.token.span;
    let more = pos < n - 1;
    match t.token.tag {
        TokenType::IntLiteral => match parse_int_literal(t.text.as_str()) {
            Some(v) => {
                let e = make_node(ctx, span, ExprKind::Integer(v));
                Ok((e, pos + 1))
            },
            None => {
                let msg = concat3("Invalid integer literal: ", t.text.as_str(), "");
                proof {
                    reveal_strlit("");
                }
                report_error(ctx, span, msg, None);
                Err(())
            },
        },
        TokenType::Identifier => {
            let sym = ctx.intern(t.text.as_str());
            let e = make_node(ctx, span, ExprKind::Identifier(sym));
            Ok((e, pos + 1))
        },
        TokenType::Break => Ok((make_node(ctx, span, ExprKind::Break), pos + 1)),
        TokenType::Continue => Ok((make_node(ctx, span, ExprKind::Continue), pos + 1)),
        TokenType::Undef => Ok((make_node(ctx, span, ExprKind::Undef), pos + 1)),
        TokenType::SelfValue => Ok((make_node(ctx, span, ExprKind::SelfValue), pos + 1)),
        TokenType::Minus | TokenType::Bang | TokenType::Tilde | TokenType::Hash => {
            let op = match t.token.tag {
                TokenType::Minus => UnaryOperator::Negate,
                TokenType::Bang => UnaryOperator::LogicalNot,
                TokenType::Tilde => UnaryOperator::BitwiseNot,
                _ => UnaryOperator::LengthOf,
            };
            let (operand, p) = match parse_expression(ctx, ls, pos + 1, Precedence::Unary) {
                Ok(x) => x,
                Err(()) => return Err(()),
            };
            let e = make_node(ctx, span.to(operand.span), ExprKind::Unary { op, operand: Box::new(operand) });
            Ok((e, p))
        },
        TokenType::LParen => {
            let (inner, p) = match parse_expression(ctx, ls, pos + 1, Precedence::Lowest) {
                Ok(x) => x,
                Err(()) => return Err(()),
            };
            if ls[p].token.tag == TokenType::RParen {
                let e = Expr { id: inner.id, span: span.to(ls[p].token.span), kind: inner.kind };
                Ok((e, p + 1))
            } else {
                let msg = concat3("expected `RParen`, found `", ls[p].text.as_str(), "`");
                report_error(ctx, ls[p].token.span, msg, Some("unclosed parenthesis"));
                Err(())
            }
        },
        TokenType::Dot => {
            if more && ls[pos + 1].token.tag == TokenType::Identifier {
                let sym = ctx.intern(ls[pos + 1].text.as_str());
                let e = make_node(ctx, span.to(ls[pos + 1].token.span), ExprKind::EnumLiteral(sym));
                Ok((e, pos + 2))
            } else {
                report_error(ctx, span, owned("Unexpected '.' at start of expression"), None);
                Err(())
            }
        },
        TokenType::Return => parse_return(ctx, ls, pos),
        TokenType::If => parse_if(ctx, ls, pos),
        TokenType::Let | TokenType::Const | TokenType::Static => parse_decl(ctx, ls, pos),
        TokenType::For => parse_for(ctx, ls, pos),
        TokenType::DotLBrace => parse_data_init(ctx, ls, pos),
        TokenType::FloatLiteral | TokenType::StringLiteral | TokenType::CharLiteral | TokenType::Switch
        | TokenType::Match | TokenType::LBrace | TokenType::At | TokenType::Mut | TokenType::LBracket
        | TokenType::Star | TokenType::Caret => Err(()),
        _ => {
            let msg = concat3("Expected expression, found '", t.text.as_str(), "'");
            report_error(ctx, span, msg, None);
            Err(())
        },
    }
}

fn parse_infix(ctx: &mut Context, ls: &Vec<Lexeme>, pos: usize, left: Expr) -> (r: Result<(Expr, usize), ()>)
    requires
        lexemes_ok(ls@),
        pos + 1 < ls@.len(),
        room(*old(ctx), ls@, pos as int),
    ensures
        final(ctx).wf(),
        parse_agrees(*old(ctx), *final(ctx), r, parse_infix_spec(ls@, pos as int, left, state_of(*old(ctx)))),
        progress(*old(ctx), *final(ctx), r, ls@, pos as int),
    decreases ls@.len() - pos - 1, 5int,
{
    let n = ls.len();
    let t = &ls[pos];
    let tag = t.token.tag;
    match binary_token(tag) {
        Some(op) => {
            let (right, p) = match parse_expression(ctx, ls, pos + 1, Precedence::from_token(tag)) {
                Ok(x) => x,
                Err(()) => return Err(()),
            };
            let e = make_node(
                ctx,
                left.span.to(right.span),
                ExprKind::Binary { lhs: Box::new(left), op, rhs: Box::new(right) },
            );
            Ok((e, p))
        },
        None => match assignment_token(tag) {
            Some(op) => {
                let (right, p) = match parse_expression(ctx, ls, pos + 1, Precedence::Lowest) {
                    Ok(x) => x,
                    Err(()) => return Err(()),
                };
                let e = make_node(
                    ctx,
                    left.span.to(right.span),
                    ExprKind::Assign { lhs: Box::new(left), op, rhs: Box::new(right) },
                );
                Ok((e, p))
            },
            None => {
                if tag == TokenType::DotStar {
                    let e = make_node(
                        ctx,
                        left.span.to(t.token.span),
                        ExprKind::Unary { op: UnaryOperator::PointerDeRef, operand: Box::new(left) },
                    );
                    Ok((e, pos + 1))
                } else if tag == TokenType::DotAmpersand {
                    let e = make_node(
                        ctx,
                        left.span.to(t.token.span),
                        ExprKind::Unary { op: UnaryOperator::AddressOf, operand: Box::new(left) },
                    );
                    Ok((e, pos + 1))
                } else if tag == TokenType::Dot {
                    let f = &ls[pos + 1];
                    if f.token.tag == TokenType::Identifier {
                        let sym = ctx.intern(f.text.as_str());
                        let e = make_node(
                            ctx,
                            left.span.to(f.token.span),
                            ExprKind::FieldAccess { lhs: Box::new(left), field: sym },
                        );
                        Ok((e, pos + 2))
                    } else {
                        let msg = concat3("expected `Identifier`, found `", f.text.as_str(), "`");
                        report_error(ctx, f.token.span, msg, None);
                        Err(())
                    }
                } else if tag == TokenType::DotLBracket {
                    parse_index(ctx, ls, pos, left)
                } else if tag == TokenType::Bang {
                    report_error(ctx, t.token.span, owned("Unexpected infix token Bang"), None);
                    Err(())
                } else {
                    Err(())
                }
            },
        },
    }
}

fn infix_loop(ctx: &mut Context, ls: &Vec<Lexeme>, pos: usize, prec: Precedence, left: Expr) -> (r: Result<
    (Expr, usize),
    (),
>)
    requires
        lexemes_ok(ls@),
        pos < ls@.len(),
        room(*old(ctx), ls@, pos as int),
    ensures
        final(ctx).wf(),
        parse_agrees(*old(ctx), *final(ctx), r, infix_loop_spec(ls@, pos as int, prec, left, state_of(*old(ctx)))),
        r matches Ok((_, q)) ==> {
            &&& pos <= q < ls@.len()
            &&& final(ctx).interner@.len() <= old(ctx).interner@.len() + (q - pos)
            &&& final(ctx).next_node_id <= old(ctx).next_node_id + (q - pos)
        },
    decreases ls@.len() - pos, 0int,
{
    let n = ls.len();
    let tag = ls[pos].token.tag;
    if rank(prec) < rank(Precedence::from_token(tag)) && pos < n - 1 {
        let (e, p) = match parse_infix(ctx, ls, pos, left) {
            Ok(x) => x,
            Err(()) => return Err(()),
        };
        infix_loop(ctx, ls, p, prec, e)
    } else {
        Ok((left, pos))
    }
}

fn parse_return(ctx: &mut Context, ls: &Vec<Lexeme>, pos: usize) -> (r: Result<(Expr, usize), ()>)
    requires
        lexemes_ok(ls@),
        pos < ls@.len(),
        ls@[pos as int].token.tag == TokenType::Return,
        room(*old(ctx), ls@, pos as int),
    ensures
        final(ctx).wf(),
        parse_agrees(*old(ctx), *final(ctx), r, return_spec(ls@, pos as int, state_of(*old(ctx)))),
        progress(*old(ctx), *final(ctx), r, ls@, pos as int),
    decreases ls@.len() - pos, 0int,
{
    let n = ls.len();
    let span = ls[pos].token.span;
    let next = ls[pos + 1].token.tag;
    let ends = match next {
        TokenType::Semicolon | TokenType::RBrace | TokenType::Else | TokenType::RParen | TokenType::RBracket
        | TokenType::Comma | TokenType::Eof => true,
        _ => false,
    };
    if ends {
        Ok((make_node(ctx, span, ExprKind::Return(None)), pos + 1))
    } else {
        let (v, p) = match parse_expression(ctx, ls, pos + 1, Precedence::Lowest) {
            Ok(x) => x,
            Err(()) => return Err(()),
        };
        Ok((make_node(ctx, span, ExprKind::Return(Some(Box::new(v)))), p))
    }
}

fn parse_if(ctx: &mut Context, ls: &Vec<Lexeme>, pos: usize) -> (r: Result<(Expr, usize), ()>)
    requires
        lexemes_ok(ls@),
        pos < ls@.len(),
        ls@[pos as int].token.tag == TokenType::If,
        room(*old(ctx), ls@, pos as int),
    ensures
        final(ctx).wf(),
        parse_agrees(*old(ctx), *final(ctx), r, if_spec(ls@, pos as int, state_of(*old(ctx)))),
        progress(*old(ctx), *final(ctx), r, ls@, pos as int),
    decreases ls@.len() - pos, 0int,
{
    let n = ls.len();
    let span = ls[pos].token.span;
    if ls[pos + 1].token.tag != TokenType::LParen {
        let msg = concat3("expected `LParen`, found `", ls[pos + 1].text.as_str(), "`");
        report_error(ctx, ls[pos + 1].token.span, msg, None);
        return Err(());
    }
    let (cond, p1) = match parse_expression(ctx, ls, pos + 2, Precedence::Lowest) {
        Ok(x) => x,
        Err(()) => return Err(()),
    };
    if ls[p1].token.tag != TokenType::RParen {
        let msg = concat3("expected `RParen`, found `", ls[p1].text.as_str(), "`");
        report_error(ctx, ls[p1].token.span, msg, Some("unclosed parenthesis"));
        return Err(());
    }
    let (then_branch, p2) = match parse_expression(ctx, ls, p1 + 1, Precedence::Lowest) {
        Ok(x) => x,
        Err(()) => return Err(()),
    };
    if ls[p2].token.tag == TokenType::Else {
        let (else_branch, p3) = match parse_expression(ctx, ls, p2 + 1, Precedence::Lowest) {
            Ok(x) => x,
            Err(()) => return Err(()),
        };
        let sp = span.to(else_branch.span);
        let e = make_node(
            ctx,
            sp,
            ExprKind::If {
                cond: Box::new(cond),
                then_branch: Box::new(then_branch),
                else_branch: Some(Box::new(else_branch)),
            },
        );
        Ok((e, p3))
    } else {
        let sp = span.to(then_branch.span);
        let e = make_node(
            ctx,
            sp,
            ExprKind::If { cond: Box::new(cond), then_branch: Box::new(then_branch), else_branch: None },
        );
        Ok((e, p2))
    }
}

fn parse_decl(ctx: &mut Context, ls: &Vec<Lexeme>, pos: usize) -> (r: Result<(Expr, usize), ()>)
    requires
        lexemes_ok(ls@),
        pos < ls@.len(),
        ls@[pos as int].token.tag == TokenType::Let || ls@[pos as int].token.tag == TokenType::Const
            || ls@[pos as int].token.tag == TokenType::Static,
        room(*old(ctx), ls@, pos as int),
    ensures
        final(ctx).wf(),
        parse_agrees(*old(ctx), *final(ctx), r, decl_spec(ls@, pos as int, state_of(*old(ctx)))),
        progress(*old(ctx), *final(ctx), r, ls@, pos as int),
    decreases ls@.len() - pos, 0int,
{
    let n = ls.len();
    if ls[pos + 1].token.tag != TokenType::Identifier {
        let msg = concat3("expected `Identifier`, found `", ls[pos + 1].text.as_str(), "`");
        report_error(ctx, ls[pos + 1].token.span, msg, None);
        return Err(());
    }
    let name = ctx.intern(ls[pos + 1].text.as_str());
    let t = &ls[pos + 2];
    if t.token.tag == TokenType::Colon {
        return Err(());
    }
    if t.token.tag != TokenType::Assign {
        let msg = concat3("expected `Assign`, found `", t.text.as_str(), "`");
        report_error(ctx, t.token.span, msg, None);
        return Err(());
    }
    let (init, p) = match parse_expression(ctx, ls, pos + 3, Precedence::Lowest) {
        Ok(x) => x,
        Err(()) => return Err(()),
    };
    let span = ls[pos].token.span.to(init.span);
    let kind = if ls[pos].token.tag == TokenType::Static {
        ExprKind::Static { name, init: Box::new(init) }
    } else {
        ExprKind::Let { name, init: Box::new(init) }
    };
    Ok((make_node(ctx, span, kind), p))
}

/// The result `r` of parsing an optional expression agrees with `p`.
pub open spec fn opt_agrees(before: Context, after: Context, r: Result<(Option<Expr>, usize), ()>, p: OptParsed) -> bool {
    match p {
        OptParsed::Done { expr, pos, st } => {
            &&& r matches Ok((e, q)) && e == expr && q == pos
            &&& parse_effect(before, after, st, None)
        },
        OptParsed::Stopped { why, st } => r is Err && parse_effect(before, after, st, Some(why)),
    }
}

fn parse_opt(ctx: &mut Context, ls: &Vec<Lexeme>, pos: usize, stop: TokenType) -> (r: Result<(Option<Expr>, usize), ()>)
    requires
        lexemes_ok(ls@),
        pos < ls@.len(),
        room(*old(ctx), ls@, pos as int),
    ensures
        final(ctx).wf(),
        opt_agrees(*old(ctx), *final(ctx), r, opt_expr_spec(ls@, pos as int, stop, state_of(*old(ctx)))),
        r matches Ok((_, q)) ==> {
            &&& pos <= q < ls@.len()
            &&& final(ctx).interner@.len() <= old(ctx).interner@.len() + (q - pos)
            &&& final(ctx).next_node_id <= old(ctx).next_node_id + (q - pos)
        },
    decreases ls@.len() - pos, 3int,
{
    if ls[pos].token.tag == stop {
        return Ok((None, pos));
    }
    match parse_expression(ctx, ls, pos, Precedence::Lowest) {
        Ok((e, p)) => Ok((Some(e), p)),
        Err(()) => Err(()),
    }
}

fn parse_for(ctx: &mut Context, ls: &Vec<Lexeme>, pos: usize) -> (r: Result<(Expr, usize), ()>)
    requires
        lexemes_ok(ls@),
        pos < ls@.len(),
        ls@[pos as int].token.tag == TokenType::For,
        room(*old(ctx), ls@, pos as int),
    ensures
        final(ctx).wf(),
        parse_agrees(*old(ctx), *final(ctx), r, for_spec(ls@, pos as int, state_of(*old(ctx)))),
        progress(*old(ctx), *final(ctx), r, ls@, pos as int),
    decreases ls@.len() - pos, 0int,
{
    let n = ls.len();
    let span = ls[pos].token.span;
    if ls[pos + 1].token.tag != TokenType::LParen {
        let msg = concat3("expected `LParen`, found `", ls[pos + 1].text.as_str(), "`");
        report_error(ctx, ls[pos + 1].token.span, msg, None);
        return Err(());
    }
    let (init, p1) = match parse_opt(ctx, ls, pos + 2, TokenType::Semicolon) {
        Ok(x) => x,
        Err(()) => return Err(()),
    };
    if ls[p1].token.tag != TokenType::Semicolon {
        let msg = concat3("expected `Semicolon`, found `", ls[p1].text.as_str(), "`");
        report_error(ctx, ls[p1].token.span, msg, Some("consider adding a `;` here"));
        return Err(());
    }
    let (cond, p2) = match parse_opt(ctx, ls, p1 + 1, TokenType::Semicolon) {
        Ok(x) => x,
        Err(()) => return Err(()),
    };
    if ls[p2].token.tag != TokenType::Semicolon {
        let msg = concat3("expected `Semicolon`, found `", ls[p2].text.as_str(), "`");
        report_error(ctx, ls[p2].token.span, msg, Some("consider adding a `;` here"));
        return Err(());
    }
    let (post, p3) = match parse_opt(ctx, ls, p2 + 1, TokenType::RParen) {
        Ok(x) => x,
        Err(()) => return Err(()),
    };
    if ls[p3].token.tag != TokenType::RParen {
        let msg = concat3("expected `RParen`, found `", ls[p3].text.as_str(), "`");
        report_error(ctx, ls[p3].token.span, msg, Some("unclosed parenthesis"));
        return Err(());
    }
    let (body, p4) = match parse_expression(ctx, ls, p3 + 1, Precedence::Lowest) {
        Ok(x) => x,
        Err(()) => return Err(()),
    };
    let init = match init {
        Some(e) => Some(Box::new(e)),
        None => None,
    };
    let cond = match cond {
        Some(e) => Some(Box::new(e)),
        None => None,
    };
    let post = match post {
        Some(e) => Some(Box::new(e)),
        None => None,
    };
    let sp = span.to(body.span);
    let e = make_node(ctx, sp, ExprKind::For { init, cond, post, body: Box::new(body) });
    Ok((e, p4))
}

fn finish_index(
    ctx: &mut Context,
    ls: &Vec<Lexeme>,
    left: Expr,
    start: Option<Expr>,
    end: Option<Expr>,
    is_range: bool,
    is_inclusive: bool,
    close: usize,
) -> (r: Result<(Expr, usize), ()>)
    requires
        lexemes_ok(ls@),
        close < ls@.len(),
        !is_range ==> start is Some,
        old(ctx).wf(),
        old(ctx).next_node_id < u32::MAX,
        old(ctx).diagnostics@.len() < usize::MAX,
    ensures
        final(ctx).wf(),
        parse_agrees(
            *old(ctx),
            *final(ctx),
            r,
            index_node(ls@, left, start, end, is_range, is_inclusive, close as int, state_of(*old(ctx))),
        ),
        r matches Ok((_, q)) ==> q == close + 1 && q < ls@.len() && final(ctx).interner@ == old(ctx).interner@
            && final(ctx).next_node_id == old(ctx).next_node_id + 1,
{
    let n = ls.len();
    if ls[close].token.tag != TokenType::RBracket {
        let msg = concat3("expected `RBracket`, found `", ls[close].text.as_str(), "`");
        report_error(ctx, ls[close].token.span, msg, None);
        return Err(());
    }
    let span = left.span.to(ls[close].token.span);
    let start = match start {
        Some(e) => Some(Box::new(e)),
        None => None,
    };
    let end = match end {
        Some(e) => Some(Box::new(e)),
        None => None,
    };
    if is_range {
        let e = make_node(ctx, span, ExprKind::SliceOp { lhs: Box::new(left), start, end, is_inclusive });
        Ok((e, close + 1))
    } else {
        match start {
            Some(index) => {
                let e = make_node(ctx, span, ExprKind::IndexAccess { lhs: Box::new(left), index });
                Ok((e, close + 1))
            },
            None => {
                proof {
                    assert(false);
                }
                Err(())
            },
        }
    }
}

#[verifier::rlimit(50)]
fn parse_index(ctx: &mut Context, ls: &Vec<Lexeme>, pos: usize, left: Expr) -> (r: Result<(Expr, usize), ()>)
    requires
        lexemes_ok(ls@),
        pos + 1 < ls@.len(),
        ls@[pos as int].token.tag == TokenType::DotLBracket,
        room(*old(ctx), ls@, pos as int),
    ensures
        final(ctx).wf(),
        parse_agrees(*old(ctx), *final(ctx), r, index_spec(ls@, pos as int, left, state_of(*old(ctx)))),
        progress(*old(ctx), *final(ctx), r, ls@, pos as int),
    decreases ls@.len() - pos - 1, 4int,
{
    let n = ls.len();
    if ls[pos + 1].token.tag == TokenType::DotDot {
        let (end, p) = match parse_opt(ctx, ls, pos + 2, TokenType::RBracket) {
            Ok(x) => x,
            Err(()) => return Err(()),
        };
        return finish_index(ctx, ls, left, None, end, true, false, p);
    }
    let (start, p) = match parse_expression(ctx, ls, pos + 1, Precedence::Lowest) {
        Ok(x) => x,
        Err(()) => return Err(()),
    };
    if ls[p].token.tag == TokenType::DotDot {
        let (end, q) = match parse_opt(ctx, ls, p + 1, TokenType::RBracket) {
            Ok(x) => x,
            Err(()) => return Err(()),
        };
        finish_index(ctx, ls, left, Some(start), end, true, false, q)
    } else if ls[p].token.tag == TokenType::DotDotEqual {
        let (end, q) = match parse_expression(ctx, ls, p + 1, Precedence::Lowest) {
            Ok(x) => x,
            Err(()) => return Err(()),
        };
        finish_index(ctx, ls, left, Some(start), Some(end), true, true, q)
    } else {
        finish_index(ctx, ls, left, Some(start), None, false, false, p)
    }
}

fn finish_data(ctx: &mut Context, ls: &Vec<Lexeme>, pos: usize, literal: DataLiteralKind, close: usize) -> (r: Result<
    (Expr, usize),
    (),
>)
    requires
        lexemes_ok(ls@),
        pos < close < ls@.len(),
        old(ctx).wf(),
        old(ctx).next_node_id < u32::MAX,
        old(ctx).diagnostics@.len() < usize::MAX,
    ensures
        final(ctx).wf(),
        parse_agrees(*old(ctx), *final(ctx), r, data_node(ls@, pos as int, literal, close as int, state_of(*old(ctx)))),
        r matches Ok((_, q)) ==> q == close + 1 && q < ls@.len() && final(ctx).interner@ == old(ctx).interner@
            && final(ctx).next_node_id == old(ctx).next_node_id + 1,
{
    let n = ls.len();
    if ls[close].token.tag != TokenType::RBrace {
        let msg = concat3("expected `RBrace`, found `", ls[close].text.as_str(), "`");
        report_error(ctx, ls[close].token.span, msg, Some("unclosed block"));
        return Err(());
    }
    let span = ls[pos].token.span.to(ls[close].token.span);
    let e = make_node(ctx, span, ExprKind::DataInit { type_node: None, literal });
    Ok((e, close + 1))
}

fn parse_data_init(ctx: &mut Context, ls: &Vec<Lexeme>, pos: usize) -> (r: Result<(Expr, usize), ()>)
    requires
        lexemes_ok(ls@),
        pos < ls@.len(),
        ls@[pos as int].token.tag == TokenType::DotLBrace,
        room(*old(ctx), ls@, pos as int),
    ensures
        final(ctx).wf(),
        parse_agrees(*old(ctx), *final(ctx), r, data_init_spec(ls@, pos as int, state_of(*old(ctx)))),
        progress(*old(ctx), *final(ctx), r, ls@, pos as int),
    decreases ls@.len() - pos, 0int,
{
    let n = ls.len();
    if ls[pos + 1].token.tag == TokenType::RBrace {
        return Err(());
    }
    if ls[pos + 1].token.tag == TokenType::Identifier && ls[pos + 2].token.tag == TokenType::Colon {
        return Err(());
    }
    let (first, p) = match parse_expression(ctx, ls, pos + 1, Precedence::Lowest) {
        Ok(x) => x,
        Err(()) => return Err(()),
    };
    if ls[p].token.tag == TokenType::Semicolon {
        let (count, q) = match parse_expression(ctx, ls, p + 1, Precedence::Lowest) {
            Ok(x) => x,
            Err(()) => return Err(()),
        };
        finish_data(ctx, ls, pos, DataLiteralKind::Repeat { value: Box::new(first), count: Box::new(count) }, q)
    } else if ls[p].token.tag == TokenType::Comma {
        Err(())
    } else {
        finish_data(ctx, ls, pos, DataLiteralKind::Scalar(Box::new(first)), p)
    }
}

/// The tokens at which a statement or declaration can begin again after
/// a syntax error.
pub open spec fn starts_statement(t: TokenType) -> bool {
    match t {
        TokenType::Fn | TokenType::Let | TokenType::Const | TokenType::Struct | TokenType::Enum | TokenType::If
        | TokenType::For | TokenType::Return => true,
        _ => false,
    }
}

/// Where skipping from `i` stops: at the end of input, just after a `;`,
/// or at a token that starts a statement.
pub open spec fn skip_to_boundary(ls: Seq<Lexeme>, i: int) -> int
    decreases ls.len() - i,
{
    if !(0 <= i < ls.len()) || ls[i].token.tag == TokenType::Eof {
        i
    } else if ls[i].token.tag == TokenType::Semicolon {
        i + 1
    } else if starts_statement(ls[i].token.tag) {
        i
    } else {
        skip_to_boundary(ls, i + 1)
    }
}

/// Recover from a syntax error at `pos`: step over the token there (unless
/// it ends the input), then skip to the next statement boundary: the token
/// after a `;`, a token that starts a statement, or the end of input.
pub fn synchronize(ls: &Vec<Lexeme>, pos: usize) -> (r: usize)
    requires
        lexemes_ok(ls@),
        pos < ls@.len(),
    ensures
        r == skip_to_boundary(ls@, if ls@[pos as int].token.tag == TokenType::Eof { pos as int } else { pos + 1 }),
        pos <= r < ls@.len(),
        ls@[pos as int].token.tag != TokenType::Eof ==> pos < r,
        ls@[r as int].token.tag == TokenType::Eof || starts_statement(ls@[r as int].token.tag) || (r > pos
            && ls@[r - 1].token.tag == TokenType::Semicolon),
{
    let n = ls.len();
    let mut i = pos;
    if ls[i].token.tag != TokenType::Eof {
        i = i + 1;
    }
    let ghost start = i as int;
    while ls[i].token.tag != TokenType::Eof
        invariant
            lexemes_ok(ls@),
            n == ls@.len(),
            pos <= start <= i < n,
            ls@[pos as int].token.tag != TokenType::Eof ==> pos < start,
            start == (if ls@[pos as int].token.tag == TokenType::Eof { pos as int } else { pos + 1 }),
            skip_to_boundary(ls@, i as int) == skip_to_boundary(ls@, start),
        decreases n - i,
    {
        if ls[i].token.tag == TokenType::Semicolon {
            return i + 1;
        }
        let t = ls[i].token.tag;
        let stop = match t {
            TokenType::Fn | TokenType::Let | TokenType::Const | TokenType::Struct | TokenType::Enum
            | TokenType::If | TokenType::For | TokenType::Return => true,
            _ => false,
        };
        if stop {
            return i;
        }
        i = i + 1;
    }
    i
}

/// The tokens `x o1 y o2 z` followed by the end of input: three names and
/// two binary operators.
pub open spec fn two_operator_input(ls: Seq<Lexeme>) -> bool {
    &&& ls.len() == 6
    &&& ls[0].token.tag == TokenType::Identifier
    &&& ls[2].token.tag == TokenType::Identifier
    &&& ls[4].token.tag == TokenType::Identifier
    &&& binary_of(ls[1].token.tag) is Some
    &&& binary_of(ls[3].token.tag) is Some
    &&& ls[5].token.tag == TokenType::Eof
}

/// The operator of a binary node, if it is one.
pub open spec fn binary_parts(e: Expr) -> Option<(Expr, BinaryOperator, Expr)> {
    match e.kind {
        ExprKind::Binary { lhs, op, rhs } => Some((*lhs, op, *rhs)),
        _ => None,
    }
}

proof fn lemma_name_then_end(ls: Seq<Lexeme>, pos: int, prec: Precedence, st: ParseState)
    requires
        0 <= pos && pos + 1 < ls.len(),
        ls[pos].token.tag == TokenType::Identifier,
        prec_rank(prec) >= prec_rank(Precedence::of_token(ls[pos + 1].token.tag)),
    ensures
        parse_expr_spec(ls, pos, prec, st) matches Parsed::Done { expr, pos: p, .. } && p == pos + 1
            && expr.kind matches ExprKind::Identifier(_),
{
    let (s, sym) = intern_in(st, ls[pos].text@);
    assert(parse_prefix_spec(ls, pos, st) == Parsed::Done {
        expr: node(s, ls[pos].token.span, ExprKind::Identifier(sym)),
        pos: pos + 1,
        st: bump(s),
    });
}

/// Binary operators bind by precedence, and operators of one level group
/// to the left: in `x o1 y o2 z`, the first operator takes `y` when it
/// binds at least as strongly as the second, and the second takes `y`
/// (and `z`) when it binds more strongly.
pub proof fn law_binary_operators_group_by_precedence(ls: Seq<Lexeme>, st: ParseState)
    requires
        two_operator_input(ls),
    ensures
        parse_expr_spec(ls, 0, Precedence::Lowest, st) matches Parsed::Done { expr, pos, .. } && pos == 5 && (
        binary_parts(expr) matches Some((l, op, r)) && if prec_rank(Precedence::of_token(ls[1].token.tag))
            >= prec_rank(Precedence::of_token(ls[3].token.tag)) {
            &&& op == binary_of(ls[3].token.tag).unwrap()
            &&& binary_parts(l) matches Some((_, op1, _)) && op1 == binary_of(ls[1].token.tag).unwrap()
            &&& r.kind is Identifier
        } else {
            &&& op == binary_of(ls[1].token.tag).unwrap()
            &&& l.kind is Identifier
            &&& binary_parts(r) matches Some((_, op2, _)) && op2 == binary_of(ls[3].token.tag).unwrap()
        }),
{
    let t1 = ls[1].token.tag;
    let t3 = ls[3].token.tag;
    let p1 = Precedence::of_token(t1);
    let p3 = Precedence::of_token(t3);
    super::law_binary_operators_bind(t1);
    super::law_binary_operators_bind(t3);
    assert(prec_rank(Precedence::of_token(TokenType::Eof)) == 0);
    // x
    let (s0, x) = intern_in(st, ls[0].text@);
    let ex = node(s0, ls[0].token.span, ExprKind::Identifier(x));
    let st1 = bump(s0);
    assert(parse_prefix_spec(ls, 0, st) == Parsed::Done { expr: ex, pos: 1, st: st1 });
    if prec_rank(p1) >= prec_rank(p3) {
        // y is taken by o1
        lemma_name_then_end(ls, 2, p1, st1);
        let inner = parse_expr_spec(ls, 2, p1, st1);
        let ey = inner->Done_expr;
        let s2 = inner->Done_st;
        let b1 = node(s2, join(ex.span, ey.span), ExprKind::Binary { lhs: Box::new(ex), op: binary_of(t1).unwrap(), rhs: Box::new(ey) });
        assert(parse_infix_spec(ls, 1, ex, st1) == Parsed::Done { expr: b1, pos: 3, st: bump(s2) });
        // z is taken by o2
        lemma_name_then_end(ls, 4, p3, bump(s2));
        let inner2 = parse_expr_spec(ls, 4, p3, bump(s2));
        let ez = inner2->Done_expr;
        let s4 = inner2->Done_st;
        let b2 = node(s4, join(b1.span, ez.span), ExprKind::Binary { lhs: Box::new(b1), op: binary_of(t3).unwrap(), rhs: Box::new(ez) });
        assert(parse_infix_spec(ls, 3, b1, bump(s2)) == Parsed::Done { expr: b2, pos: 5, st: bump(s4) });
        assert(infix_loop_spec(ls, 5, Precedence::Lowest, b2, bump(s4)) == Parsed::Done { expr: b2, pos: 5, st: bump(s4) });
        assert(infix_loop_spec(ls, 3, Precedence::Lowest, b1, bump(s2)) == Parsed::Done { expr: b2, pos: 5, st: bump(s4) });
        assert(infix_loop_spec(ls, 1, Precedence::Lowest, ex, st1) == Parsed::Done { expr: b2, pos: 5, st: bump(s4) });
    } else {
        // y o2 z binds first
        let (s2, y) = intern_in(st1, ls[2].text@);
        let ey = node(s2, ls[2].token.span, ExprKind::Identifier(y));
        let st3 = bump(s2);
        assert(parse_prefix_spec(ls, 2, st1) == Parsed::Done { expr: ey, pos: 3, st: st3 });
        lemma_name_then_end(ls, 4, p3, st3);
        let inner = parse_expr_spec(ls, 4, p3, st3);
        let ez = inner->Done_expr;
        let s4 = inner->Done_st;
        let b2 = node(s4, join(ey.span, ez.span), ExprKind::Binary { lhs: Box::new(ey), op: binary_of(t3).unwrap(), rhs: Box::new(ez) });
        assert(parse_infix_spec(ls, 3, ey, st3) == Parsed::Done { expr: b2, pos: 5, st: bump(s4) });
        assert(infix_loop_spec(ls, 5, p1, b2, bump(s4)) == Parsed::Done { expr: b2, pos: 5, st: bump(s4) });
        assert(infix_loop_spec(ls, 3, p1, ey, st3) == Parsed::Done { expr: b2, pos: 5, st: bump(s4) });
        assert(parse_expr_spec(ls, 2, p1, st1) == Parsed::Done { expr: b2, pos: 5, st: bump(s4) });
        let s5 = bump(s4);
        let b1 = node(s5, join(ex.span, b2.span), ExprKind::Binary { lhs: Box::new(ex), op: binary_of(t1).unwrap(), rhs: Box::new(b2) });
        assert(parse_infix_spec(ls, 1, ex, st1) == Parsed::Done { expr: b1, pos: 5, st: bump(s5) });
        assert(infix_loop_spec(ls, 5, Precedence::Lowest, b1, bump(s5)) == Parsed::Done { expr: b1, pos: 5, st: bump(s5) });
        assert(infix_loop_spec(ls, 1, Precedence::Lowest, ex, st1) == Parsed::Done { expr: b1, pos: 5, st: bump(s5) });
    }
}

proof fn lemma_loop_stops_at_weaker(ls: Seq<Lexeme>, pos: int, prec: Precedence, left: Expr, st: ParseState)
    requires
        lexemes_ok(ls),
    ensures
        infix_loop_spec(ls, pos, prec, left, st) matches Parsed::Done { pos: p, .. } ==> 0 <= p < ls.len()
            && prec_rank(prec) >= prec_rank(Precedence::of_token(ls[p].token.tag)),
    decreases ls.len() - pos,
{
    if 0 <= pos < ls.len() && prec_rank(prec) < prec_rank(Precedence::of_token(ls[pos].token.tag)) && pos + 1
        < ls.len() {
        match parse_infix_spec(ls, pos, left, st) {
            Parsed::Done { expr, pos: p, st: s } => if pos < p < ls.len() {
                lemma_loop_stops_at_weaker(ls, p, prec, expr, s);
            },
            _ => {},
        }
    } else if 0 <= pos < ls.len() && prec_rank(prec) < prec_rank(Precedence::of_token(ls[pos].token.tag)) {
        assert(ls[pos].token.tag == TokenType::Eof);
    }
}

/// An expression ends at the first token that does not bind more strongly
/// than the level it was parsed at: parsing takes the longest expression
/// it can.
pub proof fn law_expression_ends_at_weaker_token(ls: Seq<Lexeme>, pos: int, prec: Precedence, st: ParseState)
    requires
        lexemes_ok(ls),
    ensures
        parse_expr_spec(ls, pos, prec, st) matches Parsed::Done { pos: p, .. } ==> 0 <= p < ls.len()
            && prec_rank(prec) >= prec_rank(Precedence::of_token(ls[p].token.tag)),
{
    if 0 <= pos < ls.len() {
        match parse_prefix_spec(ls, pos, st) {
            Parsed::Done { expr, pos: p, st: s } => if pos < p < ls.len() {
                lemma_loop_stops_at_weaker(ls, p, prec, expr, s);
            },
            _ => {},
        }
    }
}

/// The binding strength of the infix token `t`.
pub open spec fn strength(t: TokenType) -> nat {
    prec_rank(Precedence::of_token(t))
}

/// `t` is one of `*`, `/`, `%`.
pub open spec fn is_multiplicative(t: TokenType) -> bool {
    t == TokenType::Star || t == TokenType::Slash || t == TokenType::Percent
}

/// `t` is one of `+`, `-`.
pub open spec fn is_additive(t: TokenType) -> bool {
    t == TokenType::Plus || t == TokenType::Minus
}

/// The operators bind in the usual order: `*` `/` `%` alike and more
/// strongly than `+` `-` (alike, with `|` `^` `&`), which bind more
/// strongly than the shifts, then the comparisons `<` `<=` `>` `>=`
/// (alike), then `==` `!=` (alike), then `and`, then `or`, then every
/// assignment operator (alike), which still binds more strongly than
/// `Lowest`; postfix forms bind more strongly than `as`, and `as` more
/// strongly than `*`.
pub proof fn law_operator_levels()
    ensures
        strength(TokenType::Slash) == strength(TokenType::Star),
        strength(TokenType::Percent) == strength(TokenType::Star),
        strength(TokenType::Minus) == strength(TokenType::Plus),
        strength(TokenType::Pipe) == strength(TokenType::Plus),
        strength(TokenType::Caret) == strength(TokenType::Plus),
        strength(TokenType::Ampersand) == strength(TokenType::Plus),
        strength(TokenType::Star) > strength(TokenType::Plus),
        strength(TokenType::Plus) > strength(TokenType::LShift),
        strength(TokenType::RShift) == strength(TokenType::LShift),
        strength(TokenType::LShift) > strength(TokenType::LessThan),
        strength(TokenType::LessEqual) == strength(TokenType::LessThan),
        strength(TokenType::GreaterThan) == strength(TokenType::LessThan),
        strength(TokenType::GreaterEqual) == strength(TokenType::LessThan),
        strength(TokenType::LessThan) > strength(TokenType::EqualEqual),
        strength(TokenType::NotEqual) == strength(TokenType::EqualEqual),
        strength(TokenType::EqualEqual) > strength(TokenType::And),
        strength(TokenType::And) > strength(TokenType::Or),
        strength(TokenType::Or) > strength(TokenType::Assign),
        forall|t: TokenType| AssignmentOperator::is_token(t) ==> strength(t) == strength(TokenType::Assign),
        strength(TokenType::Assign) > 0,
        strength(TokenType::Dot) > strength(TokenType::As),
        strength(TokenType::DotLBracket) == strength(TokenType::Dot),
        strength(TokenType::LParen) == strength(TokenType::Dot),
        strength(TokenType::DotStar) == strength(TokenType::Dot),
        strength(TokenType::DotAmpersand) == strength(TokenType::Dot),
        strength(TokenType::As) > strength(TokenType::Star),
        strength(TokenType::Eof) == 0,
        strength(TokenType::Semicolon) == 0,
        strength(TokenType::RParen) == 0,
{
    assert forall|t: TokenType| AssignmentOperator::is_token(t) implies strength(t) == strength(TokenType::Assign) by {
        let op = choose|op: AssignmentOperator| op.token() == t;
        match op {
            _ => {},
        }
    }
}

/// In `x o1 y o2 z` with `o1` one of `+ -` and `o2` one of `* / %`, the
/// product `y o2 z` is the right operand of `o1`; with `o1` one of `* / %`
/// and `o2` one of `+ -`, the product `x o1 y` is the left operand of
/// `o2`; two operators of the same group take their operands from the
/// left: `(x o1 y) o2 z`.
pub proof fn law_products_bind_before_sums(ls: Seq<Lexeme>, st: ParseState)
    requires
        two_operator_input(ls),
        is_additive(ls[1].token.tag) || is_multiplicative(ls[1].token.tag),
        is_additive(ls[3].token.tag) || is_multiplicative(ls[3].token.tag),
    ensures
        parse_expr_spec(ls, 0, Precedence::Lowest, st) matches Parsed::Done { expr, pos, .. } && (pos == 5
            && (binary_parts(expr) matches Some((l, op, r)) && (if is_additive(ls[1].token.tag)
            && is_multiplicative(ls[3].token.tag) {
            &&& op == binary_of(ls[1].token.tag).unwrap()
            &&& l.kind is Identifier
            &&& (binary_parts(r) matches Some((_, op2, _)) && op2 == binary_of(ls[3].token.tag).unwrap())
        } else {
            &&& op == binary_of(ls[3].token.tag).unwrap()
            &&& r.kind is Identifier
            &&& (binary_parts(l) matches Some((_, op1, _)) && op1 == binary_of(ls[1].token.tag).unwrap())
        }))),
{
    law_operator_levels();
    law_binary_operators_group_by_precedence(ls, st);
}

/// Each operator token reads as the operator it spells: `/` is division,
/// `%` the remainder, `+=` an adding assignment, prefix `~` the bitwise
/// complement, and so on; tokens that are not operators read as none.
pub proof fn law_operator_tokens()
    ensures
        binary_of(TokenType::Plus) == Some(BinaryOperator::Add),
        binary_of(TokenType::Minus) == Some(BinaryOperator::Subtract),
        binary_of(TokenType::Star) == Some(BinaryOperator::Multiply),
        binary_of(TokenType::Slash) == Some(BinaryOperator::Divide),
        binary_of(TokenType::Percent) == Some(BinaryOperator::Modulo),
        binary_of(TokenType::EqualEqual) == Some(BinaryOperator::Equal),
        binary_of(TokenType::NotEqual) == Some(BinaryOperator::NotEqual),
        binary_of(TokenType::LessThan) == Some(BinaryOperator::LessThan),
        binary_of(TokenType::GreaterThan) == Some(BinaryOperator::GreaterThan),
        binary_of(TokenType::LessEqual) == Some(BinaryOperator::LessOrEqual),
        binary_of(TokenType::GreaterEqual) == Some(BinaryOperator::GreaterOrEqual),
        binary_of(TokenType::And) == Some(BinaryOperator::LogicalAnd),
        binary_of(TokenType::Or) == Some(BinaryOperator::LogicalOr),
        binary_of(TokenType::Ampersand) == Some(BinaryOperator::BitwiseAnd),
        binary_of(TokenType::Pipe) == Some(BinaryOperator::BitwiseOr),
        binary_of(TokenType::Caret) == Some(BinaryOperator::BitwiseXor),
        binary_of(TokenType::LShift) == Some(BinaryOperator::ShiftLeft),
        binary_of(TokenType::RShift) == Some(BinaryOperator::ShiftRight),
        assignment_of(TokenType::Assign) == Some(AssignmentOperator::Assign),
        assignment_of(TokenType::PlusAssign) == Some(AssignmentOperator::AddAssign),
        assignment_of(TokenType::MinusAssign) == Some(AssignmentOperator::SubtractAssign),
        assignment_of(TokenType::StarAssign) == Some(AssignmentOperator::MultiplyAssign),
        assignment_of(TokenType::SlashAssign) == Some(AssignmentOperator::DivideAssign),
        assignment_of(TokenType::PercentAssign) == Some(AssignmentOperator::ModuloAssign),
        assignment_of(TokenType::AmpersandAssign) == Some(AssignmentOperator::BitwiseAndAssign),
        assignment_of(TokenType::PipeAssign) == Some(AssignmentOperator::BitwiseOrAssign),
        assignment_of(TokenType::CaretAssign) == Some(AssignmentOperator::BitwiseXorAssign),
        assignment_of(TokenType::LShiftAssign) == Some(AssignmentOperator::ShiftLeftAssign),
        assignment_of(TokenType::RShiftAssign) == Some(AssignmentOperator::ShiftRightAssign),
        binary_of(TokenType::Assign) is None,
        binary_of(TokenType::Dot) is None,
        assignment_of(TokenType::Plus) is None,
        prefix_operator(TokenType::Minus) == Some(UnaryOperator::Negate),
        prefix_operator(TokenType::Bang) == Some(UnaryOperator::LogicalNot),
        prefix_operator(TokenType::Tilde) == Some(UnaryOperator::BitwiseNot),
        prefix_operator(TokenType::Hash) == Some(UnaryOperator::LengthOf),
{
    super::ast::lemma_binary_operator_token_injective(choose|o: BinaryOperator| o.token() == TokenType::Plus, BinaryOperator::Add);
    assert(BinaryOperator::Add.token() == TokenType::Plus);
    super::ast::lemma_binary_operator_token_injective(choose|o: BinaryOperator| o.token() == TokenType::Minus, BinaryOperator::Subtract);
    assert(BinaryOperator::Subtract.token() == TokenType::Minus);
    super::ast::lemma_binary_operator_token_injective(choose|o: BinaryOperator| o.token() == TokenType::Star, BinaryOperator::Multiply);
    assert(BinaryOperator::Multiply.token() == TokenType::Star);
    super::ast::lemma_binary_operator_token_injective(choose|o: BinaryOperator| o.token() == TokenType::Slash, BinaryOperator::Divide);
    assert(BinaryOperator::Divide.token() == TokenType::Slash);
    super::ast::lemma_binary_operator_token_injective(choose|o: BinaryOperator| o.token() == TokenType::Percent, BinaryOperator::Modulo);
    assert(BinaryOperator::Modulo.token() == TokenType::Percent);
    super::ast::lemma_binary_operator_token_injective(choose|o: BinaryOperator| o.token() == TokenType::EqualEqual, BinaryOperator::Equal);
    assert(BinaryOperator::Equal.token() == TokenType::EqualEqual);
    super::ast::lemma_binary_operator_token_injective(choose|o: BinaryOperator| o.token() == TokenType::NotEqual, BinaryOperator::NotEqual);
    assert(BinaryOperator::NotEqual.token() == TokenType::NotEqual);
    super::ast::lemma_binary_operator_token_injective(choose|o: BinaryOperator| o.token() == TokenType::LessThan, BinaryOperator::LessThan);
    assert(BinaryOperator::LessThan.token() == TokenType::LessThan);
    super::ast::lemma_binary_operator_token_injective(choose|o: BinaryOperator| o.token() == TokenType::GreaterThan, BinaryOperator::GreaterThan);
    assert(BinaryOperator::GreaterThan.token() == TokenType::GreaterThan);
    super::ast::lemma_binary_operator_token_injective(choose|o: BinaryOperator| o.token() == TokenType::LessEqual, BinaryOperator::LessOrEqual);
    assert(BinaryOperator::LessOrEqual.token() == TokenType::LessEqual);
    super::ast::lemma_binary_operator_token_injective(choose|o: BinaryOperator| o.token() == TokenType::GreaterEqual, BinaryOperator::GreaterOrEqual);
    assert(BinaryOperator::GreaterOrEqual.token() == TokenType::GreaterEqual);
    super::ast::lemma_binary_operator_token_injective(choose|o: BinaryOperator| o.token() == TokenType::And, BinaryOperator::LogicalAnd);
    assert(BinaryOperator::LogicalAnd.token() == TokenType::And);
    super::ast::lemma_binary_operator_token_injective(choose|o: BinaryOperator| o.token() == TokenType::Or, BinaryOperator::LogicalOr);
    assert(BinaryOperator::LogicalOr.token() == TokenType::Or);
    super::ast::lemma_binary_operator_token_injective(choose|o: BinaryOperator| o.token() == TokenType::Ampersand, BinaryOperator::BitwiseAnd);
    assert(BinaryOperator::BitwiseAnd.token() == TokenType::Ampersand);
    super::ast::lemma_binary_operator_token_injective(choose|o: BinaryOperator| o.token() == TokenType::Pipe, BinaryOperator::BitwiseOr);
    assert(BinaryOperator::BitwiseOr.token() == TokenType::Pipe);
    super::ast::lemma_binary_operator_token_injective(choose|o: BinaryOperator| o.token() == TokenType::Caret, BinaryOperator::BitwiseXor);
    assert(BinaryOperator::BitwiseXor.token() == TokenType::Caret);
    super::ast::lemma_binary_operator_token_injective(choose|o: BinaryOperator| o.token() == TokenType::LShift, BinaryOperator::ShiftLeft);
    assert(BinaryOperator::ShiftLeft.token() == TokenType::LShift);
    super::ast::lemma_binary_operator_token_injective(choose|o: BinaryOperator| o.token() == TokenType::RShift, BinaryOperator::ShiftRight);
    assert(BinaryOperator::ShiftRight.token() == TokenType::RShift);
    super::ast::lemma_assignment_operator_token_injective(choose|o: AssignmentOperator| o.token() == TokenType::Assign, AssignmentOperator::Assign);
    assert(AssignmentOperator::Assign.token() == TokenType::Assign);
    super::ast::lemma_assignment_operator_token_injective(choose|o: AssignmentOperator| o.token() == TokenType::PlusAssign, AssignmentOperator::AddAssign);
    assert(AssignmentOperator::AddAssign.token() == TokenType::PlusAssign);
    super::ast::lemma_assignment_operator_token_injective(choose|o: AssignmentOperator| o.token() == TokenType::MinusAssign, AssignmentOperator::SubtractAssign);
    assert(AssignmentOperator::SubtractAssign.token() == TokenType::MinusAssign);
    super::ast::lemma_assignment_operator_token_injective(choose|o: AssignmentOperator| o.token() == TokenType::StarAssign, AssignmentOperator::MultiplyAssign);
    assert(AssignmentOperator::MultiplyAssign.token() == TokenType::StarAssign);
    super::ast::lemma_assignment_operator_token_injective(choose|o: AssignmentOperator| o.token() == TokenType::SlashAssign, AssignmentOperator::DivideAssign);
    assert(AssignmentOperator::DivideAssign.token() == TokenType::SlashAssign);
    super::ast::lemma_assignment_operator_token_injective(choose|o: AssignmentOperator| o.token() == TokenType::PercentAssign, AssignmentOperator::ModuloAssign);
    assert(AssignmentOperator::ModuloAssign.token() == TokenType::PercentAssign);
    super::ast::lemma_assignment_operator_token_injective(choose|o: AssignmentOperator| o.token() == TokenType::AmpersandAssign, AssignmentOperator::BitwiseAndAssign);
    assert(AssignmentOperator::BitwiseAndAssign.token() == TokenType::AmpersandAssign);
    super::ast::lemma_assignment_operator_token_injective(choose|o: AssignmentOperator| o.token() == TokenType::PipeAssign, AssignmentOperator::BitwiseOrAssign);
    assert(AssignmentOperator::BitwiseOrAssign.token() == TokenType::PipeAssign);
    super::ast::lemma_assignment_operator_token_injective(choose|o: AssignmentOperator| o.token() == TokenType::CaretAssign, AssignmentOperator::BitwiseXorAssign);
    assert(AssignmentOperator::BitwiseXorAssign.token() == TokenType::CaretAssign);
    super::ast::lemma_assignment_operator_token_injective(choose|o: AssignmentOperator| o.token() == TokenType::LShiftAssign, AssignmentOperator::ShiftLeftAssign);
    assert(AssignmentOperator::ShiftLeftAssign.token() == TokenType::LShiftAssign);
    super::ast::lemma_assignment_operator_token_injective(choose|o: AssignmentOperator| o.token() == TokenType::RShiftAssign, AssignmentOperator::ShiftRightAssign);
    assert(AssignmentOperator::ShiftRightAssign.token() == TokenType::RShiftAssign);
    assert forall|o: BinaryOperator| #[trigger] o.token() != TokenType::Assign && o.token() != TokenType::Dot by {
        match o {
            _ => {},
        }
    }
    assert forall|o: AssignmentOperator| #[trigger] o.token() != TokenType::Plus by {
        match o {
            _ => {},
        }
    }
}

} // verus!
