pub mod ast;
pub mod escape;
pub mod expr;
pub mod literal;
pub mod token;

use token::TokenType;
use vstd::prelude::*;

verus! {

/// Binding strength of an operator in an expression, weakest first.
#[derive(Debug, Clone, Copy, PartialEq, Eq, PartialOrd, Ord, Structural)]
pub enum Precedence {
    Lowest,
    /// `=` and the compound assignments.
    Assignment,
    /// `or`
    LogicalOr,
    /// `and`
    LogicalAnd,
    /// `==` `!=`
    Equality,
    /// `<` `>` `<=` `>=`
    Comparison,
    /// `<<` `>>`
    Shift,
    /// `+` `-` `|` `^` `&`
    Term,
    /// `*` `/` `%`
    Factor,
    /// Prefix `!` `-` `*` `&`.
    Unary,
    /// `as`
    Cast,
    /// Calls, field access, indexing and the postfix forms.
    Call,
}

impl Precedence {
    /// How strongly the token binds the expression before it as an infix or
    /// postfix operator; `Lowest` for a token that is neither.
    pub open spec fn of_token(t: TokenType) -> Precedence {
        match t {
            TokenType::Dot
            | TokenType::DotLBracket
            | TokenType::DotLBrace
            | TokenType::DotStar
            | TokenType::LParen
            | TokenType::LBracket
            | TokenType::DotAmpersand
            | TokenType::Bang => Precedence::Call,
            TokenType::As => Precedence::Cast,
            TokenType::Star | TokenType::Slash | TokenType::Percent => Precedence::Factor,
            TokenType::Plus | TokenType::Minus | TokenType::Pipe | TokenType::Caret
            | TokenType::Ampersand => Precedence::Term,
            TokenType::LShift | TokenType::RShift => Precedence::Shift,
            TokenType::LessThan
            | TokenType::LessEqual
            | TokenType::GreaterThan
            | TokenType::GreaterEqual => Precedence::Comparison,
            TokenType::EqualEqual | TokenType::NotEqual => Precedence::Equality,
            TokenType::And => Precedence::LogicalAnd,
            TokenType::Or => Precedence::LogicalOr,
            TokenType::Assign
            | TokenType::PlusAssign
            | TokenType::MinusAssign
            | TokenType::StarAssign
            | TokenType::SlashAssign
            | TokenType::PercentAssign
            | TokenType::AmpersandAssign
            | TokenType::PipeAssign
            | TokenType::CaretAssign
            | TokenType::LShiftAssign
            | TokenType::RShiftAssign => Precedence::Assignment,
            _ => Precedence::Lowest,
        }
    }

    pub fn from_token(t: TokenType) -> (p: Self)
        ensures
            p == Self::of_token(t),
    {
        match t {
            TokenType::Dot
            | TokenType::DotLBracket
            | TokenType::DotLBrace
            | TokenType::DotStar
            | TokenType::LParen
            | TokenType::LBracket
            | TokenType::DotAmpersand
            | TokenType::Bang => Self::Call,
            TokenType::As => Self::Cast,
            TokenType::Star | TokenType::Slash | TokenType::Percent => Self::Factor,
            TokenType::Plus | TokenType::Minus | TokenType::Pipe | TokenType::Caret
            | TokenType::Ampersand => Self::Term,
            TokenType::LShift | TokenType::RShift => Self::Shift,
            TokenType::LessThan
            | TokenType::LessEqual
            | TokenType::GreaterThan
            | TokenType::GreaterEqual => Self::Comparison,
            TokenType::EqualEqual | TokenType::NotEqual => Self::Equality,
            TokenType::And => Self::LogicalAnd,
            TokenType::Or => Self::LogicalOr,
            TokenType::Assign
            | TokenType::PlusAssign
            | TokenType::MinusAssign
            | TokenType::StarAssign
            | TokenType::SlashAssign
            | TokenType::PercentAssign
            | TokenType::AmpersandAssign
            | TokenType::PipeAssign
            | TokenType::CaretAssign
            | TokenType::LShiftAssign
            | TokenType::RShiftAssign => Self::Assignment,
            _ => Self::Lowest,
        }
    }
}

/// Every binary operator token binds as an infix operator: its precedence
/// is above `Lowest`, so an expression such as `1 << 12` or `a & b` goes on
/// past its left operand.
pub proof fn law_binary_operators_bind(t: TokenType)
    requires
        ast::BinaryOperator::is_token(t),
    ensures
        Precedence::of_token(t) != Precedence::Lowest,
{
}

} // verus!
