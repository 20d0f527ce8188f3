use crate::utils::Span;
use vstd::prelude::*;

verus! {

/// A lexed token: its kind and where it stands in the source.
#[derive(Default, Debug, Clone, Copy, PartialEq, Eq, Hash, PartialOrd, Ord, Structural)]
pub struct Token {
    pub tag: TokenType,
    pub span: Span,
}

/// The kinds of token of the Kern language.
#[derive(Default, Debug, Clone, Copy, PartialEq, Eq, Hash, PartialOrd, Ord, Structural)]
pub enum TokenType {
    Identifier,
    IntLiteral,
    FloatLiteral,
    StringLiteral,
    CharLiteral,
    Fn,
    Let,
    Mut,
    Const,
    Static,
    Type,
    Struct,
    Enum,
    Union,
    Trait,
    If,
    Else,
    Switch,
    For,
    Break,
    Continue,
    Return,
    Defer,
    Pub,
    Extern,
    Use,
    Impl,
    True,
    False,
    Undef,
    As,
    And,
    Or,
    Underscore,
    SelfType,
    SelfValue,
    Adt,
    Match,
    Plus,
    Minus,
    Star,
    Slash,
    Percent,
    Hash,
    At,
    Caret,
    Bang,
    Ampersand,
    Pipe,
    Tilde,
    EqualEqual,
    NotEqual,
    LessThan,
    LessEqual,
    GreaterThan,
    GreaterEqual,
    LShift,
    RShift,
    Assign,
    PlusAssign,
    MinusAssign,
    StarAssign,
    SlashAssign,
    PercentAssign,
    AmpersandAssign,
    PipeAssign,
    CaretAssign,
    LShiftAssign,
    RShiftAssign,
    Dot,
    DotDot,
    DotDotEqual,
    DotAmpersand,
    DotStar,
    DotLBracket,
    DotLBrace,
    Ellipsis,
    Comma,
    Colon,
    Semicolon,
    LParen,
    RParen,
    LBrace,
    RBrace,
    LBracket,
    RBracket,
    Arrow,
    Eof,
    #[default]
    Illegal,
}

} // verus!
