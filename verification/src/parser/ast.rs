use super::token::TokenType;
use crate::utils::{Span, SymbolId};
use vstd::prelude::*;

verus! {

/// Identifier of an AST node.
#[derive(Debug, Clone, Copy, PartialEq, Eq, Hash, PartialOrd, Ord, Structural)]
pub struct NodeId(pub u32);

impl NodeId {
    pub fn to_usize(self) -> (r: usize)
        ensures
            r == self.0,
    {
        self.0 as usize
    }
}

#[derive(Debug, Clone, Copy, PartialEq, Eq, Structural)]
pub enum BinaryOperator {
    Add,
    Subtract,
    Multiply,
    Divide,
    Modulo,
    Equal,
    NotEqual,
    LessThan,
    GreaterThan,
    LessOrEqual,
    GreaterOrEqual,
    LogicalAnd,
    LogicalOr,
    BitwiseAnd,
    BitwiseOr,
    BitwiseXor,
    ShiftLeft,
    ShiftRight,
}

impl BinaryOperator {
    /// The token that spells this operator in source text.
    pub open spec fn token(self) -> TokenType {
        match self {
            BinaryOperator::Add => TokenType::Plus,
            BinaryOperator::Subtract => TokenType::Minus,
            BinaryOperator::Multiply => TokenType::Star,
            BinaryOperator::Divide => TokenType::Slash,
            BinaryOperator::Modulo => TokenType::Percent,
            BinaryOperator::Equal => TokenType::EqualEqual,
            BinaryOperator::NotEqual => TokenType::NotEqual,
            BinaryOperator::LessThan => TokenType::LessThan,
            BinaryOperator::GreaterThan => TokenType::GreaterThan,
            BinaryOperator::LessOrEqual => TokenType::LessEqual,
            BinaryOperator::GreaterOrEqual => TokenType::GreaterEqual,
            BinaryOperator::LogicalAnd => TokenType::And,
            BinaryOperator::LogicalOr => TokenType::Or,
            BinaryOperator::BitwiseAnd => TokenType::Ampersand,
            BinaryOperator::BitwiseOr => TokenType::Pipe,
            BinaryOperator::BitwiseXor => TokenType::Caret,
            BinaryOperator::ShiftLeft => TokenType::LShift,
            BinaryOperator::ShiftRight => TokenType::RShift,
        }
    }

    /// `t` spells some binary operator.
    pub open spec fn is_token(t: TokenType) -> bool {
        exists|op: BinaryOperator| op.token() == t
    }

    /// The operator that `token` spells; `token` must spell one.
    pub fn from_token(token: TokenType) -> (op: Self)
        requires
            Self::is_token(token),
        ensures
            op.token() == token,
    {
        match token {
            TokenType::Plus => Self::Add,
            TokenType::Minus => Self::Subtract,
            TokenType::Star => Self::Multiply,
            TokenType::Slash => Self::Divide,
            TokenType::Percent => Self::Modulo,
            TokenType::EqualEqual => Self::Equal,
            TokenType::NotEqual => Self::NotEqual,
            TokenType::LessThan => Self::LessThan,
            TokenType::GreaterThan => Self::GreaterThan,
            TokenType::LessEqual => Self::LessOrEqual,
            TokenType::GreaterEqual => Self::GreaterOrEqual,
            TokenType::And => Self::LogicalAnd,
            TokenType::Or => Self::LogicalOr,
            TokenType::Ampersand => Self::BitwiseAnd,
            TokenType::Pipe => Self::BitwiseOr,
            TokenType::Caret => Self::BitwiseXor,
            TokenType::LShift => Self::ShiftLeft,
            TokenType::RShift => Self::ShiftRight,
            _ => {
                proof {
                    let op = choose|op: BinaryOperator| op.token() == token;
                    assert(op.token() == token);
                }
                Self::Add
            },
        }
    }
}

/// Distinct binary operators are spelled by distinct tokens, so reading an
/// operator back from its token gives the same operator.
pub proof fn lemma_binary_operator_token_injective(a: BinaryOperator, b: BinaryOperator)
    ensures
        a.token() == b.token() ==> a == b,
{
}

#[derive(Debug, Clone, Copy, PartialEq, Eq, Structural)]
pub enum UnaryOperator {
    Negate,
    LogicalNot,
    BitwiseNot,
    AddressOf,
    LengthOf,
    PointerDeRef,
}

#[derive(Debug, Clone, Copy, PartialEq, Eq, Structural)]
pub enum AssignmentOperator {
    Assign,
    AddAssign,
    SubtractAssign,
    MultiplyAssign,
    DivideAssign,
    ModuloAssign,
    BitwiseAndAssign,
    BitwiseOrAssign,
    BitwiseXorAssign,
    ShiftLeftAssign,
    ShiftRightAssign,
}

impl AssignmentOperator {
    /// The token that spells this operator in source text.
    pub open spec fn token(self) -> TokenType {
        match self {
            AssignmentOperator::Assign => TokenType::Assign,
            AssignmentOperator::AddAssign => TokenType::PlusAssign,
            AssignmentOperator::SubtractAssign => TokenType::MinusAssign,
            AssignmentOperator::MultiplyAssign => TokenType::StarAssign,
            AssignmentOperator::DivideAssign => TokenType::SlashAssign,
            AssignmentOperator::ModuloAssign => TokenType::PercentAssign,
            AssignmentOperator::BitwiseAndAssign => TokenType::AmpersandAssign,
            AssignmentOperator::BitwiseOrAssign => TokenType::PipeAssign,
            AssignmentOperator::BitwiseXorAssign => TokenType::CaretAssign,
            AssignmentOperator::ShiftLeftAssign => TokenType::LShiftAssign,
            AssignmentOperator::ShiftRightAssign => TokenType::RShiftAssign,
        }
    }

    /// `t` spells some assignment operator.
    pub open spec fn is_token(t: TokenType) -> bool {
        exists|op: AssignmentOperator| op.token() == t
    }

    /// The operator that `token` spells; `token` must spell one.
    pub fn from_token(token: TokenType) -> (op: Self)
        requires
            Self::is_token(token),
        ensures
            op.token() == token,
    {
        match token {
            TokenType::Assign => Self::Assign,
            TokenType::PlusAssign => Self::AddAssign,
            TokenType::MinusAssign => Self::SubtractAssign,
            TokenType::StarAssign => Self::MultiplyAssign,
            TokenType::SlashAssign => Self::DivideAssign,
            TokenType::PercentAssign => Self::ModuloAssign,
            TokenType::AmpersandAssign => Self::BitwiseAndAssign,
            TokenType::PipeAssign => Self::BitwiseOrAssign,
            TokenType::CaretAssign => Self::BitwiseXorAssign,
            TokenType::LShiftAssign => Self::ShiftLeftAssign,
            TokenType::RShiftAssign => Self::ShiftRightAssign,
            _ => {
                proof {
                    let op = choose|op: AssignmentOperator| op.token() == token;
                    assert(op.token() == token);
                }
                Self::Assign
            },
        }
    }
}

/// Distinct assignment operators are spelled by distinct tokens.
pub proof fn lemma_assignment_operator_token_injective(a: AssignmentOperator, b: AssignmentOperator)
    ensures
        a.token() == b.token() ==> a == b,
{
}


#[derive(Debug, PartialEq)]
pub struct TypeNode {
    pub id: NodeId,
    pub span: Span,
    pub kind: TypeKind,
}

#[derive(Debug, PartialEq)]
pub enum TypeKind {
    /// A named type: `i32`, `std.io.File`, `Map[K, V]`
    Path {
        segments: Vec<SymbolId>,
        generics: Vec<TypeNode>,
    },

    /// Pointer: `*T`, `*mut T`
    Pointer { elem: Box<TypeNode> },

    /// Volatile pointer: `^T`, `^mut T`
    VolatilePtr { elem: Box<TypeNode> },

    /// Array: `[N]T`
    Array {
        elem: Box<TypeNode>,
        len: Box<Expr>,
    },

    /// Slice: `[]T`
    Slice { elem: Box<TypeNode> },

    /// The `mut T` modifier.
    Mut(Box<TypeNode>),

    /// Function pointer: `fn(i32) bool`
    Function {
        params: Vec<TypeNode>,
        ret: Option<Box<TypeNode>>,
        is_variadic: bool,
    },

    /// Struct definition.
    Struct { fields: Vec<StructFieldDef> },

    /// Union definition.
    Union { fields: Vec<StructFieldDef> },

    /// Enum definition.
    Enum {
        backing_type: Option<Box<TypeNode>>,
        variants: Vec<EnumVariant>,
    },

    /// Trait definition.
    Trait { fields: Vec<StructFieldDef> },

    /// Algebraic data type definition,
    /// such as `adt { Some: T, None }`.
    Adt { variants: Vec<AdtVariant> },

    /// The placeholder `_`, to be inferred.
    Infer,

    /// The type the enclosing `impl` block is for.
    SelfType,
}

#[derive(Debug, PartialEq)]
pub struct StructFieldDef {
    pub name: SymbolId,
    pub type_node: TypeNode,
    pub default_value: Option<Box<Expr>>,
    pub span: Span,
}

#[derive(Debug, PartialEq)]
pub struct EnumVariant {
    pub name: SymbolId,
    pub value: Option<Box<Expr>>,
    pub span: Span,
}

#[derive(Debug, PartialEq)]
pub struct AdtVariant {
    pub name: SymbolId,
    /// The payload type; `None` for a variant without payload, like `None`.
    pub payload_type: Option<Box<TypeNode>>,
    pub span: Span,
}

#[derive(Debug, PartialEq)]
pub struct Expr {
    pub id: NodeId,
    pub span: Span,
    pub kind: ExprKind,
}

#[derive(Debug, PartialEq)]
pub enum ExprKind {
    /// `let x = v` (mutability is part of the type of `v`, as in `let x = mut i32.{10}`)
    Let {
        name: SymbolId,
        init: Box<Expr>,
    },

    /// `static x = v`
    Static {
        name: SymbolId,
        init: Box<Expr>,
    },

    Integer(u128),
    /// A float literal, held as the bits of its IEEE-754 binary64 value.
    Float(u64),
    Bool(bool),
    Char(char),
    String(String),
    Identifier(SymbolId),

    Binary {
        lhs: Box<Expr>,
        op: BinaryOperator,
        rhs: Box<Expr>,
    },
    Unary {
        op: UnaryOperator,
        operand: Box<Expr>,
    },

    FieldAccess {
        lhs: Box<Expr>,
        field: SymbolId,
    },
    IndexAccess {
        lhs: Box<Expr>,
        index: Box<Expr>,
    },
    Call {
        callee: Box<Expr>,
        args: Vec<Expr>,
    },

    /// Data literal: `Type.{ ... }` or `.{ ... }`.
    DataInit {
        /// `None` for `.{ ... }`;
        /// for `Point.{ ... }`, the type node of `Point`.
        type_node: Option<Box<TypeNode>>,
        /// The data itself.
        literal: DataLiteralKind,
    },

    /// Enum or context shorthand: `.Red`, `.Ok`
    EnumLiteral(SymbolId),

    If {
        cond: Box<Expr>,
        then_branch: Box<Expr>,
        else_branch: Option<Box<Expr>>,
    },
    Match {
        target: Box<Expr>,
        arms: Vec<MatchArm>,
    },
    Switch {
        target: Box<Expr>,
        cases: Vec<SwitchCase>,
        default_case: Option<Box<Expr>>,
    },

    /// Block: `{ stmt; stmt; expr }`
    Block {
        stmts: Vec<Stmt>,
        result: Option<Box<Expr>>,
    },

    /// `for (init; cond; post) body`
    For {
        init: Option<Box<Expr>>,
        cond: Option<Box<Expr>>,
        post: Option<Box<Expr>>,
        body: Box<Expr>,
    },

    /// Slicing: `arr.[start..end]`
    SliceOp {
        lhs: Box<Expr>,
        start: Option<Box<Expr>>,
        end: Option<Box<Expr>>,
        is_inclusive: bool,
    },

    /// Deferred execution: `defer expr`
    Defer {
        expr: Box<Expr>,
    },

    Break,
    Continue,
    Return(Option<Box<Expr>>),

    Assign {
        lhs: Box<Expr>,
        op: AssignmentOperator,
        rhs: Box<Expr>,
    },

    As {
        lhs: Box<Expr>,
        target: Box<TypeNode>,
    },

    Undef,

    /// Generic instantiation: `target[T, U]`
    GenericInstantiation {
        target: Box<Expr>,
        types: Vec<TypeNode>,
    },

    /// `self`
    SelfValue,

    /// Stateless anonymous function,
    /// written `fn(a: i32, b: i32) bool { return a < b; }`.
    Lambda {
        params: Vec<FuncParam>,
        ret_type: Box<TypeNode>,
        body: Box<Expr>,
    },
}

#[derive(Debug, PartialEq)]
pub enum DataLiteralKind {
    /// Struct form: `.{ x: 1, y: 2 }`
    Struct(Vec<StructFieldInit>),

    /// Array list form: `.{ 1, 2, 3 }`
    Array(Vec<Expr>),

    /// Array repeat form: `.{ 0; 1024 }`
    Repeat { value: Box<Expr>, count: Box<Expr> },

    /// Single-value form: `.{ 10 }`
    Scalar(Box<Expr>),
}

#[derive(Debug, PartialEq)]
pub struct StructFieldInit {
    pub name: SymbolId,
    pub value: Expr,
    pub span: Span,
}

#[derive(Debug, PartialEq)]
pub struct SwitchCase {
    pub patterns: Vec<SwitchPattern>,
    pub body: Expr,
    pub span: Span,
}

#[derive(Debug, PartialEq)]
pub enum SwitchPattern {
    Value(Expr),
    Range {
        start: Expr,
        end: Expr,
        inclusive: bool,
    },
}

#[derive(Debug, PartialEq)]
pub struct MatchArm {
    pub pattern: MatchPattern,
    pub body: Expr,
    pub span: Span,
}

#[derive(Debug, PartialEq)]
pub enum MatchPattern {
    /// A variant of an ADT,
    /// written `[TypeNode.]Variant [: binding]`,
    /// as in `.Ok: val`, `Result[i32, i32].Err: code`, `.None`.
    Variant {
        /// The full type, where written (such as `Result[i32, i32]`).
        target_type: Option<Box<TypeNode>>,
        /// The variant's name (such as `Ok`, `None`).
        variant_name: SymbolId,
        /// The binding of the payload (such as `: val`); `None` for a variant without payload.
        binding: Option<SymbolId>,
        /// The span of the whole pattern.
        span: Span,
    },

    /// The catch-all arm: `else =>`
    CatchAll(Span),
}

#[derive(Debug, PartialEq)]
pub struct Stmt {
    pub id: NodeId,
    pub span: Span,
    pub kind: StmtKind,
}

#[derive(Debug, PartialEq)]
pub enum StmtKind {
    /// Expression statement: `expr;`
    ExprStmt(Expr),

    /// The final expression of a block: `expr`
    ExprValue(Expr),
}

#[derive(Debug, PartialEq)]
pub struct GenericParam {
    pub name: SymbolId,
    pub constraints: Vec<TypeNode>,
    pub span: Span,
}

#[derive(Debug, PartialEq)]
pub struct Decl {
    pub id: NodeId,
    pub span: Span,
    pub name: SymbolId,
    pub is_pub: bool,
    pub kind: DeclKind,
}

#[derive(Debug, PartialEq)]
pub enum DeclKind {
    /// `fn name[T](...) Ret { ... }`
    Function {
        generics: Vec<GenericParam>,
        params: Vec<FuncParam>,
        ret_type: TypeNode,
        body: Option<Box<Expr>>,
        is_extern: bool,
        is_variadic: bool,
    },

    /// `const x = ...` or `static x = ...`
    Var {
        value: Expr,
        is_static: bool,
        is_extern: bool,
    },

    /// `type Name[T] = Target;`
    TypeAlias {
        generics: Vec<GenericParam>,
        bounds: Vec<TypeNode>,
        target: TypeNode,
        is_extern: bool,
    },

    /// Module import.
    Use {
        kind: UsePathKind,
        path: Vec<SymbolId>,
        target: UseTarget,
        is_reexport: bool,
    },

    /// `extern` block.
    ExternBlock {
        abi: Option<String>,
        decls: Vec<Decl>,
    },

    /// `impl` block.
    Impl {
        generics: Vec<GenericParam>,
        target_type: TypeNode,
        trait_type: Option<TypeNode>,
        decls: Vec<Decl>,
    },
}

#[derive(Debug, Clone, Copy, PartialEq, Eq)]
pub enum UsePathKind {
    Absolute,
    Relative,
    Super,
}

#[derive(Debug, PartialEq)]
pub enum UseTarget {
    Module(Option<SymbolId>),
    Members(Vec<UseMember>),
}

#[derive(Debug, PartialEq)]
pub struct UseMember {
    pub name: SymbolId,
    pub alias: Option<SymbolId>,
    pub span: Span,
}

#[derive(Debug, PartialEq)]
pub struct FuncParam {
    pub name: SymbolId,
    pub type_node: TypeNode,
    pub span: Span,
}

#[derive(Debug, PartialEq)]
pub struct Module {
    pub path: String,
    pub decls: Vec<Decl>,
}

impl SwitchPattern {
    /// The source range the pattern covers.
    pub fn span(&self) -> (s: Span)
        ensures
            s == (match self {
                SwitchPattern::Value(e) => e.span,
                SwitchPattern::Range { start, end, .. } => Span { start: start.span.start, end: end.span.end },
            }),
    {
        match self {
            SwitchPattern::Value(expr) => expr.span,
            SwitchPattern::Range { start, end, .. } => start.span.to(end.span),
        }
    }
}

impl MatchPattern {
    /// The source range the pattern covers.
    pub fn span(&self) -> (s: Span)
        ensures
            s == (match self {
                MatchPattern::Variant { span, .. } => *span,
                MatchPattern::CatchAll(span) => *span,
            }),
    {
        match self {
            MatchPattern::Variant { span, .. } => *span,
            MatchPattern::CatchAll(span) => *span,
        }
    }
}

} // verus!
