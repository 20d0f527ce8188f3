use crate::parser::ast::{AssignmentOperator, BinaryOperator, UnaryOperator};
use crate::sema::ty::TypeId;
use crate::utils::{Span, SymbolId};
use vstd::prelude::*;

verus! {

// The monomorphized AST: one flat compilation unit without nested modules,
// impl blocks or generics, where every expression carries its concrete
// type.

/// Id of a monomorphized item. A generic `List[T]` has one definition, but
/// `List[i32]` and `List[u8]` get two different ids.
#[derive(Debug, Clone, Copy, PartialEq, Eq, Hash, Structural)]
pub struct MonoId(pub u32);

/// A compilation unit, flattened. Traits, enums (lowered to integers and
/// constants) and type aliases are gone.
#[derive(Debug)]
pub struct MastModule {
    pub name: String,
    pub structs: Vec<MastStruct>,
    /// Every `static`, global or local, lifted to the top.
    pub globals: Vec<MastGlobal>,
    pub functions: Vec<MastFunction>,
}

#[derive(Debug, Clone)]
pub struct MastStruct {
    pub id: MonoId,
    /// The flattened full name, such as `std_collections_ArrayList_i32`.
    pub name: String,
    pub fields: Vec<MastField>,
    /// A struct shared with C.
    pub is_extern: bool,
    pub is_union: bool,
    pub largest_field_idx: usize,
}

#[derive(Debug, Clone)]
pub struct MastField {
    pub name: SymbolId,
    /// A fully concrete type, never a generic parameter.
    pub ty: TypeId,
}

#[derive(Debug)]
pub struct MastGlobal {
    pub id: MonoId,
    /// The flattened global symbol name.
    pub name: String,
    pub ty: TypeId,
    /// `static mut`
    pub is_mut: bool,
    /// A constant initializer; `None` for an `extern` global.
    pub init: Option<MastExpr>,
    pub is_extern: bool,
}

#[derive(Debug)]
pub struct MastFunction {
    pub id: MonoId,
    /// Such as `Point_i32_move_by` (methods become plain functions).
    pub name: String,
    pub params: Vec<MastParam>,
    pub ret_ty: TypeId,
    /// `None` for an `extern` function.
    pub body: Option<MastBlock>,
    pub is_extern: bool,
    pub is_variadic: bool,
}

#[derive(Debug, Clone)]
pub struct MastParam {
    pub name: SymbolId,
    pub ty: TypeId,
}

/// An inline assembly block, in the form LLVM's `call asm` takes.
#[derive(Debug)]
pub struct MastAsmBlock {
    /// The template, lines joined, such as `out dx, al \n in al, dx`.
    pub asm_template: String,
    /// LLVM constraint string, such as `={al},{dx},{al},~{memory}`.
    pub constraints: String,
    /// The arguments (the inputs only).
    pub input_args: Vec<MastExpr>,
    /// Pointers that receive the outputs.
    pub output_ptrs: Vec<MastExpr>,
    /// The types of the outputs.
    pub output_tys: Vec<TypeId>,
    pub is_volatile: bool,
}

#[derive(Debug)]
pub struct MastBlock {
    pub stmts: Vec<MastStmt>,
    /// The value of the block.
    pub result: Option<Box<MastExpr>>,
    pub defers: Vec<MastExpr>,
}

#[derive(Debug)]
pub enum MastStmt {
    /// A local binding (local statics are globals by now).
    Let { name: SymbolId, ty: TypeId, init: MastExpr },
    /// An expression statement.
    Expr(MastExpr),
}

/// An expression with its concrete type.
#[derive(Debug)]
pub struct MastExpr {
    pub ty: TypeId,
    /// For error reports and debug information.
    pub span: Span,
    pub kind: MastExprKind,
}

impl MastExpr {
    pub fn new(ty: TypeId, kind: MastExprKind, span: Span) -> (e: Self)
        ensures
            e.ty == ty,
            e.kind == kind,
            e.span == span,
    {
        MastExpr { ty, kind, span }
    }
}

#[derive(Debug)]
pub enum MastExprKind {
    Undef,
    Integer(u128),
    /// A float, held as the bits of its IEEE-754 binary64 value.
    Float(u64),
    Bool(bool),
    /// Becomes a global constant array; the expression is its pointer.
    StringLiteral(String),
    /// A local variable or parameter.
    Var(SymbolId),
    /// A global (the expression is its pointer).
    GlobalRef(MonoId),
    /// A function (the expression is its pointer).
    FuncRef(MonoId),
    AddressOf(Box<MastExpr>),
    Deref(Box<MastExpr>),
    StructInit {
        struct_id: MonoId,
        /// The field values in layout order.
        fields: Vec<MastExpr>,
    },
    UnionInit { union_id: MonoId, field_idx: usize, value: Box<MastExpr> },
    ArrayInit(Vec<MastExpr>),
    FieldAccess { lhs: Box<MastExpr>, struct_id: MonoId, field_idx: usize },
    IndexAccess { lhs: Box<MastExpr>, index: Box<MastExpr> },
    Call { callee: Box<MastExpr>, args: Vec<MastExpr> },
    If { cond: Box<MastExpr>, then_branch: MastBlock, else_branch: Option<MastBlock> },
    /// A loop with a latch block for the `post` of a `for`, where
    /// `continue` goes.
    Loop { body: MastBlock, latch: Option<MastBlock> },
    Switch { target: Box<MastExpr>, cases: Vec<MastSwitchCase>, default_case: Option<MastBlock> },
    Break,
    Continue,
    /// The value has been coerced already.
    Return(Option<Box<MastExpr>>),
    Binary { op: BinaryOperator, lhs: Box<MastExpr>, rhs: Box<MastExpr> },
    Unary { op: UnaryOperator, operand: Box<MastExpr> },
    Assign { op: AssignmentOperator, lhs: Box<MastExpr>, rhs: Box<MastExpr> },
    /// A conversion, split into LLVM's kinds.
    Cast { kind: MastCastKind, operand: Box<MastExpr> },
    /// A fat pointer: data pointer and metadata (a vtable pointer for a
    /// trait object, a length for a slice).
    ConstructFatPointer { data_ptr: Box<MastExpr>, meta: Box<MastExpr> },
    ExtractFatPtrData(Box<MastExpr>),
    ExtractFatPtrMeta(Box<MastExpr>),
    /// A block used as an expression.
    Block(MastBlock),
    /// An ADT value: its tag and payload (`Undef` where there is none).
    AdtInit { adt_struct_id: MonoId, tag_value: u128, payload: Box<MastExpr> },
    Asm(MastAsmBlock),
    /// `@unreachable()`
    Unreachable,
    /// `@trap()`
    Trap,
    /// `@fence()`
    Fence,
    /// `@breakpoint()`
    Breakpoint,
    /// `@popCount`, `@clz`, `@ctz` and `@bswap`.
    BitIntrinsic { kind: BitIntrinsicKind, operand: Box<MastExpr> },
    /// `@memcpy(dest, src, len)`
    Memcpy { dest: Box<MastExpr>, src: Box<MastExpr>, len: Box<MastExpr> },
    /// `@memset(dest, val, len)`
    Memset { dest: Box<MastExpr>, val: Box<MastExpr>, len: Box<MastExpr> },
}

/// The bit intrinsics, one for each LLVM intrinsic.
#[derive(Debug, Clone, Copy, PartialEq, Eq, Structural)]
pub enum BitIntrinsicKind {
    PopCount,
    Clz,
    Ctz,
    Bswap,
}

#[derive(Debug)]
pub struct MastSwitchCase {
    /// The case values, evaluated to integers.
    pub values: Vec<u128>,
    pub body: MastBlock,
}

/// The kinds of conversion, one for each LLVM instruction.
#[derive(Debug, Clone, Copy, PartialEq, Eq, Structural)]
pub enum MastCastKind {
    /// Same-size bit pattern (such as `*i32` to `*u8`).
    Bitcast,
    /// Pointer to integer.
    PtrToInt,
    /// Integer to pointer.
    IntToPtr,
    /// Widening a signed integer.
    SignExt,
    /// Widening an unsigned integer.
    ZeroExt,
    /// Narrowing an integer.
    Trunc,
    IntToFloat,
    FloatToInt,
    /// `f32` to `f64` or back.
    FloatCast,
    /// An array to a slice fat pointer.
    ArrayToSlice,
}

} // verus!
