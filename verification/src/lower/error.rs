//! Errors of the expression-lowering helpers.

use vstd::prelude::*;

use crate::instr::ValType;
use crate::ir::{
    BinaryOperator, BindingId, EnumId, FunctionId, ImplId, List, MethodIdx, PrimitiveType,
    ResolvedType, StructId, TraitId, UnaryOperator,
};
use crate::layout::LayoutError;
use crate::text::signed_decimal_text;
use crate::types::TypeMapError;

verus! {

/// Expression variants, by name.
#[derive(Clone, Copy, Debug, PartialEq, Eq, Structural)]
pub enum ExprKind {
    Literal,
    StructInst,
    EnumInst,
    Array,
    Tuple,
    Reference,
    SelfFieldRef,
    FieldAccess,
    LetRef,
    BinaryOp,
    UnaryOp,
    If,
    For,
    Match,
    FunctionCall,
    CallClosure,
    MethodCall,
    Closure,
    ClosureRef,
    DictLiteral,
    DictAccess,
    Block,
}

/// Literal variants, by name.
#[derive(Clone, Copy, Debug, PartialEq, Eq, Structural)]
pub enum LiteralKind {
    String,
    Number,
    Boolean,
    Regex,
    Path,
    Nil,
}

/// Reference targets that have no runtime value.
#[derive(Clone, Copy, Debug, PartialEq, Eq, Structural)]
pub enum TargetKind {
    Function,
    ModuleLet,
    TypeDefinition,
    External,
}

/// Fields of a [`crate::lower::LowerContext`] that a lowering can miss.
#[derive(Clone, Copy, Debug, PartialEq, Eq, Structural)]
pub enum ContextField {
    Module,
    Methods,
    BumpAllocator,
    ScratchLocals,
    ClosureTable,
    ClosureFuncrefIndices,
    ClosureTypeIndices,
    MethodTable,
    VirtualCallTypes,
    VtableOffsets,
    StrEq,
    StrConcat,
}

/// The aggregate a field lookup went through.
#[derive(Debug, PartialEq, Eq)]
pub enum FieldOwner {
    Named(String),
    /// A struct-typed object expression.
    StructObject,
    /// A tuple.
    Tuple,
    /// The target of an assignment.
    AssignTarget,
}

impl Clone for FieldOwner {
    fn clone(&self) -> (r: Self)
        ensures
            r == *self,
    {
        match self {
            FieldOwner::Named(name) => FieldOwner::Named(name.clone()),
            FieldOwner::StructObject => FieldOwner::StructObject,
            FieldOwner::Tuple => FieldOwner::Tuple,
            FieldOwner::AssignTarget => FieldOwner::AssignTarget,
        }
    }
}

/// An operator applied to an operand type that has no instruction for it.
#[derive(Clone, Copy, Debug, PartialEq, Eq, Structural)]
pub enum Operator {
    Binary(BinaryOperator),
    Unary(UnaryOperator),
}

/// Expression or operand shapes without a lowering.
#[allow(inconsistent_fields)]
#[derive(Debug, PartialEq, Eq)]
pub enum Missing {
    /// A helper was handed another expression variant than its own.
    NotA(ExprKind),
    /// The expression variant has no lowering.
    Expr(ExprKind),
    /// The literal kind has no lowering here.
    Literal(LiteralKind),
    /// A text literal that the string pool does not hold.
    TextNotInterned(String),
    /// A reference to something that is no runtime value.
    Reference(TargetKind),
    /// A range operator whose result type is no range.
    RangeResult(ResolvedType),
    /// A binary operator on a type that is no primitive.
    BinaryOperand(ResolvedType),
    /// A unary operator on a type that is no primitive.
    UnaryOperand(ResolvedType),
    /// A binary operator without an instruction for the operand type.
    BinaryOn(BinaryOperator, PrimitiveType),
    /// An array literal whose type is no array.
    ArrayResult(ResolvedType),
    /// An array literal with more elements than 32 bits count.
    ArrayTooLong,
    /// An array literal with more elements than a signed length holds.
    ArrayLengthSign,
    /// An array element without storage.
    ArrayElement(ResolvedType),
    /// An indexed access into something else than an array.
    IndexedCollection(ResolvedType),
    /// A closure value without a function path.
    EmptyFuncref,
    /// A closure value naming no function of the module.
    UnknownFuncref(String),
    /// The function of a closure value lies past 32-bit indices.
    FuncrefIndex,
    /// The table slot of a closure value lies past signed 32-bit numbers.
    FuncrefSlot,
    /// An assignment to something else than a field.
    AssignTarget,
    /// A for-loop whose type is no array.
    ForResult(ResolvedType),
    /// A for-loop over a range whose bounds are no `I32`.
    ForRangeBound(ResolvedType),
    /// A for-loop over a range whose variable is no `I32`.
    ForVariable(ResolvedType),
    /// A for-loop over something else than a range or an array.
    ForCollection(ResolvedType),
    /// A for-loop over an array of elements that cannot be loaded.
    ForElement(ResolvedType),
    /// A for-loop whose body value cannot be stored.
    ForBody(ResolvedType),
    /// A match with more arms than 32 bits count.
    TooManyArms,
    /// An optional wrap of a payload that is no primitive.
    SomePayload(ResolvedType),
    /// An optional wrap of a primitive without a scratch slot.
    SomeScratch(PrimitiveType),
    /// A closure call on a value that is no closure.
    CallOfNonClosure(ResolvedType),
    /// A closure type whose call signature was not registered.
    ClosureSignature(ResolvedType),
    /// A trait method whose call signature was not registered.
    VirtualSignature(TraitId, MethodIdx),
    /// A trait implementation without a method table.
    Vtable(TraitId, (u32, u32)),
    /// The function reserved fewer scratch locals than lowering needs.
    ScratchUnderCounted { ty: ValType, reserved: u32, asked: u32 },
    /// A scratch local past 32-bit indices.
    ScratchIndex(ValType),
    /// More scratch locals than 32 bits count.
    TooManyScratch,
    /// The scratch regions do not fit in 32-bit local indices.
    ScratchLayout,
    /// More parameters than 32 bits count.
    TooManyParams,
    /// More `let` bindings than 32 bits count.
    TooManyLets,
    /// Parameters and `let` bindings together exceed 32 bits.
    ParamsAndLets,
    /// More locals than 32 bits count.
    TooManyLocals,
}

/// What a numeric literal holds.
#[derive(Debug, PartialEq, Eq)]
pub enum NumberPayload {
    /// Written with integer syntax.
    Integer(i128),
    /// Written with a fraction or an exponent, with its spelling.
    Float(String),
}

impl NumberPayload {
    /// The text of [`NumberPayload::spelling`].
    pub open spec fn text(self) -> Seq<char> {
        match self {
            NumberPayload::Integer(v) => crate::text::signed_decimal(v as int),
            NumberPayload::Float(text) => text@,
        }
    }

    /// The number as diagnostics show it.
    pub fn spelling(&self) -> (r: String)
        ensures
            r@ == self.text(),
    {
        match self {
            NumberPayload::Integer(v) => signed_decimal_text(*v),
            NumberPayload::Float(text) => text.clone(),
        }
    }
}

/// Errors produced by the expression-lowering helpers.
#[allow(inconsistent_fields)]
#[derive(Debug, PartialEq, Eq)]
pub enum LowerError {
    /// The shape has no lowering.
    NotYetImplemented { what: Missing },
    /// A numeric literal that its declared type cannot hold.
    LiteralOutOfRange { payload: NumberPayload, target: PrimitiveType },
    /// A literal whose declared type is of another kind.
    LiteralTypeMismatch { kind: LiteralKind, ty: ResolvedType },
    /// A binding without a wasm local.
    UnknownBinding(BindingId),
    /// A reference that was never resolved.
    UnresolvedReference,
    /// An operator that the operand type does not support.
    UnsupportedOperator { op: Operator, operand: PrimitiveType },
    /// A type without a wasm value type.
    TypeMap(TypeMapError),
    /// A binding whose type carries no value.
    ZeroSizedLetBinding { name: String, ty: ResolvedType },
    /// A function without a wasm index.
    UnknownFunction(FunctionId),
    /// A call that was never resolved.
    UnresolvedFunctionCall { path: List<String> },
    /// The context lacks a field this lowering reads.
    MissingContext { what: ContextField },
    /// A struct literal of another module's struct.
    ExternalStructInst,
    /// A layout could not be planned.
    Layout(LayoutError),
    /// A field position or name that the aggregate does not have.
    FieldIndexOutOfRange { struct_name: FieldOwner, field_count: usize, field_idx: u32 },
    /// A field access on a type without fields.
    FieldAccessOnNonAggregate { ty: ResolvedType },
    /// A struct id past the end of the module's table.
    UnknownStruct(StructId),
    /// An enum literal of another module's enum.
    ExternalEnumInst,
    /// An enum id past the end of the module's table.
    UnknownEnum(EnumId),
    /// A variant that the enum does not declare. The enum is unnamed when
    /// it is a match's scrutinee.
    UnknownVariant { enum_name: Option<String>, variant: String },
    /// `self.field` outside a method.
    MissingSelfStruct,
    /// A method without a wasm index.
    UnknownMethod { impl_id: ImplId, method_idx: MethodIdx },
    /// A virtual call on a receiver that is neither struct nor enum.
    UnsupportedVirtualReceiver { ty: ResolvedType },
}

/// Shorthand for [`LowerError::NotYetImplemented`].
pub open spec fn missing(what: Missing) -> LowerError {
    LowerError::NotYetImplemented { what }
}

/// Shorthand for [`LowerError::NotYetImplemented`].
pub fn not_yet(what: Missing) -> (r: LowerError)
    ensures
        r == missing(what),
{
    LowerError::NotYetImplemented { what }
}

} // verus!
