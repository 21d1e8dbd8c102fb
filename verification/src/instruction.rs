//! The instruction model: seven families of instructions, the structured
//! control instructions that bracket nested sequences, and expressions.
//!
//! Instructions that hold vectors have a mathematical view, in which each
//! vector is the sequence of its items; the codec's contracts speak of views.

use crate::types::{
    DataIndex, ElementIndex, FloatType, FunctionIndex, GlobalIndex, IntegerType, LabelIndex,
    LocalIndex, NumberType, ReferenceType, TableIndex, TypeIndex, ValueType,
};
use vstd::prelude::*;

verus! {

/// Whether the operands of an integer instruction are read as signed or as
/// unsigned integers.
#[derive(Copy, Clone, Debug, PartialEq, Eq, Structural)]
pub enum SignExtension {
    Signed,
    Unsigned,
}

/// The immediate of a load or store: an address offset and the expected
/// alignment, given as the exponent of a power of two. An alignment that was
/// left out stands for the natural alignment of the access, which only the
/// instruction that holds the argument determines.
#[derive(Copy, Clone, Debug, PartialEq, Eq)]
pub struct MemoryArgument {
    pub offset: u32,
    pub align: Option<u32>,
}

impl MemoryArgument {
    /// A memory argument with the given offset and alignment.
    pub fn new(offset: u32, align: Option<u32>) -> (argument: Self)
        ensures
            argument == (MemoryArgument { offset, align }),
    {
        MemoryArgument { offset, align }
    }

    /// A memory argument with offset 0 and the natural alignment.
    pub fn default() -> (argument: Self)
        ensures
            argument == (MemoryArgument { offset: 0, align: None }),
    {
        MemoryArgument { offset: 0, align: None }
    }

    /// A memory argument with the given offset and the natural alignment.
    pub fn default_align(offset: u32) -> (argument: Self)
        ensures
            argument == (MemoryArgument { offset, align: None }),
    {
        MemoryArgument { offset, align: None }
    }

    /// A memory argument with offset 0 and the given alignment.
    pub fn default_offset(align: u32) -> (argument: Self)
        ensures
            argument == (MemoryArgument { offset: 0, align: Some(align) }),
    {
        MemoryArgument { offset: 0, align: Some(align) }
    }

    /// The static address offset.
    pub fn offset(&self) -> (offset: u32)
        ensures
            offset == self.offset,
    {
        self.offset
    }

    /// The alignment exponent, or `None` where the natural alignment applies.
    pub fn align(&self) -> (align: Option<u32>)
        ensures
            align == self.align,
    {
        self.align
    }

    /// The alignment exponent that goes on the wire for an access whose
    /// natural alignment is `natural`.
    pub open spec fn resolved_align(self, natural: u32) -> u32 {
        match self.align {
            Some(align) => align,
            None => natural,
        }
    }

    /// The alignment exponent that goes on the wire for an access whose
    /// natural alignment is `natural`.
    pub fn align_or(&self, natural: u32) -> (align: u32)
        ensures
            align == self.resolved_align(natural),
    {
        match self.align {
            Some(align) => align,
            None => natural,
        }
    }
}

/// The type of a structured instruction: no result, the function type at an
/// index, or a single inline result type.
#[derive(Copy, Clone, Debug, PartialEq, Eq)]
pub enum BlockType {
    Empty,
    Index(TypeIndex),
    ValueType(ValueType),
}

/// Operations on numbers. The two floating-point constants hold the bit
/// pattern of their value.
#[derive(Copy, Clone, Debug, PartialEq, Eq)]
pub enum NumericInstruction {
    I32Constant(u32),
    I64Constant(u64),
    F32Constant(u32),
    F64Constant(u64),
    CountLeadingZeros(IntegerType),
    CountTrailingZeros(IntegerType),
    CountOnes(IntegerType),
    AbsoluteValue(FloatType),
    Negate(FloatType),
    SquareRoot(FloatType),
    Ceiling(FloatType),
    Floor(FloatType),
    Truncate(FloatType),
    Nearest(FloatType),
    Add(NumberType),
    Subtract(NumberType),
    Multiply(NumberType),
    DivideInteger(IntegerType, SignExtension),
    DivideFloat(FloatType),
    Remainder(IntegerType, SignExtension),
    And(IntegerType),
    Or(IntegerType),
    Xor(IntegerType),
    ShiftLeft(IntegerType),
    ShiftRight(IntegerType, SignExtension),
    RotateLeft(IntegerType),
    RotateRight(IntegerType),
    Minimum(FloatType),
    Maximum(FloatType),
    CopySign(FloatType),
    EqualToZero(IntegerType),
    Equal(NumberType),
    NotEqual(NumberType),
    LessThanInteger(IntegerType, SignExtension),
    LessThanFloat(FloatType),
    GreaterThanInteger(IntegerType, SignExtension),
    GreaterThanFloat(FloatType),
    LessThanOrEqualToInteger(IntegerType, SignExtension),
    LessThanOrEqualToFloat(FloatType),
    GreaterThanOrEqualToInteger(IntegerType, SignExtension),
    GreaterThanOrEqualToFloat(FloatType),
    ExtendSigned8(IntegerType),
    ExtendSigned16(IntegerType),
    ExtendSigned32,
    Wrap,
    ExtendWithSignExtension(SignExtension),
    ConvertAndTruncate(IntegerType, FloatType, SignExtension),
    ConvertAndTruncateWithSaturation(IntegerType, FloatType, SignExtension),
    Demote,
    Promote,
    Convert(FloatType, IntegerType, SignExtension),
    ReinterpretFloat(IntegerType, FloatType),
    ReinterpretInteger(FloatType, IntegerType),
}

/// Operations on references.
#[derive(Copy, Clone, Debug, PartialEq, Eq)]
pub enum ReferenceInstruction {
    /// Produce a null reference of the given type.
    Null(ReferenceType),
    /// Test for a null reference.
    IsNull,
    /// Produce a reference to a function.
    Function(FunctionIndex),
}

/// Operations on operands of any value type.
#[derive(Debug, PartialEq, Eq)]
pub enum ParametricInstruction {
    /// Throw away one operand.
    Drop,
    /// Select one of two operands by a third; the types of the operands may
    /// be given.
    Select(Option<Vec<ValueType>>),
}

/// Access to local and global variables.
#[derive(Copy, Clone, Debug, PartialEq, Eq)]
pub enum VariableInstruction {
    LocalGet(LocalIndex),
    LocalSet(LocalIndex),
    LocalTee(LocalIndex),
    GlobalGet(GlobalIndex),
    GlobalSet(GlobalIndex),
}

/// Operations on tables.
#[derive(Copy, Clone, Debug, PartialEq, Eq)]
pub enum TableInstruction {
    Get(TableIndex),
    Put(TableIndex),
    Size(TableIndex),
    Grow(TableIndex),
    Fill(TableIndex),
    /// Copy between tables; the first index is the destination.
    Copy(TableIndex, TableIndex),
    /// Copy from a passive element segment into a table.
    Init(ElementIndex, TableIndex),
    ElementDrop(ElementIndex),
}

/// Operations on linear memory. The narrow loads and stores carry their
/// storage width in the variant.
#[derive(Copy, Clone, Debug, PartialEq, Eq)]
pub enum MemoryInstruction {
    Load(NumberType, MemoryArgument),
    Store(NumberType, MemoryArgument),
    Load8(IntegerType, SignExtension, MemoryArgument),
    Load16(IntegerType, SignExtension, MemoryArgument),
    Load32(SignExtension, MemoryArgument),
    Store8(IntegerType, MemoryArgument),
    Store16(IntegerType, MemoryArgument),
    Store32(MemoryArgument),
    Size,
    Grow,
    Fill,
    Copy,
    Init(DataIndex),
    DataDrop(DataIndex),
}

/// Instructions that affect the flow of control. Block, loop and conditional
/// bracket nested instruction sequences; branches name their target by a
/// label index relative to the nesting.
#[derive(Debug, PartialEq)]
pub enum ControlInstruction {
    Nop,
    Unreachable,
    Block(BlockType, Expression),
    Loop(BlockType, Expression),
    /// A conditional with its positive branch and, optionally, an alternate.
    If(BlockType, Expression, Option<Expression>),
    Branch(LabelIndex),
    BranchIf(LabelIndex),
    /// An indirect branch through a vector of labels, with a default label.
    BranchTable(Vec<LabelIndex>, LabelIndex),
    Return,
    Call(FunctionIndex),
    CallIndirect(TypeIndex, TableIndex),
}

/// An instruction of any family.
#[derive(Debug, PartialEq)]
pub enum Instruction {
    Numeric(NumericInstruction),
    Reference(ReferenceInstruction),
    Parametric(ParametricInstruction),
    Variable(VariableInstruction),
    Table(TableInstruction),
    Memory(MemoryInstruction),
    Control(ControlInstruction),
}

/// A sequence of instructions: a function body, an initializer, an offset.
/// The end marker that closes a nested sequence on the wire is no part of it.
#[derive(Debug, PartialEq)]
pub struct Expression {
    pub instructions: Vec<Instruction>,
}

/// The view of a parametric instruction.
pub enum ParametricView {
    Drop,
    Select(Option<Seq<ValueType>>),
}

/// The view of a control instruction.
pub enum ControlView {
    Nop,
    Unreachable,
    Block(BlockType, Seq<InstructionView>),
    Loop(BlockType, Seq<InstructionView>),
    If(BlockType, Seq<InstructionView>, Option<Seq<InstructionView>>),
    Branch(LabelIndex),
    BranchIf(LabelIndex),
    BranchTable(Seq<LabelIndex>, LabelIndex),
    Return,
    Call(FunctionIndex),
    CallIndirect(TypeIndex, TableIndex),
}

/// The view of an instruction.
pub enum InstructionView {
    Numeric(NumericInstruction),
    Reference(ReferenceInstruction),
    Parametric(ParametricView),
    Variable(VariableInstruction),
    Table(TableInstruction),
    Memory(MemoryInstruction),
    Control(ControlView),
}

/// The view of an instruction.
pub open spec fn instruction_view(instruction: Instruction) -> InstructionView
    decreases instruction,
{
    match instruction {
        Instruction::Numeric(n) => InstructionView::Numeric(n),
        Instruction::Reference(r) => InstructionView::Reference(r),
        Instruction::Parametric(p) => InstructionView::Parametric(p@),
        Instruction::Variable(v) => InstructionView::Variable(v),
        Instruction::Table(t) => InstructionView::Table(t),
        Instruction::Memory(m) => InstructionView::Memory(m),
        Instruction::Control(c) => InstructionView::Control(control_view(c)),
    }
}

/// The view of a control instruction.
pub open spec fn control_view(control: ControlInstruction) -> ControlView
    decreases control,
{
    match control {
        ControlInstruction::Nop => ControlView::Nop,
        ControlInstruction::Unreachable => ControlView::Unreachable,
        ControlInstruction::Block(kind, body) => ControlView::Block(
            kind,
            instructions_view(body.instructions),
        ),
        ControlInstruction::Loop(kind, body) => ControlView::Loop(
            kind,
            instructions_view(body.instructions),
        ),
        ControlInstruction::If(kind, body, alternate) => ControlView::If(
            kind,
            instructions_view(body.instructions),
            match alternate {
                Some(other) => Some(instructions_view(other.instructions)),
                None => None,
            },
        ),
        ControlInstruction::Branch(label) => ControlView::Branch(label),
        ControlInstruction::BranchIf(label) => ControlView::BranchIf(label),
        ControlInstruction::BranchTable(labels, otherwise) => ControlView::BranchTable(
            labels@,
            otherwise,
        ),
        ControlInstruction::Return => ControlView::Return,
        ControlInstruction::Call(function) => ControlView::Call(function),
        ControlInstruction::CallIndirect(kind, table) => ControlView::CallIndirect(kind, table),
    }
}

/// The views of the instructions of a vector, in order.
pub open spec fn instructions_view(instructions: Vec<Instruction>) -> Seq<InstructionView>
    decreases instructions,
{
    Seq::new(
        instructions@.len(),
        |k: int|
            if 0 <= k < instructions@.len() {
                instruction_view(instructions@[k])
            } else {
                arbitrary()
            },
    )
}

impl View for ParametricInstruction {
    type V = ParametricView;

    open spec fn view(&self) -> ParametricView {
        match self {
            ParametricInstruction::Drop => ParametricView::Drop,
            ParametricInstruction::Select(Some(kinds)) => ParametricView::Select(Some(kinds@)),
            ParametricInstruction::Select(None) => ParametricView::Select(None),
        }
    }
}

impl View for ControlInstruction {
    type V = ControlView;

    open spec fn view(&self) -> ControlView {
        control_view(*self)
    }
}

impl View for Instruction {
    type V = InstructionView;

    open spec fn view(&self) -> InstructionView {
        instruction_view(*self)
    }
}

impl View for Expression {
    type V = Seq<InstructionView>;

    open spec fn view(&self) -> Seq<InstructionView> {
        instructions_view(self.instructions)
    }
}

impl Expression {
    /// An expression of the given instructions.
    pub fn new(instructions: Vec<Instruction>) -> (expression: Self)
        ensures
            expression.instructions == instructions,
    {
        Expression { instructions }
    }

    /// The expression without instructions.
    pub fn empty() -> (expression: Self)
        ensures
            expression@ == Seq::<InstructionView>::empty(),
            expression.instructions@.len() == 0,
    {
        let expression = Expression { instructions: Vec::new() };
        proof {
            assert(expression@ =~= Seq::<InstructionView>::empty());
        }
        expression
    }

    /// The instructions of this expression.
    pub fn instructions(&self) -> (instructions: &[Instruction])
        ensures
            instructions@ == self.instructions@,
    {
        self.instructions.as_slice()
    }

    /// Whether the expression holds no instruction.
    pub fn is_empty(&self) -> (empty: bool)
        ensures
            empty == (self@.len() == 0),
    {
        self.instructions.len() == 0
    }

    /// The number of instructions.
    pub fn len(&self) -> (length: usize)
        ensures
            length == self@.len(),
    {
        self.instructions.len()
    }
}

} // verus!
