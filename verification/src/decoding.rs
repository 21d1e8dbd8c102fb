//! What reading an instruction or an expression from a position of the
//! input yields, as functions from the bytes to a view and the position
//! behind it, or to the error that reading ends in.

use crate::encoding::{ELSE, END};
use crate::error::CodecError;
use crate::instruction::{
    BlockType, ControlView, InstructionView, MemoryArgument, MemoryInstruction, NumericInstruction,
    ParametricView, ReferenceInstruction, SignExtension, TableInstruction, VariableInstruction,
};
use crate::leb128::{signed_decoding, unsigned_decoding};
use crate::numeric::{numeric_of_opcode, saturating_of_code};
use crate::types::{
    reference_type_of, tag_decoding, value_type_of, IntegerType, NumberType, ValueType,
};
use crate::values::{f32_decoding, f64_decoding, vector_decoding};
use vstd::prelude::*;

verus! {

/// What a reader yields: a value and the position behind it, or an error.
pub type Decoded<T> = Result<(T, int), CodecError>;

/// How the input is read.
#[derive(Copy, Clone, Debug, PartialEq, Eq)]
pub struct DecodeOptions {
    /// Whether a variable-length integer longer than its minimal form is
    /// refused as malformed.
    pub strict: bool,
    /// The largest count that a vector may declare.
    pub max_vector_length: usize,
    /// How deep structured instructions may be nested.
    pub max_nesting_depth: usize,
}

/// The 32-bit pattern of a signed value.
pub open spec fn pattern32(value: int) -> u32 {
    if value >= 0 {
        value as u32
    } else {
        (value + 0x1_0000_0000) as u32
    }
}

/// The 64-bit pattern of a signed value.
pub open spec fn pattern64(value: int) -> u64 {
    if value >= 0 {
        value as u64
    } else {
        (value + 0x1_0000_0000_0000_0000) as u64
    }
}

/// What reading an index at `pos` yields.
pub open spec fn index_decoding(input: Seq<u8>, pos: int, strict: bool) -> Decoded<u32> {
    match unsigned_decoding(input, pos, 32, strict) {
        Ok((value, next)) => Ok((value as u32, next)),
        Err(e) => Err(e),
    }
}

/// An instruction with one index as its immediate.
pub open spec fn with_index(
    input: Seq<u8>,
    pos: int,
    strict: bool,
    make: spec_fn(u32) -> InstructionView,
) -> Decoded<InstructionView> {
    match index_decoding(input, pos, strict) {
        Ok((index, next)) => Ok((make(index), next)),
        Err(e) => Err(e),
    }
}

/// An instruction with two indices as its immediates.
pub open spec fn with_indices(
    input: Seq<u8>,
    pos: int,
    strict: bool,
    make: spec_fn(u32, u32) -> InstructionView,
) -> Decoded<InstructionView> {
    match index_decoding(input, pos, strict) {
        Ok((first, middle)) => match index_decoding(input, middle, strict) {
            Ok((second, next)) => Ok((make(first, second), next)),
            Err(e) => Err(e),
        },
        Err(e) => Err(e),
    }
}

/// The position behind `count` reserved zero bytes at `pos`.
pub open spec fn zeros_decoding(input: Seq<u8>, pos: int, count: nat) -> Result<int, CodecError>
    decreases count,
{
    if count == 0 {
        Ok(pos)
    } else if pos < 0 || pos >= input.len() {
        Err(CodecError::UnexpectedEndOfInput)
    } else if input[pos] != 0 {
        Err(CodecError::InvalidImmediate)
    } else {
        zeros_decoding(input, pos + 1, (count - 1) as nat)
    }
}

/// An instruction behind which `count` reserved zero bytes must stand.
pub open spec fn with_zeros(input: Seq<u8>, found: Decoded<InstructionView>, count: nat) -> Decoded<
    InstructionView,
> {
    match found {
        Err(e) => Err(e),
        Ok((value, next)) => match zeros_decoding(input, next, count) {
            Ok(end) => Ok((value, end)),
            Err(e) => Err(e),
        },
    }
}

/// What reading a memory argument at `pos` yields: the offset, then the
/// alignment, which is always explicit in what was read.
pub open spec fn memory_argument_decoding(input: Seq<u8>, pos: int, strict: bool) -> Decoded<
    MemoryArgument,
> {
    match index_decoding(input, pos, strict) {
        Ok((offset, middle)) => match index_decoding(input, middle, strict) {
            Ok((align, next)) => Ok((MemoryArgument { offset, align: Some(align) }, next)),
            Err(e) => Err(e),
        },
        Err(e) => Err(e),
    }
}

/// The load or store with the given opcode, if there is one.
pub open spec fn memory_access_of(opcode: u8, argument: MemoryArgument) -> Option<
    MemoryInstruction,
> {
    match opcode {
        0x28 => Some(MemoryInstruction::Load(NumberType::I32, argument)),
        0x29 => Some(MemoryInstruction::Load(NumberType::I64, argument)),
        0x2A => Some(MemoryInstruction::Load(NumberType::F32, argument)),
        0x2B => Some(MemoryInstruction::Load(NumberType::F64, argument)),
        0x2C => Some(MemoryInstruction::Load8(IntegerType::I32, SignExtension::Signed, argument)),
        0x2D => Some(MemoryInstruction::Load8(IntegerType::I32, SignExtension::Unsigned, argument)),
        0x2E => Some(MemoryInstruction::Load16(IntegerType::I32, SignExtension::Signed, argument)),
        0x2F => Some(
            MemoryInstruction::Load16(IntegerType::I32, SignExtension::Unsigned, argument),
        ),
        0x30 => Some(MemoryInstruction::Load8(IntegerType::I64, SignExtension::Signed, argument)),
        0x31 => Some(MemoryInstruction::Load8(IntegerType::I64, SignExtension::Unsigned, argument)),
        0x32 => Some(MemoryInstruction::Load16(IntegerType::I64, SignExtension::Signed, argument)),
        0x33 => Some(
            MemoryInstruction::Load16(IntegerType::I64, SignExtension::Unsigned, argument),
        ),
        0x34 => Some(MemoryInstruction::Load32(SignExtension::Signed, argument)),
        0x35 => Some(MemoryInstruction::Load32(SignExtension::Unsigned, argument)),
        0x36 => Some(MemoryInstruction::Store(NumberType::I32, argument)),
        0x37 => Some(MemoryInstruction::Store(NumberType::I64, argument)),
        0x38 => Some(MemoryInstruction::Store(NumberType::F32, argument)),
        0x39 => Some(MemoryInstruction::Store(NumberType::F64, argument)),
        0x3A => Some(MemoryInstruction::Store8(IntegerType::I32, argument)),
        0x3B => Some(MemoryInstruction::Store16(IntegerType::I32, argument)),
        0x3C => Some(MemoryInstruction::Store8(IntegerType::I64, argument)),
        0x3D => Some(MemoryInstruction::Store16(IntegerType::I64, argument)),
        0x3E => Some(MemoryInstruction::Store32(argument)),
        _ => None,
    }
}

/// What reading a block type at `pos` yields. The byte 0x40 and the tags of
/// the value types stand for themselves; anything else is a type index,
/// written as a signed integer of 33 bits that must not be negative.
pub open spec fn block_type_decoding(input: Seq<u8>, pos: int, strict: bool) -> Decoded<BlockType> {
    if pos < 0 || pos >= input.len() {
        Err(CodecError::UnexpectedEndOfInput)
    } else if input[pos] == 0x40 {
        Ok((BlockType::Empty, pos + 1))
    } else if value_type_of(input[pos]) is Some {
        Ok((BlockType::ValueType(value_type_of(input[pos])->Some_0), pos + 1))
    } else {
        match signed_decoding(input, pos, 33, strict) {
            Ok((index, next)) => if index < 0 {
                Err(CodecError::InvalidImmediate)
            } else {
                Ok((BlockType::Index(index as u32), next))
            },
            Err(e) => Err(e),
        }
    }
}

/// What reading the rest of an instruction behind the prefix byte yields:
/// the secondary opcode, then the immediates.
pub open spec fn prefixed_decoding(input: Seq<u8>, pos: int, strict: bool) -> Decoded<
    InstructionView,
> {
    match unsigned_decoding(input, pos, 32, strict) {
        Err(e) => Err(e),
        Ok((code, at)) => if code < 8 {
            Ok((InstructionView::Numeric(saturating_of_code(code)->Some_0), at))
        } else if code == 8 {
            with_zeros(
                input,
                with_index(
                    input,
                    at,
                    strict,
                    |data: u32| InstructionView::Memory(MemoryInstruction::Init(data)),
                ),
                1,
            )
        } else if code == 9 {
            with_index(
                input,
                at,
                strict,
                |data: u32| InstructionView::Memory(MemoryInstruction::DataDrop(data)),
            )
        } else if code == 10 {
            with_zeros(input, Ok((InstructionView::Memory(MemoryInstruction::Copy), at)), 2)
        } else if code == 11 {
            with_zeros(input, Ok((InstructionView::Memory(MemoryInstruction::Fill), at)), 1)
        } else if code == 12 {
            with_indices(
                input,
                at,
                strict,
                |element: u32, table: u32|
                    InstructionView::Table(TableInstruction::Init(element, table)),
            )
        } else if code == 13 {
            with_index(
                input,
                at,
                strict,
                |element: u32| InstructionView::Table(TableInstruction::ElementDrop(element)),
            )
        } else if code == 14 {
            with_indices(
                input,
                at,
                strict,
                |target: u32, source: u32|
                    InstructionView::Table(TableInstruction::Copy(target, source)),
            )
        } else if code == 15 {
            with_index(
                input,
                at,
                strict,
                |table: u32| InstructionView::Table(TableInstruction::Grow(table)),
            )
        } else if code == 16 {
            with_index(
                input,
                at,
                strict,
                |table: u32| InstructionView::Table(TableInstruction::Size(table)),
            )
        } else if code == 17 {
            with_index(
                input,
                at,
                strict,
                |table: u32| InstructionView::Table(TableInstruction::Fill(table)),
            )
        } else {
            Err(CodecError::UnknownOpcode)
        },
    }
}

/// What reading an instruction that brackets no nested sequence yields,
/// given its opcode and the position behind the opcode.
pub open spec fn plain_decoding(input: Seq<u8>, opcode: u8, at: int, options: DecodeOptions) -> Decoded<
    InstructionView,
> {
    let strict = options.strict;
    match opcode {
        0x00 => Ok((InstructionView::Control(ControlView::Unreachable), at)),
        0x01 => Ok((InstructionView::Control(ControlView::Nop), at)),
        0x0C => with_index(
            input,
            at,
            strict,
            |label: u32| InstructionView::Control(ControlView::Branch(label)),
        ),
        0x0D => with_index(
            input,
            at,
            strict,
            |label: u32| InstructionView::Control(ControlView::BranchIf(label)),
        ),
        0x0E => match vector_decoding::<u32>(input, at, options.max_vector_length as nat, strict) {
            Ok((labels, middle)) => with_index(
                input,
                middle,
                strict,
                |otherwise: u32| InstructionView::Control(ControlView::BranchTable(labels, otherwise)),
            ),
            Err(e) => Err(e),
        },
        0x0F => Ok((InstructionView::Control(ControlView::Return), at)),
        0x10 => with_index(
            input,
            at,
            strict,
            |function: u32| InstructionView::Control(ControlView::Call(function)),
        ),
        0x11 => with_indices(
            input,
            at,
            strict,
            |kind: u32, table: u32| InstructionView::Control(ControlView::CallIndirect(kind, table)),
        ),
        0x1A => Ok((InstructionView::Parametric(ParametricView::Drop), at)),
        0x1B => Ok((InstructionView::Parametric(ParametricView::Select(None)), at)),
        0x1C => match vector_decoding::<ValueType>(
            input,
            at,
            options.max_vector_length as nat,
            strict,
        ) {
            Ok((kinds, next)) => Ok(
                (InstructionView::Parametric(ParametricView::Select(Some(kinds))), next),
            ),
            Err(e) => Err(e),
        },
        0x20 => with_index(
            input,
            at,
            strict,
            |index: u32| InstructionView::Variable(VariableInstruction::LocalGet(index)),
        ),
        0x21 => with_index(
            input,
            at,
            strict,
            |index: u32| InstructionView::Variable(VariableInstruction::LocalSet(index)),
        ),
        0x22 => with_index(
            input,
            at,
            strict,
            |index: u32| InstructionView::Variable(VariableInstruction::LocalTee(index)),
        ),
        0x23 => with_index(
            input,
            at,
            strict,
            |index: u32| InstructionView::Variable(VariableInstruction::GlobalGet(index)),
        ),
        0x24 => with_index(
            input,
            at,
            strict,
            |index: u32| InstructionView::Variable(VariableInstruction::GlobalSet(index)),
        ),
        0x25 => with_index(
            input,
            at,
            strict,
            |table: u32| InstructionView::Table(TableInstruction::Get(table)),
        ),
        0x26 => with_index(
            input,
            at,
            strict,
            |table: u32| InstructionView::Table(TableInstruction::Put(table)),
        ),
        0x3F => with_zeros(input, Ok((InstructionView::Memory(MemoryInstruction::Size), at)), 1),
        0x40 => with_zeros(input, Ok((InstructionView::Memory(MemoryInstruction::Grow), at)), 1),
        0x41 => match signed_decoding(input, at, 32, strict) {
            Ok((value, next)) => Ok(
                (InstructionView::Numeric(NumericInstruction::I32Constant(pattern32(value))), next),
            ),
            Err(e) => Err(e),
        },
        0x42 => match signed_decoding(input, at, 64, strict) {
            Ok((value, next)) => Ok(
                (InstructionView::Numeric(NumericInstruction::I64Constant(pattern64(value))), next),
            ),
            Err(e) => Err(e),
        },
        0x43 => match f32_decoding(input, at) {
            Ok((bits, next)) => Ok(
                (InstructionView::Numeric(NumericInstruction::F32Constant(bits)), next),
            ),
            Err(e) => Err(e),
        },
        0x44 => match f64_decoding(input, at) {
            Ok((bits, next)) => Ok(
                (InstructionView::Numeric(NumericInstruction::F64Constant(bits)), next),
            ),
            Err(e) => Err(e),
        },
        0xD0 => match tag_decoding(input, at, |tag: u8| reference_type_of(tag)) {
            Ok((kind, next)) => Ok(
                (InstructionView::Reference(ReferenceInstruction::Null(kind)), next),
            ),
            Err(e) => Err(e),
        },
        0xD1 => Ok((InstructionView::Reference(ReferenceInstruction::IsNull), at)),
        0xD2 => with_index(
            input,
            at,
            strict,
            |function: u32| InstructionView::Reference(ReferenceInstruction::Function(function)),
        ),
        0xFC => prefixed_decoding(input, at, strict),
        _ => if 0x28 <= opcode <= 0x3E {
            match memory_argument_decoding(input, at, strict) {
                Ok((argument, next)) => Ok(
                    (InstructionView::Memory(memory_access_of(opcode, argument)->Some_0), next),
                ),
                Err(e) => Err(e),
            }
        } else {
            match numeric_of_opcode(opcode) {
                Some(numeric) => Ok((InstructionView::Numeric(numeric), at)),
                None => Err(CodecError::UnknownOpcode),
            }
        },
    }
}

/// How a nested sequence came to its end: at the end marker, at the else
/// marker, or because the input was exhausted.
#[derive(Copy, Clone, Debug, PartialEq, Eq)]
pub enum Stop {
    End,
    Else,
    Exhausted,
}

/// What reading a sequence yields: the instructions, how the sequence
/// stopped, and the position behind the marker that stopped it.
pub type DecodedSequence = Result<(Seq<InstructionView>, Stop, int), CodecError>;

/// The structured instruction with the given opcode.
pub open spec fn structured(
    opcode: u8,
    kind: BlockType,
    body: Seq<InstructionView>,
    alternate: Option<Seq<InstructionView>>,
) -> InstructionView {
    if opcode == 0x02 {
        InstructionView::Control(ControlView::Block(kind, body))
    } else if opcode == 0x03 {
        InstructionView::Control(ControlView::Loop(kind, body))
    } else {
        InstructionView::Control(ControlView::If(kind, body, alternate))
    }
}

/// What reading one instruction at `pos` yields, when structured
/// instructions may be nested `depth` deep from here. A structured
/// instruction at depth 0 exceeds the limit; a nested sequence that the
/// input ends in lacks its end marker; an else marker is in place only
/// once, in a conditional.
pub open spec fn instruction_decoding(
    input: Seq<u8>,
    pos: int,
    options: DecodeOptions,
    depth: nat,
) -> Decoded<InstructionView>
    decreases depth, input.len() - pos, 0nat,
{
    if pos < 0 || pos >= input.len() {
        Err(CodecError::UnexpectedEndOfInput)
    } else if input[pos] == 0x02 || input[pos] == 0x03 || input[pos] == 0x04 {
        if depth == 0 {
            Err(CodecError::LimitExceeded)
        } else {
            match block_type_decoding(input, pos + 1, options.strict) {
                Err(e) => Err(e),
                Ok((kind, at)) => match sequence_decoding(input, at, options, (depth - 1) as nat) {
                    Err(e) => Err(e),
                    Ok((body, Stop::Exhausted, _)) => Err(CodecError::UnexpectedEndOfInput),
                    Ok((body, Stop::End, next)) => Ok(
                        (structured(input[pos], kind, body, None), next),
                    ),
                    Ok((body, Stop::Else, middle)) => if input[pos] != 0x04 {
                        Err(CodecError::UnknownOpcode)
                    } else {
                        match sequence_decoding(input, middle, options, (depth - 1) as nat) {
                            Err(e) => Err(e),
                            Ok((_, Stop::Exhausted, _)) => Err(CodecError::UnexpectedEndOfInput),
                            Ok((_, Stop::Else, _)) => Err(CodecError::UnknownOpcode),
                            Ok((alternate, Stop::End, next)) => Ok(
                                (structured(input[pos], kind, body, Some(alternate)), next),
                            ),
                        }
                    },
                },
            }
        }
    } else {
        plain_decoding(input, input[pos], pos + 1, options)
    }
}

/// What reading instructions from `pos` up to a marker, or to the end of
/// the input, yields.
pub open spec fn sequence_decoding(
    input: Seq<u8>,
    pos: int,
    options: DecodeOptions,
    depth: nat,
) -> DecodedSequence
    decreases depth, input.len() - pos, 1nat,
{
    if pos < 0 || pos >= input.len() {
        Ok((Seq::empty(), Stop::Exhausted, pos))
    } else if input[pos] == END {
        Ok((Seq::empty(), Stop::End, pos + 1))
    } else if input[pos] == ELSE {
        Ok((Seq::empty(), Stop::Else, pos + 1))
    } else {
        match instruction_decoding(input, pos, options, depth) {
            Err(e) => Err(e),
            // An instruction takes at least one byte of the input, so the first
            // branch is never taken; it is what makes the recursion end.
            Ok((first, next)) => if next <= pos || next > input.len() {
                Err(CodecError::UnexpectedEndOfInput)
            } else {
                prepended(seq![first], sequence_decoding(input, next, options, depth))
            },
        }
    }
}

/// A sequence that was read, with the instructions read before it in front.
pub open spec fn prepended(front: Seq<InstructionView>, rest: DecodedSequence) -> DecodedSequence {
    match rest {
        Ok((instructions, stop, next)) => Ok((front + instructions, stop, next)),
        Err(e) => Err(e),
    }
}

/// What reading a bare expression yields: the instructions up to the end of
/// the input. A marker is no part of a bare expression.
pub open spec fn expression_decoding(input: Seq<u8>, pos: int, options: DecodeOptions) -> Decoded<
    Seq<InstructionView>,
> {
    match sequence_decoding(input, pos, options, options.max_nesting_depth as nat) {
        Err(e) => Err(e),
        Ok((instructions, Stop::Exhausted, next)) => Ok((instructions, next)),
        Ok(_) => Err(CodecError::UnknownOpcode),
    }
}

} // verus!
