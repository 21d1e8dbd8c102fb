//! Decoders for instructions and expressions. Each reads the input from a
//! position and returns the value with the position behind it. Nesting and
//! vector lengths are held to the limits of the options before anything is
//! allocated or entered.

use crate::decoding::{
    block_type_decoding, expression_decoding, index_decoding, instruction_decoding,
    memory_access_of, memory_argument_decoding, pattern32, pattern64, plain_decoding,
    prefixed_decoding, prepended, sequence_decoding, zeros_decoding, DecodeOptions, Decoded,
    DecodedSequence, Stop,
};
use crate::encoding::{ELSE, END};
use crate::error::CodecError;
use crate::instruction::{
    instructions_view, BlockType, ControlInstruction, Expression, Instruction, InstructionView,
    MemoryArgument, MemoryInstruction, NumericInstruction, ParametricInstruction,
    ReferenceInstruction, SignExtension, TableInstruction, VariableInstruction,
};
use crate::numeric::{numeric_from_opcode, saturating_from_code};
use crate::types::{IntegerType, NumberType, ReferenceType, ValueType};
use crate::values::{
    decode_f32, decode_f64, decode_i32, decode_i64, decode_u32, decode_vector, Codec,
};
use vstd::arithmetic::power2::lemma2_to64;
use vstd::prelude::*;

verus! {

/// The reader's result stands for `model`: the same value and position, or
/// the same error; and a value that was read took at least one byte of the
/// input behind `from`.
pub open spec fn read_plain<T>(
    result: Result<(T, usize), CodecError>,
    model: Decoded<T>,
    from: int,
    length: nat,
) -> bool {
    match result {
        Ok((value, next)) => {
            &&& model == Ok::<(T, int), CodecError>((value, next as int))
            &&& from < next <= length
        },
        Err(e) => model == Err::<(T, int), CodecError>(e),
    }
}

/// As `read_plain`, for a value that is compared by its view.
pub open spec fn read_as<T: View>(
    result: Result<(T, usize), CodecError>,
    model: Decoded<T::V>,
    from: int,
    length: nat,
) -> bool {
    match result {
        Ok((value, next)) => {
            &&& model == Ok::<(T::V, int), CodecError>((value@, next as int))
            &&& from < next <= length
        },
        Err(e) => model == Err::<(T::V, int), CodecError>(e),
    }
}

impl DecodeOptions {
    /// Options with the given mode and limits.
    pub fn new(strict: bool, max_vector_length: usize, max_nesting_depth: usize) -> (options: Self)
        ensures
            options == (DecodeOptions { strict, max_vector_length, max_nesting_depth }),
    {
        DecodeOptions { strict, max_vector_length, max_nesting_depth }
    }
}

/// Reads an index.
pub fn decode_index(input: &[u8], pos: usize, strict: bool) -> (result: Result<
    (u32, usize),
    CodecError,
>)
    ensures
        read_plain(result, index_decoding(input@, pos as int, strict), pos as int, input@.len()),
{
    decode_u32(input, pos, strict)
}

/// Reads `count` reserved zero bytes and returns the position behind them.
fn expect_zeros(input: &[u8], pos: usize, count: usize) -> (result: Result<usize, CodecError>)
    requires
        pos <= input@.len(),
    ensures
        match result {
            Ok(next) => zeros_decoding(input@, pos as int, count as nat) == Ok::<int, CodecError>(
                next as int,
            ) && pos <= next <= input@.len(),
            Err(e) => zeros_decoding(input@, pos as int, count as nat) == Err::<int, CodecError>(e),
        },
    decreases count,
{
    if count == 0 {
        Ok(pos)
    } else if pos >= input.len() {
        Err(CodecError::UnexpectedEndOfInput)
    } else if input[pos] != 0 {
        Err(CodecError::InvalidImmediate)
    } else {
        expect_zeros(input, pos + 1, count - 1)
    }
}

/// The bit pattern of a signed 32-bit value.
pub fn bits_of_i32(value: i32) -> (bits: u32)
    ensures
        bits == pattern32(value as int),
{
    if value >= 0 {
        value as u32
    } else {
        (value as i64 + 0x1_0000_0000) as u32
    }
}

/// The bit pattern of a signed 64-bit value.
pub fn bits_of_i64(value: i64) -> (bits: u64)
    ensures
        bits == pattern64(value as int),
{
    if value >= 0 {
        value as u64
    } else {
        ((value - i64::MIN) as u64) + 0x8000_0000_0000_0000
    }
}

/// Reads a memory argument: the offset, then the alignment.
pub fn decode_memory_argument(input: &[u8], pos: usize, strict: bool) -> (result: Result<
    (MemoryArgument, usize),
    CodecError,
>)
    ensures
        read_plain(
            result,
            memory_argument_decoding(input@, pos as int, strict),
            pos as int,
            input@.len(),
        ),
{
    let (offset, middle) = match decode_index(input, pos, strict) {
        Ok(pair) => pair,
        Err(e) => { return Err(e); },
    };
    match decode_index(input, middle, strict) {
        Ok((align, next)) => Ok((MemoryArgument::new(offset, Some(align)), next)),
        Err(e) => Err(e),
    }
}

/// The load or store with the given opcode, if there is one.
pub fn memory_access_from(opcode: u8, argument: MemoryArgument) -> (instruction: Option<
    MemoryInstruction,
>)
    ensures
        instruction == memory_access_of(opcode, argument),
{
    match opcode {
        0x28 => { return Some(MemoryInstruction::Load(NumberType::I32, argument)); },
        0x29 => { return Some(MemoryInstruction::Load(NumberType::I64, argument)); },
        0x2A => { return Some(MemoryInstruction::Load(NumberType::F32, argument)); },
        0x2B => { return Some(MemoryInstruction::Load(NumberType::F64, argument)); },
        0x2C => {
            return Some(
                MemoryInstruction::Load8(IntegerType::I32, SignExtension::Signed, argument),
            );
        },
        0x2D => {
            return Some(
                MemoryInstruction::Load8(IntegerType::I32, SignExtension::Unsigned, argument),
            );
        },
        0x2E => {
            return Some(
                MemoryInstruction::Load16(IntegerType::I32, SignExtension::Signed, argument),
            );
        },
        0x2F => {
            return Some(
                MemoryInstruction::Load16(IntegerType::I32, SignExtension::Unsigned, argument),
            );
        },
        0x30 => {
            return Some(
                MemoryInstruction::Load8(IntegerType::I64, SignExtension::Signed, argument),
            );
        },
        0x31 => {
            return Some(
                MemoryInstruction::Load8(IntegerType::I64, SignExtension::Unsigned, argument),
            );
        },
        0x32 => {
            return Some(
                MemoryInstruction::Load16(IntegerType::I64, SignExtension::Signed, argument),
            );
        },
        0x33 => {
            return Some(
                MemoryInstruction::Load16(IntegerType::I64, SignExtension::Unsigned, argument),
            );
        },
        0x34 => { return Some(MemoryInstruction::Load32(SignExtension::Signed, argument)); },
        0x35 => { return Some(MemoryInstruction::Load32(SignExtension::Unsigned, argument)); },
        0x36 => { return Some(MemoryInstruction::Store(NumberType::I32, argument)); },
        0x37 => { return Some(MemoryInstruction::Store(NumberType::I64, argument)); },
        0x38 => { return Some(MemoryInstruction::Store(NumberType::F32, argument)); },
        0x39 => { return Some(MemoryInstruction::Store(NumberType::F64, argument)); },
        0x3A => { return Some(MemoryInstruction::Store8(IntegerType::I32, argument)); },
        0x3B => { return Some(MemoryInstruction::Store16(IntegerType::I32, argument)); },
        0x3C => { return Some(MemoryInstruction::Store8(IntegerType::I64, argument)); },
        0x3D => { return Some(MemoryInstruction::Store16(IntegerType::I64, argument)); },
        0x3E => { return Some(MemoryInstruction::Store32(argument)); },
        _ => { return None; },
    }
}

/// Reads a block type.
pub fn decode_block_type(input: &[u8], pos: usize, strict: bool) -> (result: Result<
    (BlockType, usize),
    CodecError,
>)
    ensures
        read_plain(
            result,
            block_type_decoding(input@, pos as int, strict),
            pos as int,
            input@.len(),
        ),
{
    if pos >= input.len() {
        return Err(CodecError::UnexpectedEndOfInput);
    }
    let byte: u8 = input[pos];
    if byte == 0x40 {
        return Ok((BlockType::Empty, pos + 1));
    }
    if let Some(kind) = ValueType::from_tag(byte) {
        return Ok((BlockType::ValueType(kind), pos + 1));
    }
    proof {
        lemma2_to64();
    }
    match crate::leb128::decode_signed(input, pos, 33, strict) {
        Ok((index, next)) => {
            if index < 0 {
                Err(CodecError::InvalidImmediate)
            } else {
                Ok((BlockType::Index(index as u32), next))
            }
        },
        Err(e) => Err(e),
    }
}

/// Reads what follows the prefix byte: a secondary opcode and the
/// immediates of the instruction that it selects.
pub fn decode_prefixed(input: &[u8], pos: usize, strict: bool) -> (result: Result<
    (Instruction, usize),
    CodecError,
>)
    ensures
        read_as(result, prefixed_decoding(input@, pos as int, strict), pos as int, input@.len()),
{
    let (code, at) = match decode_u32(input, pos, strict) {
        Ok(pair) => pair,
        Err(e) => { return Err(e); },
    };
    if code < 8 {
        return match saturating_from_code(code) {
            Some(numeric) => Ok((Instruction::Numeric(numeric), at)),
            None => Err(CodecError::UnknownOpcode),
        };
    }
    if code == 8 {
        let (data, middle) = match decode_index(input, at, strict) {
            Ok(pair) => pair,
            Err(e) => { return Err(e); },
        };
        return match expect_zeros(input, middle, 1) {
            Ok(next) => Ok((Instruction::Memory(MemoryInstruction::Init(data)), next)),
            Err(e) => Err(e),
        };
    }
    if code == 9 {
        return match decode_index(input, at, strict) {
            Ok((data, next)) => Ok((Instruction::Memory(MemoryInstruction::DataDrop(data)), next)),
            Err(e) => Err(e),
        };
    }
    if code == 10 {
        return match expect_zeros(input, at, 2) {
            Ok(next) => Ok((Instruction::Memory(MemoryInstruction::Copy), next)),
            Err(e) => Err(e),
        };
    }
    if code == 11 {
        return match expect_zeros(input, at, 1) {
            Ok(next) => Ok((Instruction::Memory(MemoryInstruction::Fill), next)),
            Err(e) => Err(e),
        };
    }
    if code == 12 {
        let (element, middle) = match decode_index(input, at, strict) {
            Ok(pair) => pair,
            Err(e) => { return Err(e); },
        };
        return match decode_index(input, middle, strict) {
            Ok((table, next)) => Ok(
                (Instruction::Table(TableInstruction::Init(element, table)), next),
            ),
            Err(e) => Err(e),
        };
    }
    if code == 13 {
        return match decode_index(input, at, strict) {
            Ok((element, next)) => Ok(
                (Instruction::Table(TableInstruction::ElementDrop(element)), next),
            ),
            Err(e) => Err(e),
        };
    }
    if code == 14 {
        let (target, middle) = match decode_index(input, at, strict) {
            Ok(pair) => pair,
            Err(e) => { return Err(e); },
        };
        return match decode_index(input, middle, strict) {
            Ok((source, next)) => Ok(
                (Instruction::Table(TableInstruction::Copy(target, source)), next),
            ),
            Err(e) => Err(e),
        };
    }
    if code == 15 {
        return match decode_index(input, at, strict) {
            Ok((table, next)) => Ok((Instruction::Table(TableInstruction::Grow(table)), next)),
            Err(e) => Err(e),
        };
    }
    if code == 16 {
        return match decode_index(input, at, strict) {
            Ok((table, next)) => Ok((Instruction::Table(TableInstruction::Size(table)), next)),
            Err(e) => Err(e),
        };
    }
    if code == 17 {
        return match decode_index(input, at, strict) {
            Ok((table, next)) => Ok((Instruction::Table(TableInstruction::Fill(table)), next)),
            Err(e) => Err(e),
        };
    }
    Err(CodecError::UnknownOpcode)
}

/// Reads the immediates of an instruction that brackets no nested
/// sequence, given its opcode and the position behind the opcode.
pub fn decode_plain(
    input: &[u8],
    opcode: u8,
    at: usize,
    options: &DecodeOptions,
) -> (result: Result<
    (Instruction, usize),
    CodecError,
>)
    requires
        1 <= at <= input@.len(),
    ensures
        read_as(
            result,
            plain_decoding(input@, opcode, at as int, *options),
            at - 1,
            input@.len(),
        ),
{
    let strict = options.strict;
    match opcode {
        0x00 => {
            return Ok((Instruction::Control(ControlInstruction::Unreachable), at));
        },
        0x01 => {
            return Ok((Instruction::Control(ControlInstruction::Nop), at));
        },
        0x0C => {
            return match decode_index(input, at, strict) {
                Ok((label, next)) => Ok(
                    (Instruction::Control(ControlInstruction::Branch(label)), next),
                ),
                Err(e) => Err(e),
            };
        },
        0x0D => {
            return match decode_index(input, at, strict) {
                Ok((label, next)) => Ok(
                    (Instruction::Control(ControlInstruction::BranchIf(label)), next),
                ),
                Err(e) => Err(e),
            };
        },
        0x0E => {
            let (labels, middle) = match decode_vector::<u32>(
                input,
                at,
                options.max_vector_length,
                strict,
            ) {
                Ok(pair) => pair,
                Err(e) => { return Err(e); },
            };
            return match decode_index(input, middle, strict) {
                Ok((otherwise, next)) => Ok(
                    (Instruction::Control(ControlInstruction::BranchTable(labels, otherwise)), next),
                ),
                Err(e) => Err(e),
            };
        },
        0x0F => {
            return Ok((Instruction::Control(ControlInstruction::Return), at));
        },
        0x10 => {
            return match decode_index(input, at, strict) {
                Ok((function, next)) => Ok(
                    (Instruction::Control(ControlInstruction::Call(function)), next),
                ),
                Err(e) => Err(e),
            };
        },
        0x11 => {
            let (kind, middle) = match decode_index(input, at, strict) {
                Ok(pair) => pair,
                Err(e) => { return Err(e); },
            };
            return match decode_index(input, middle, strict) {
                Ok((table, next)) => Ok(
                    (Instruction::Control(ControlInstruction::CallIndirect(kind, table)), next),
                ),
                Err(e) => Err(e),
            };
        },
        0x1A => {
            return Ok((Instruction::Parametric(ParametricInstruction::Drop), at));
        },
        0x1B => {
            return Ok((Instruction::Parametric(ParametricInstruction::Select(None)), at));
        },
        0x1C => {
            return match decode_vector::<ValueType>(input, at, options.max_vector_length, strict) {
                Ok((kinds, next)) => Ok(
                    (Instruction::Parametric(ParametricInstruction::Select(Some(kinds))), next),
                ),
                Err(e) => Err(e),
            };
        },
        0x20 => {
            return match decode_index(input, at, strict) {
                Ok((index, next)) => Ok(
                    (Instruction::Variable(VariableInstruction::LocalGet(index)), next),
                ),
                Err(e) => Err(e),
            };
        },
        0x21 => {
            return match decode_index(input, at, strict) {
                Ok((index, next)) => Ok(
                    (Instruction::Variable(VariableInstruction::LocalSet(index)), next),
                ),
                Err(e) => Err(e),
            };
        },
        0x22 => {
            return match decode_index(input, at, strict) {
                Ok((index, next)) => Ok(
                    (Instruction::Variable(VariableInstruction::LocalTee(index)), next),
                ),
                Err(e) => Err(e),
            };
        },
        0x23 => {
            return match decode_index(input, at, strict) {
                Ok((index, next)) => Ok(
                    (Instruction::Variable(VariableInstruction::GlobalGet(index)), next),
                ),
                Err(e) => Err(e),
            };
        },
        0x24 => {
            return match decode_index(input, at, strict) {
                Ok((index, next)) => Ok(
                    (Instruction::Variable(VariableInstruction::GlobalSet(index)), next),
                ),
                Err(e) => Err(e),
            };
        },
        0x25 => {
            return match decode_index(input, at, strict) {
                Ok((table, next)) => Ok((Instruction::Table(TableInstruction::Get(table)), next)),
                Err(e) => Err(e),
            };
        },
        0x26 => {
            return match decode_index(input, at, strict) {
                Ok((table, next)) => Ok((Instruction::Table(TableInstruction::Put(table)), next)),
                Err(e) => Err(e),
            };
        },
        0x3F => {
            return match expect_zeros(input, at, 1) {
                Ok(next) => Ok((Instruction::Memory(MemoryInstruction::Size), next)),
                Err(e) => Err(e),
            };
        },
        0x40 => {
            return match expect_zeros(input, at, 1) {
                Ok(next) => Ok((Instruction::Memory(MemoryInstruction::Grow), next)),
                Err(e) => Err(e),
            };
        },
        0x41 => {
            return match decode_i32(input, at, strict) {
                Ok((value, next)) => Ok(
                    (Instruction::Numeric(NumericInstruction::I32Constant(bits_of_i32(value))), next),
                ),
                Err(e) => Err(e),
            };
        },
        0x42 => {
            return match decode_i64(input, at, strict) {
                Ok((value, next)) => Ok(
                    (Instruction::Numeric(NumericInstruction::I64Constant(bits_of_i64(value))), next),
                ),
                Err(e) => Err(e),
            };
        },
        0x43 => {
            return match decode_f32(input, at) {
                Ok((bits, next)) => Ok(
                    (Instruction::Numeric(NumericInstruction::F32Constant(bits)), next),
                ),
                Err(e) => Err(e),
            };
        },
        0x44 => {
            return match decode_f64(input, at) {
                Ok((bits, next)) => Ok(
                    (Instruction::Numeric(NumericInstruction::F64Constant(bits)), next),
                ),
                Err(e) => Err(e),
            };
        },
        0xD0 => {
            return match ReferenceType::decode(input, at, strict) {
                Ok((kind, next)) => Ok(
                    (Instruction::Reference(ReferenceInstruction::Null(kind)), next),
                ),
                Err(e) => Err(e),
            };
        },
        0xD1 => {
            return Ok((Instruction::Reference(ReferenceInstruction::IsNull), at));
        },
        0xD2 => {
            return match decode_index(input, at, strict) {
                Ok((function, next)) => Ok(
                    (Instruction::Reference(ReferenceInstruction::Function(function)), next),
                ),
                Err(e) => Err(e),
            };
        },
        0xFC => {
            return decode_prefixed(input, at, strict);
        },
        _ => {
            if 0x28 <= opcode && opcode <= 0x3E {
                let (argument, next) = match decode_memory_argument(input, at, strict) {
                    Ok(pair) => pair,
                    Err(e) => { return Err(e); },
                };
                return match memory_access_from(opcode, argument) {
                    Some(memory) => Ok((Instruction::Memory(memory), next)),
                    None => Err(CodecError::UnknownOpcode),
                };
            }
            return match numeric_from_opcode(opcode) {
                Some(numeric) => Ok((Instruction::Numeric(numeric), at)),
                None => Err(CodecError::UnknownOpcode),
            };
        },
    }
}

/// The structured instruction with the given opcode.
fn make_structured(
    opcode: u8,
    kind: BlockType,
    body: Vec<Instruction>,
    alternate: Option<Vec<Instruction>>,
) -> (instruction: Instruction)
    ensures
        instruction@ == crate::decoding::structured(
            opcode,
            kind,
            instructions_view(body),
            match alternate {
                Some(other) => Some(instructions_view(other)),
                None => None,
            },
        ),
{
    let body = Expression { instructions: body };
    if opcode == 0x02 {
        Instruction::Control(ControlInstruction::Block(kind, body))
    } else if opcode == 0x03 {
        Instruction::Control(ControlInstruction::Loop(kind, body))
    } else {
        let alternate = match alternate {
            Some(other) => Some(Expression { instructions: other }),
            None => None,
        };
        Instruction::Control(ControlInstruction::If(kind, body, alternate))
    }
}

/// Reads one instruction at `pos`, with structured instructions nested at
/// most `depth` deep from here.
pub fn decode_instruction_within(
    input: &[u8],
    pos: usize,
    options: &DecodeOptions,
    depth: usize,
) -> (result: Result<(Instruction, usize), CodecError>)
    ensures
        read_as(
            result,
            instruction_decoding(input@, pos as int, *options, depth as nat),
            pos as int,
            input@.len(),
        ),
    decreases depth, 0nat,
{
    if pos >= input.len() {
        return Err(CodecError::UnexpectedEndOfInput);
    }
    let opcode: u8 = input[pos];
    if opcode == 0x02 || opcode == 0x03 || opcode == 0x04 {
        if depth == 0 {
            return Err(CodecError::LimitExceeded);
        }
        let (kind, at) = match decode_block_type(input, pos + 1, options.strict) {
            Ok(pair) => pair,
            Err(e) => { return Err(e); },
        };
        let (body, stop, middle) = match decode_sequence(input, at, options, depth - 1) {
            Ok(triple) => triple,
            Err(e) => { return Err(e); },
        };
        match stop {
            Stop::Exhausted => Err(CodecError::UnexpectedEndOfInput),
            Stop::End => Ok((make_structured(opcode, kind, body, None), middle)),
            Stop::Else => {
                if opcode != 0x04 {
                    return Err(CodecError::UnknownOpcode);
                }
                let (alternate, last, next) = match decode_sequence(
                    input,
                    middle,
                    options,
                    depth - 1,
                ) {
                    Ok(triple) => triple,
                    Err(e) => { return Err(e); },
                };
                match last {
                    Stop::Exhausted => Err(CodecError::UnexpectedEndOfInput),
                    Stop::Else => Err(CodecError::UnknownOpcode),
                    Stop::End => Ok((make_structured(opcode, kind, body, Some(alternate)), next)),
                }
            },
        }
    } else {
        decode_plain(input, opcode, pos + 1, options)
    }
}

/// Reads instructions from `pos` up to an end marker, an else marker or the
/// end of the input, and says which of these stopped it.
pub fn decode_sequence(input: &[u8], pos: usize, options: &DecodeOptions, depth: usize) -> (result:
    Result<(Vec<Instruction>, Stop, usize), CodecError>)
    ensures
        match result {
            Ok((instructions, stop, next)) => {
                &&& sequence_decoding(input@, pos as int, *options, depth as nat) == Ok::<
                    (Seq<InstructionView>, Stop, int),
                    CodecError,
                >((instructions_view(instructions), stop, next as int))
                &&& stop != Stop::Exhausted ==> pos < next <= input@.len()
                &&& stop == Stop::Exhausted ==> next == pos || next == input@.len()
            },
            Err(e) => sequence_decoding(input@, pos as int, *options, depth as nat) == Err::<
                (Seq<InstructionView>, Stop, int),
                CodecError,
            >(e),
        },
    decreases depth, 1nat,
{
    let mut instructions: Vec<Instruction> = Vec::new();
    let mut at: usize = pos;
    loop
        invariant
            pos <= at,
            at <= input@.len() || at == pos,
            sequence_decoding(input@, pos as int, *options, depth as nat) == prepended(
                instructions_view(instructions),
                sequence_decoding(input@, at as int, *options, depth as nat),
            ),
        decreases input@.len() - at,
    {
        let ghost front = instructions_view(instructions);
        if at >= input.len() {
            proof {
                assert(front + Seq::<InstructionView>::empty() =~= front);
            }
            return Ok((instructions, Stop::Exhausted, at));
        }
        let byte: u8 = input[at];
        if byte == END {
            proof {
                assert(front + Seq::<InstructionView>::empty() =~= front);
            }
            return Ok((instructions, Stop::End, at + 1));
        }
        if byte == ELSE {
            proof {
                assert(front + Seq::<InstructionView>::empty() =~= front);
            }
            return Ok((instructions, Stop::Else, at + 1));
        }
        match decode_instruction_within(input, at, options, depth) {
            Err(e) => {
                return Err(e);
            },
            Ok((instruction, next)) => {
                let ghost first = instruction@;
                instructions.push(instruction);
                proof {
                    assert(instructions_view(instructions) =~= front.push(first));
                    lemma_prepended_twice(
                        front,
                        first,
                        sequence_decoding(input@, next as int, *options, depth as nat),
                    );
                }
                at = next;
            },
        }
    }
}

/// Putting one instruction in front and then some more is putting all of
/// them in front at once.
proof fn lemma_prepended_twice(
    front: Seq<InstructionView>,
    first: InstructionView,
    rest: DecodedSequence,
)
    ensures
        prepended(front, prepended(seq![first], rest)) == prepended(front.push(first), rest),
{
    match rest {
        Ok((instructions, stop, next)) => {
            assert(front + (seq![first] + instructions) =~= front.push(first) + instructions);
        },
        Err(_) => {},
    }
}

/// Reads one instruction at `pos`, with nesting up to the depth that the
/// options allow. An empty input gives `UnexpectedEndOfInput`.
pub fn decode_instruction(input: &[u8], pos: usize, options: &DecodeOptions) -> (result: Result<
    (Instruction, usize),
    CodecError,
>)
    ensures
        read_as(
            result,
            instruction_decoding(input@, pos as int, *options, options.max_nesting_depth as nat),
            pos as int,
            input@.len(),
        ),
{
    decode_instruction_within(input, pos, options, options.max_nesting_depth)
}

/// Reads a bare expression: the instructions from `pos` to the end of the
/// input. No instructions at all are the empty expression.
pub fn decode_expression(input: &[u8], pos: usize, options: &DecodeOptions) -> (result: Result<
    (Expression, usize),
    CodecError,
>)
    ensures
        match result {
            Ok((expression, next)) => {
                &&& expression_decoding(input@, pos as int, *options) == Ok::<
                    (Seq<InstructionView>, int),
                    CodecError,
                >((expression@, next as int))
                &&& next == pos || next == input@.len()
            },
            Err(e) => expression_decoding(input@, pos as int, *options) == Err::<
                (Seq<InstructionView>, int),
                CodecError,
            >(e),
        },
{
    match decode_sequence(input, pos, options, options.max_nesting_depth) {
        Err(e) => Err(e),
        Ok((instructions, stop, next)) => match stop {
            Stop::Exhausted => Ok((Expression { instructions }, next)),
            _ => Err(CodecError::UnknownOpcode),
        },
    }
}

} // verus!
