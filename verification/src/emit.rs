//! Encoders for instructions and expressions. Each appends the binary form
//! to a byte vector and returns the number of bytes written. An instruction
//! without a binary form is refused with `InvalidImmediate`, and the output
//! is then left as it was.

use crate::encoding::{
    block_type_encoding, control_encodable, control_encoding, expression_encodable,
    expression_encoding, instruction_encodable, instruction_encoding, memory_argument_encoding,
    memory_encoding, natural_align, numeric_encodable, numeric_encoding, parametric_encoding,
    prefixed, reference_encoding, sequence_encodable, sequence_encoding, table_encoding,
    variable_encoding, ELSE, END, PREFIX,
};
use crate::error::CodecError;
use crate::instruction::{
    instructions_view, BlockType, ControlInstruction, Expression, Instruction, MemoryArgument,
    MemoryInstruction, NumericInstruction, ParametricInstruction, ReferenceInstruction,
    TableInstruction, VariableInstruction,
};
use crate::leb128::{encode_signed, encode_unsigned, unsigned_encoding};
use crate::numeric::{code_of_saturating, opcode_of_numeric, pick_integer, pick_number, pick_sign};
use crate::types::NumberType;
use crate::values::{emit_f32, emit_f64, emit_vector};
use vstd::prelude::*;

verus! {

/// What an encoder leaves behind: the encoding appended and its length
/// returned, or, for a value without a binary form, the output untouched and
/// `InvalidImmediate` returned.
pub open spec fn emitted(
    before: Seq<u8>,
    after: Seq<u8>,
    written: Result<usize, CodecError>,
    encodable: bool,
    encoding: Seq<u8>,
) -> bool {
    if encodable {
        &&& after == before + encoding
        &&& written == Ok::<usize, CodecError>(encoding.len() as usize)
    } else {
        &&& after == before
        &&& written == Err::<usize, CodecError>(CodecError::InvalidImmediate)
    }
}

fn put_indexed(opcode: u8, index: u32, output: &mut Vec<u8>)
    ensures
        final(output)@ == old(output)@ + (seq![opcode] + unsigned_encoding(index as nat)),
{
    let ghost start = output@;
    output.push(opcode);
    encode_unsigned(index as u64, output);
    proof {
        assert(output@ =~= start + (seq![opcode] + unsigned_encoding(index as nat)));
    }
}

fn put_prefixed(code: u32, output: &mut Vec<u8>)
    ensures
        final(output)@ == old(output)@ + prefixed(code as nat),
{
    put_indexed(PREFIX, code, output);
}

fn put_memory_access(opcode: u8, argument: &MemoryArgument, natural: u32, output: &mut Vec<u8>)
    ensures
        final(output)@ == old(output)@ + (seq![opcode] + memory_argument_encoding(
            *argument,
            natural,
        )),
{
    let ghost start = output@;
    output.push(opcode);
    encode_unsigned(argument.offset as u64, output);
    encode_unsigned(argument.align_or(natural) as u64, output);
    proof {
        assert(output@ =~= start + (seq![opcode] + memory_argument_encoding(*argument, natural)));
    }
}

/// Emits a numeric instruction.
pub fn emit_numeric(instruction: &NumericInstruction, output: &mut Vec<u8>) -> (written: Result<
    usize,
    CodecError,
>)
    ensures
        emitted(
            old(output)@,
            final(output)@,
            written,
            numeric_encodable(*instruction),
            numeric_encoding(*instruction),
        ),
{
    let ghost start = output@;
    let start_len: usize = output.len();
    match *instruction {
        NumericInstruction::I32Constant(bits) => {
            let value: i64 = if bits < 0x8000_0000 {
                bits as i64
            } else {
                bits as i64 - 0x1_0000_0000
            };
            output.push(0x41);
            encode_signed(value, output);
        },
        NumericInstruction::I64Constant(bits) => {
            let value: i64 = if bits < 0x8000_0000_0000_0000 {
                bits as i64
            } else {
                (bits - 0x8000_0000_0000_0000) as i64 + i64::MIN
            };
            output.push(0x42);
            encode_signed(value, output);
        },
        NumericInstruction::F32Constant(bits) => {
            output.push(0x43);
            let _ = emit_f32(bits, output);
        },
        NumericInstruction::F64Constant(bits) => {
            output.push(0x44);
            let _ = emit_f64(bits, output);
        },
        NumericInstruction::ConvertAndTruncateWithSaturation(to, from, sign) => {
            put_prefixed(code_of_saturating(to, from, sign) as u32, output);
        },
        _ => {
            match opcode_of_numeric(instruction) {
                Some(opcode) => {
                    output.push(opcode);
                },
                None => {
                    return Err(CodecError::InvalidImmediate);
                },
            }
        },
    }
    proof {
        assert(output@ =~= start + numeric_encoding(*instruction));
    }
    Ok(output.len() - start_len)
}

/// Emits a reference instruction.
pub fn emit_reference(instruction: &ReferenceInstruction, output: &mut Vec<u8>) -> (written: Result<
    usize,
    CodecError,
>)
    ensures
        emitted(old(output)@, final(output)@, written, true, reference_encoding(*instruction)),
{
    let ghost start = output@;
    let start_len: usize = output.len();
    match instruction {
        ReferenceInstruction::Null(kind) => {
            output.push(0xD0);
            output.push(kind.tag());
        },
        ReferenceInstruction::IsNull => {
            output.push(0xD1);
        },
        ReferenceInstruction::Function(function) => {
            put_indexed(0xD2, *function, output);
        },
    }
    proof {
        assert(output@ =~= start + reference_encoding(*instruction));
    }
    Ok(output.len() - start_len)
}

/// Emits a parametric instruction.
pub fn emit_parametric(instruction: &ParametricInstruction, output: &mut Vec<u8>) -> (written:
    Result<usize, CodecError>)
    ensures
        emitted(old(output)@, final(output)@, written, true, parametric_encoding(instruction@)),
{
    let ghost start = output@;
    let start_len: usize = output.len();
    match instruction {
        ParametricInstruction::Drop => {
            output.push(0x1A);
        },
        ParametricInstruction::Select(None) => {
            output.push(0x1B);
        },
        ParametricInstruction::Select(Some(kinds)) => {
            output.push(0x1C);
            let _ = emit_vector(kinds.as_slice(), output);
        },
    }
    proof {
        assert(output@ =~= start + parametric_encoding(instruction@));
    }
    Ok(output.len() - start_len)
}

/// Emits a variable instruction.
pub fn emit_variable(instruction: &VariableInstruction, output: &mut Vec<u8>) -> (written: Result<
    usize,
    CodecError,
>)
    ensures
        emitted(old(output)@, final(output)@, written, true, variable_encoding(*instruction)),
{
    let start_len: usize = output.len();
    match *instruction {
        VariableInstruction::LocalGet(index) => put_indexed(0x20, index, output),
        VariableInstruction::LocalSet(index) => put_indexed(0x21, index, output),
        VariableInstruction::LocalTee(index) => put_indexed(0x22, index, output),
        VariableInstruction::GlobalGet(index) => put_indexed(0x23, index, output),
        VariableInstruction::GlobalSet(index) => put_indexed(0x24, index, output),
    }
    Ok(output.len() - start_len)
}

/// Emits a table instruction.
pub fn emit_table(instruction: &TableInstruction, output: &mut Vec<u8>) -> (written: Result<
    usize,
    CodecError,
>)
    ensures
        emitted(old(output)@, final(output)@, written, true, table_encoding(*instruction)),
{
    let ghost start = output@;
    let start_len: usize = output.len();
    match *instruction {
        TableInstruction::Get(table) => {
            put_indexed(0x25, table, output);
        },
        TableInstruction::Put(table) => {
            put_indexed(0x26, table, output);
        },
        TableInstruction::Init(element, table) => {
            put_prefixed(12, output);
            encode_unsigned(element as u64, output);
            encode_unsigned(table as u64, output);
        },
        TableInstruction::ElementDrop(element) => {
            put_prefixed(13, output);
            encode_unsigned(element as u64, output);
        },
        TableInstruction::Copy(target, source) => {
            put_prefixed(14, output);
            encode_unsigned(target as u64, output);
            encode_unsigned(source as u64, output);
        },
        TableInstruction::Grow(table) => {
            put_prefixed(15, output);
            encode_unsigned(table as u64, output);
        },
        TableInstruction::Size(table) => {
            put_prefixed(16, output);
            encode_unsigned(table as u64, output);
        },
        TableInstruction::Fill(table) => {
            put_prefixed(17, output);
            encode_unsigned(table as u64, output);
        },
    }
    proof {
        assert(output@ =~= start + table_encoding(*instruction));
    }
    Ok(output.len() - start_len)
}

/// The natural alignment of a full-width access, as an exponent.
pub fn natural_alignment(kind: NumberType) -> (align: u32)
    ensures
        align == natural_align(kind),
{
    match kind {
        NumberType::I32 => 2,
        NumberType::I64 => 3,
        NumberType::F32 => 2,
        NumberType::F64 => 3,
    }
}

/// Emits a memory instruction.
pub fn emit_memory(instruction: &MemoryInstruction, output: &mut Vec<u8>) -> (written: Result<
    usize,
    CodecError,
>)
    ensures
        emitted(old(output)@, final(output)@, written, true, memory_encoding(*instruction)),
{
    let ghost start = output@;
    let start_len: usize = output.len();
    match instruction {
        MemoryInstruction::Load(kind, argument) => {
            let opcode = pick_number(*kind, 0x28, 0x29, 0x2A, 0x2B);
            put_memory_access(opcode, argument, natural_alignment(*kind), output);
        },
        MemoryInstruction::Load8(kind, sign, argument) => {
            let opcode = pick_sign(*sign, pick_integer(*kind, 0x2C, 0x30));
            put_memory_access(opcode, argument, 0, output);
        },
        MemoryInstruction::Load16(kind, sign, argument) => {
            let opcode = pick_sign(*sign, pick_integer(*kind, 0x2E, 0x32));
            put_memory_access(opcode, argument, 1, output);
        },
        MemoryInstruction::Load32(sign, argument) => {
            put_memory_access(pick_sign(*sign, 0x34), argument, 2, output);
        },
        MemoryInstruction::Store(kind, argument) => {
            let opcode = pick_number(*kind, 0x36, 0x37, 0x38, 0x39);
            put_memory_access(opcode, argument, natural_alignment(*kind), output);
        },
        MemoryInstruction::Store8(kind, argument) => {
            put_memory_access(pick_integer(*kind, 0x3A, 0x3C), argument, 0, output);
        },
        MemoryInstruction::Store16(kind, argument) => {
            put_memory_access(pick_integer(*kind, 0x3B, 0x3D), argument, 1, output);
        },
        MemoryInstruction::Store32(argument) => {
            put_memory_access(0x3E, argument, 2, output);
        },
        MemoryInstruction::Size => {
            output.push(0x3F);
            output.push(0x00);
        },
        MemoryInstruction::Grow => {
            output.push(0x40);
            output.push(0x00);
        },
        MemoryInstruction::Init(data) => {
            put_prefixed(8, output);
            encode_unsigned(*data as u64, output);
            output.push(0x00);
        },
        MemoryInstruction::DataDrop(data) => {
            put_prefixed(9, output);
            encode_unsigned(*data as u64, output);
        },
        MemoryInstruction::Copy => {
            put_prefixed(10, output);
            output.push(0x00);
            output.push(0x00);
        },
        MemoryInstruction::Fill => {
            put_prefixed(11, output);
            output.push(0x00);
        },
    }
    proof {
        assert(output@ =~= start + memory_encoding(*instruction));
    }
    Ok(output.len() - start_len)
}

/// Emits a block type.
pub fn emit_block_type(kind: &BlockType, output: &mut Vec<u8>) -> (written: Result<
    usize,
    CodecError,
>)
    ensures
        emitted(old(output)@, final(output)@, written, true, block_type_encoding(*kind)),
{
    let ghost start = output@;
    let start_len: usize = output.len();
    match kind {
        BlockType::Empty => {
            output.push(0x40);
        },
        BlockType::ValueType(value) => {
            output.push(value.tag());
        },
        BlockType::Index(index) => {
            encode_signed(*index as i64, output);
        },
    }
    proof {
        assert(output@ =~= start + block_type_encoding(*kind));
    }
    Ok(output.len() - start_len)
}

/// Emits the instructions of a vector one after the other, with no marker
/// behind them.
pub fn emit_instructions(instructions: &Vec<Instruction>, output: &mut Vec<u8>) -> (written: Result<
    usize,
    CodecError,
>)
    ensures
        emitted(
            old(output)@,
            final(output)@,
            written,
            expression_encodable(instructions_view(*instructions)),
            expression_encoding(instructions_view(*instructions)),
        ),
    decreases instructions,
{
    let ghost start = output@;
    let ghost views = instructions_view(*instructions);
    let start_len: usize = output.len();
    let mut i: usize = 0;
    while i < instructions.len()
        invariant
            i <= instructions@.len(),
            views == instructions_view(*instructions),
            views.len() == instructions@.len(),
            start == old(output)@,
            start_len == start.len(),
            start_len <= output@.len(),
            output@.subrange(0, start_len as int) == start,
            sequence_encodable(views, 0) == sequence_encodable(views, i as nat),
            output@ + sequence_encoding(views, i as nat) == start + sequence_encoding(views, 0),
        decreases instructions@.len() - i,
    {
        let ghost before = output@;
        match emit_instruction(&instructions[i], output) {
            Ok(_) => {
                proof {
                    assert(views[i as int] == instructions@[i as int]@);
                    assert(output@ + sequence_encoding(views, (i + 1) as nat) =~= before
                        + sequence_encoding(views, i as nat));
                    assert(output@.subrange(0, start_len as int) =~= before.subrange(
                        0,
                        start_len as int,
                    ));
                }
            },
            Err(e) => {
                proof {
                    assert(views[i as int] == instructions@[i as int]@);
                    assert(!sequence_encodable(views, i as nat));
                }
                output.truncate(start_len);
                return Err(e);
            },
        }
        i = i + 1;
    }
    proof {
        assert(output@ =~= start + sequence_encoding(views, 0));
    }
    Ok(output.len() - start_len)
}

/// Emits a control instruction. For a structured instruction that is its
/// opcode, its block type, the nested instructions and the end marker, with
/// the else marker before an alternate branch.
pub fn emit_control(instruction: &ControlInstruction, output: &mut Vec<u8>) -> (written: Result<
    usize,
    CodecError,
>)
    ensures
        emitted(
            old(output)@,
            final(output)@,
            written,
            control_encodable(instruction@),
            control_encoding(instruction@),
        ),
    decreases instruction,
{
    let ghost start = output@;
    let start_len: usize = output.len();
    match instruction {
        ControlInstruction::Unreachable => {
            output.push(0x00);
        },
        ControlInstruction::Nop => {
            output.push(0x01);
        },
        ControlInstruction::Block(kind, body) => {
            output.push(0x02);
            let _ = emit_block_type(kind, output);
            if let Err(e) = emit_instructions(&body.instructions, output) {
                proof {
                    assert(output@.subrange(0, start_len as int) =~= start);
                }
                output.truncate(start_len);
                return Err(e);
            }
            output.push(END);
        },
        ControlInstruction::Loop(kind, body) => {
            output.push(0x03);
            let _ = emit_block_type(kind, output);
            if let Err(e) = emit_instructions(&body.instructions, output) {
                proof {
                    assert(output@.subrange(0, start_len as int) =~= start);
                }
                output.truncate(start_len);
                return Err(e);
            }
            output.push(END);
        },
        ControlInstruction::If(kind, body, alternate) => {
            output.push(0x04);
            let _ = emit_block_type(kind, output);
            if let Err(e) = emit_instructions(&body.instructions, output) {
                proof {
                    assert(output@.subrange(0, start_len as int) =~= start);
                }
                output.truncate(start_len);
                return Err(e);
            }
            match alternate {
                Some(other) => {
                    output.push(ELSE);
                    if let Err(e) = emit_instructions(&other.instructions, output) {
                        proof {
                            assert(output@.subrange(0, start_len as int) =~= start);
                        }
                        output.truncate(start_len);
                        return Err(e);
                    }
                },
                None => {},
            }
            output.push(END);
        },
        ControlInstruction::Branch(label) => {
            put_indexed(0x0C, *label, output);
        },
        ControlInstruction::BranchIf(label) => {
            put_indexed(0x0D, *label, output);
        },
        ControlInstruction::BranchTable(labels, otherwise) => {
            output.push(0x0E);
            let _ = emit_vector(labels.as_slice(), output);
            encode_unsigned(*otherwise as u64, output);
        },
        ControlInstruction::Return => {
            output.push(0x0F);
        },
        ControlInstruction::Call(function) => {
            put_indexed(0x10, *function, output);
        },
        ControlInstruction::CallIndirect(kind, table) => {
            put_indexed(0x11, *kind, output);
            encode_unsigned(*table as u64, output);
        },
    }
    proof {
        assert(output@ =~= start + control_encoding(instruction@));
    }
    Ok(output.len() - start_len)
}

/// Emits an instruction.
pub fn emit_instruction(instruction: &Instruction, output: &mut Vec<u8>) -> (written: Result<
    usize,
    CodecError,
>)
    ensures
        emitted(
            old(output)@,
            final(output)@,
            written,
            instruction_encodable(instruction@),
            instruction_encoding(instruction@),
        ),
    decreases instruction,
{
    match instruction {
        Instruction::Numeric(numeric) => emit_numeric(numeric, output),
        Instruction::Reference(reference) => emit_reference(reference, output),
        Instruction::Parametric(parametric) => emit_parametric(parametric, output),
        Instruction::Variable(variable) => emit_variable(variable, output),
        Instruction::Table(table) => emit_table(table, output),
        Instruction::Memory(memory) => emit_memory(memory, output),
        Instruction::Control(control) => emit_control(control, output),
    }
}

/// Emits an expression: its instructions in order. A bare expression gets
/// no end marker; the empty expression gives no bytes at all.
pub fn emit_expression(expression: &Expression, output: &mut Vec<u8>) -> (written: Result<
    usize,
    CodecError,
>)
    ensures
        emitted(
            old(output)@,
            final(output)@,
            written,
            expression_encodable(expression@),
            expression_encoding(expression@),
        ),
{
    emit_instructions(&expression.instructions, output)
}

} // verus!
