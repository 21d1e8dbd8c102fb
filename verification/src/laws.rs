//! Laws of the instruction codec: what was encoded is read back, and what
//! strict reading accepts is an encoding.

use crate::decoding::{
    block_type_decoding, expression_decoding, index_decoding, instruction_decoding,
    memory_access_of, memory_argument_decoding, pattern32, pattern64, plain_decoding,
    prefixed_decoding, sequence_decoding, structured, zeros_decoding, DecodeOptions, Stop,
};
use crate::encoding::{
    block_type_encoding, control_encoding, expression_encoding, instruction_encoding,
    memory_argument_encoding, memory_encoding, numeric_encodable, numeric_encoding,
    parametric_encoding, prefixed, reference_encoding, sequence_encoding, signed32, signed64,
    table_encoding, variable_encoding, ELSE, END, PREFIX,
};
use crate::error::CodecError;
use crate::instruction::{
    BlockType, ControlView, InstructionView, MemoryArgument, MemoryInstruction, NumericInstruction,
    ParametricView, ReferenceInstruction, TableInstruction, VariableInstruction,
};
use crate::leb128::{
    lemma_occurs_join, lemma_occurs_split, lemma_signed_round_trip, lemma_signed_strict_occurs,
    lemma_unsigned_round_trip, lemma_unsigned_strict_occurs, occurs_at, signed_decoding,
    signed_encoding, unsigned_decoding, unsigned_encoding,
};
use crate::numeric::{
    lemma_numeric_of_opcode_sound, lemma_numeric_opcode_range, lemma_numeric_opcode_round_trip,
    lemma_saturating_code_round_trip, lemma_saturating_of_code_sound, numeric_of_opcode,
    saturating_code, saturating_of_code,
};
use crate::types::ValueType;
use crate::values::{
    f32_decoding, f64_decoding, lemma_f32_canonical, lemma_f32_round_trip, lemma_f64_canonical,
    lemma_f64_round_trip, lemma_vector_canonical, lemma_vector_round_trip, vector_decoding,
    vector_encoding,
};
use vstd::arithmetic::power2::{lemma2_to64, lemma2_to64_rest};
use vstd::prelude::*;

verus! {

/// Whether the load or store, if the instruction is one, names its alignment.
pub open spec fn memory_explicit(instruction: MemoryInstruction) -> bool {
    match instruction {
        MemoryInstruction::Load(_, argument) => argument.align is Some,
        MemoryInstruction::Store(_, argument) => argument.align is Some,
        MemoryInstruction::Load8(_, _, argument) => argument.align is Some,
        MemoryInstruction::Load16(_, _, argument) => argument.align is Some,
        MemoryInstruction::Load32(_, argument) => argument.align is Some,
        MemoryInstruction::Store8(_, argument) => argument.align is Some,
        MemoryInstruction::Store16(_, argument) => argument.align is Some,
        MemoryInstruction::Store32(argument) => argument.align is Some,
        _ => true,
    }
}

/// Whether a control instruction can be read back under the given options
/// with `depth` levels of nesting left.
pub open spec fn control_admissible(
    instruction: ControlView,
    options: DecodeOptions,
    depth: nat,
) -> bool
    decreases instruction,
{
    match instruction {
        ControlView::Block(_, body) => depth > 0 && sequence_admissible(
            body,
            0,
            options,
            (depth - 1) as nat,
        ),
        ControlView::Loop(_, body) => depth > 0 && sequence_admissible(
            body,
            0,
            options,
            (depth - 1) as nat,
        ),
        ControlView::If(_, body, None) => depth > 0 && sequence_admissible(
            body,
            0,
            options,
            (depth - 1) as nat,
        ),
        ControlView::If(_, body, Some(alternate)) => depth > 0 && sequence_admissible(
            body,
            0,
            options,
            (depth - 1) as nat,
        ) && sequence_admissible(alternate, 0, options, (depth - 1) as nat),
        ControlView::BranchTable(labels, _) => labels.len() <= options.max_vector_length,
        _ => true,
    }
}

/// Whether an instruction can be read back under the given options with
/// `depth` levels of nesting left: it has a binary form, its loads and
/// stores name their alignment (a reader cannot tell a natural alignment
/// that was left out from one that was written), its vectors are within
/// the length limit and its nesting within the depth.
pub open spec fn instruction_admissible(
    instruction: InstructionView,
    options: DecodeOptions,
    depth: nat,
) -> bool
    decreases instruction,
{
    match instruction {
        InstructionView::Numeric(numeric) => numeric_encodable(numeric),
        InstructionView::Parametric(ParametricView::Select(Some(kinds))) => kinds.len()
            <= options.max_vector_length,
        InstructionView::Memory(memory) => memory_explicit(memory),
        InstructionView::Control(control) => control_admissible(control, options, depth),
        _ => true,
    }
}

/// Whether each instruction from index `from` on is admissible.
pub open spec fn sequence_admissible(
    instructions: Seq<InstructionView>,
    from: nat,
    options: DecodeOptions,
    depth: nat,
) -> bool
    decreases instructions, instructions.len() - from,
{
    if from >= instructions.len() {
        true
    } else {
        instruction_admissible(instructions[from as int], options, depth) && sequence_admissible(
            instructions,
            from + 1,
            options,
            depth,
        )
    }
}

/// Reading at `pos` gives back `instruction` and the position behind its
/// encoding.
pub open spec fn reads_back(
    input: Seq<u8>,
    pos: int,
    instruction: InstructionView,
    options: DecodeOptions,
    depth: nat,
) -> bool {
    instruction_decoding(input, pos, options, depth) == Ok::<(InstructionView, int), CodecError>(
        (instruction, pos + instruction_encoding(instruction).len()),
    )
}

proof fn lemma_opcode_then(input: Seq<u8>, pos: int, opcode: u8, rest: Seq<u8>)
    requires
        occurs_at(input, pos, seq![opcode] + rest),
    ensures
        0 <= pos < input.len(),
        input[pos] == opcode,
        occurs_at(input, pos + 1, rest),
{
    lemma_occurs_split(input, pos, seq![opcode], rest);
    assert(input[pos + 0] == seq![opcode][0]);
}

proof fn lemma_index_reads_back(input: Seq<u8>, pos: int, index: u32, strict: bool)
    requires
        occurs_at(input, pos, unsigned_encoding(index as nat)),
    ensures
        index_decoding(input, pos, strict) == Ok::<(u32, int), CodecError>(
            (index, pos + unsigned_encoding(index as nat).len()),
        ),
{
    lemma2_to64();
    lemma_unsigned_round_trip(input, pos, index as nat, 32, strict);
}

proof fn lemma_indices_read_back(input: Seq<u8>, pos: int, first: u32, second: u32, strict: bool)
    requires
        occurs_at(input, pos, unsigned_encoding(first as nat) + unsigned_encoding(second as nat)),
    ensures
        index_decoding(input, pos, strict) == Ok::<(u32, int), CodecError>(
            (first, pos + unsigned_encoding(first as nat).len()),
        ),
        index_decoding(input, pos + unsigned_encoding(first as nat).len(), strict) == Ok::<
            (u32, int),
            CodecError,
        >(
            (
                second,
                pos + unsigned_encoding(first as nat).len() + unsigned_encoding(
                    second as nat,
                ).len(),
            ),
        ),
{
    lemma_occurs_split(
        input,
        pos,
        unsigned_encoding(first as nat),
        unsigned_encoding(second as nat),
    );
    lemma_index_reads_back(input, pos, first, strict);
    lemma_index_reads_back(input, pos + unsigned_encoding(first as nat).len(), second, strict);
}

proof fn lemma_prefixed_reads_back(input: Seq<u8>, pos: int, code: nat, strict: bool)
    requires
        code < 128,
        occurs_at(input, pos, prefixed(code)),
    ensures
        0 <= pos < input.len(),
        input[pos] == PREFIX,
        prefixed(code).len() == 2,
        unsigned_decoding(input, pos + 1, 32, strict) == Ok::<(nat, int), CodecError>(
            (code, pos + 2),
        ),
{
    lemma_opcode_then(input, pos, PREFIX, unsigned_encoding(code));
    lemma2_to64();
    lemma_unsigned_round_trip(input, pos + 1, code, 32, strict);
}

proof fn lemma_zero_read(input: Seq<u8>, pos: int)
    requires
        occurs_at(input, pos, seq![0x00u8]),
    ensures
        zeros_decoding(input, pos, 1) == Ok::<int, CodecError>(pos + 1),
{
    assert(input[pos + 0] == seq![0x00u8][0]);
    assert(zeros_decoding(input, pos + 1, 0) == Ok::<int, CodecError>(pos + 1));
}

proof fn lemma_numeric_reads_back(
    input: Seq<u8>,
    pos: int,
    numeric: NumericInstruction,
    options: DecodeOptions,
    depth: nat,
)
    requires
        numeric_encodable(numeric),
        occurs_at(input, pos, numeric_encoding(numeric)),
    ensures
        reads_back(input, pos, InstructionView::Numeric(numeric), options, depth),
{
    let strict = options.strict;
    lemma2_to64();
    lemma2_to64_rest();
    match numeric {
        NumericInstruction::I32Constant(bits) => {
            lemma_opcode_then(input, pos, 0x41, signed_encoding(signed32(bits)));
            lemma_signed_round_trip(input, pos + 1, signed32(bits), 32, strict);
            assert(pattern32(signed32(bits)) == bits);
        },
        NumericInstruction::I64Constant(bits) => {
            lemma_opcode_then(input, pos, 0x42, signed_encoding(signed64(bits)));
            lemma_signed_round_trip(input, pos + 1, signed64(bits), 64, strict);
            assert(pattern64(signed64(bits)) == bits);
        },
        NumericInstruction::F32Constant(bits) => {
            lemma_opcode_then(input, pos, 0x43, crate::values::f32_encoding(bits));
            lemma_f32_round_trip(input, pos + 1, bits);
        },
        NumericInstruction::F64Constant(bits) => {
            lemma_opcode_then(input, pos, 0x44, crate::values::f64_encoding(bits));
            lemma_f64_round_trip(input, pos + 1, bits);
        },
        NumericInstruction::ConvertAndTruncateWithSaturation(to, from, sign) => {
            lemma_saturating_code_round_trip(to, from, sign);
            lemma_prefixed_reads_back(input, pos, saturating_code(to, from, sign) as nat, strict);
        },
        _ => {
            lemma_numeric_opcode_round_trip(numeric);
            lemma_numeric_opcode_range(numeric);
            assert(input[pos + 0] == numeric_encoding(numeric)[0]);
        },
    }
}

proof fn lemma_reference_reads_back(
    input: Seq<u8>,
    pos: int,
    reference: ReferenceInstruction,
    options: DecodeOptions,
    depth: nat,
)
    requires
        occurs_at(input, pos, reference_encoding(reference)),
    ensures
        reads_back(input, pos, InstructionView::Reference(reference), options, depth),
{
    let encoding = reference_encoding(reference);
    assert(input[pos + 0] == encoding[0]);
    match reference {
        ReferenceInstruction::Null(kind) => {
            assert(input[pos + 1] == encoding[1]);
        },
        ReferenceInstruction::IsNull => {},
        ReferenceInstruction::Function(function) => {
            lemma_opcode_then(input, pos, 0xD2, unsigned_encoding(function as nat));
            lemma_index_reads_back(input, pos + 1, function, options.strict);
        },
    }
}

proof fn lemma_parametric_reads_back(
    input: Seq<u8>,
    pos: int,
    parametric: ParametricView,
    options: DecodeOptions,
    depth: nat,
)
    requires
        instruction_admissible(InstructionView::Parametric(parametric), options, depth),
        occurs_at(input, pos, parametric_encoding(parametric)),
    ensures
        reads_back(input, pos, InstructionView::Parametric(parametric), options, depth),
{
    let encoding = parametric_encoding(parametric);
    match parametric {
        ParametricView::Drop => {
            assert(input[pos + 0] == encoding[0]);
        },
        ParametricView::Select(None) => {
            assert(input[pos + 0] == encoding[0]);
        },
        ParametricView::Select(Some(kinds)) => {
            lemma_opcode_then(input, pos, 0x1C, vector_encoding(kinds));
            lemma_vector_round_trip::<ValueType>(
                input,
                pos + 1,
                kinds,
                options.max_vector_length as nat,
                options.strict,
            );
        },
    }
}

proof fn lemma_variable_reads_back(
    input: Seq<u8>,
    pos: int,
    variable: VariableInstruction,
    options: DecodeOptions,
    depth: nat,
)
    requires
        occurs_at(input, pos, variable_encoding(variable)),
    ensures
        reads_back(input, pos, InstructionView::Variable(variable), options, depth),
{
    let strict = options.strict;
    match variable {
        VariableInstruction::LocalGet(index) => {
            lemma_opcode_then(input, pos, 0x20, unsigned_encoding(index as nat));
            lemma_index_reads_back(input, pos + 1, index, strict);
        },
        VariableInstruction::LocalSet(index) => {
            lemma_opcode_then(input, pos, 0x21, unsigned_encoding(index as nat));
            lemma_index_reads_back(input, pos + 1, index, strict);
        },
        VariableInstruction::LocalTee(index) => {
            lemma_opcode_then(input, pos, 0x22, unsigned_encoding(index as nat));
            lemma_index_reads_back(input, pos + 1, index, strict);
        },
        VariableInstruction::GlobalGet(index) => {
            lemma_opcode_then(input, pos, 0x23, unsigned_encoding(index as nat));
            lemma_index_reads_back(input, pos + 1, index, strict);
        },
        VariableInstruction::GlobalSet(index) => {
            lemma_opcode_then(input, pos, 0x24, unsigned_encoding(index as nat));
            lemma_index_reads_back(input, pos + 1, index, strict);
        },
    }
}

proof fn lemma_prefixed_index_reads_back(
    input: Seq<u8>,
    pos: int,
    code: nat,
    index: u32,
    strict: bool,
)
    requires
        code < 128,
        occurs_at(input, pos, prefixed(code) + unsigned_encoding(index as nat)),
    ensures
        0 <= pos < input.len(),
        input[pos] == PREFIX,
        unsigned_decoding(input, pos + 1, 32, strict) == Ok::<(nat, int), CodecError>(
            (code, pos + 2),
        ),
        index_decoding(input, pos + 2, strict) == Ok::<(u32, int), CodecError>(
            (index, pos + 2 + unsigned_encoding(index as nat).len()),
        ),
{
    lemma_occurs_split(input, pos, prefixed(code), unsigned_encoding(index as nat));
    lemma_prefixed_reads_back(input, pos, code, strict);
    lemma_index_reads_back(input, pos + 2, index, strict);
}

proof fn lemma_prefixed_indices_read_back(
    input: Seq<u8>,
    pos: int,
    code: nat,
    first: u32,
    second: u32,
    strict: bool,
)
    requires
        code < 128,
        occurs_at(
            input,
            pos,
            prefixed(code) + unsigned_encoding(first as nat) + unsigned_encoding(second as nat),
        ),
    ensures
        0 <= pos < input.len(),
        input[pos] == PREFIX,
        unsigned_decoding(input, pos + 1, 32, strict) == Ok::<(nat, int), CodecError>(
            (code, pos + 2),
        ),
        index_decoding(input, pos + 2, strict) == Ok::<(u32, int), CodecError>(
            (first, pos + 2 + unsigned_encoding(first as nat).len()),
        ),
        index_decoding(input, pos + 2 + unsigned_encoding(first as nat).len(), strict) == Ok::<
            (u32, int),
            CodecError,
        >(
            (
                second,
                pos + 2 + unsigned_encoding(first as nat).len() + unsigned_encoding(
                    second as nat,
                ).len(),
            ),
        ),
{
    lemma_occurs_split(
        input,
        pos,
        prefixed(code) + unsigned_encoding(first as nat),
        unsigned_encoding(second as nat),
    );
    lemma_prefixed_index_reads_back(input, pos, code, first, strict);
    lemma_index_reads_back(
        input,
        pos + 2 + unsigned_encoding(first as nat).len(),
        second,
        strict,
    );
}

proof fn lemma_table_reads_back(
    input: Seq<u8>,
    pos: int,
    table: TableInstruction,
    options: DecodeOptions,
    depth: nat,
)
    requires
        occurs_at(input, pos, table_encoding(table)),
    ensures
        reads_back(input, pos, InstructionView::Table(table), options, depth),
{
    let strict = options.strict;
    match table {
        TableInstruction::Get(index) => {
            lemma_opcode_then(input, pos, 0x25, unsigned_encoding(index as nat));
            lemma_index_reads_back(input, pos + 1, index, strict);
        },
        TableInstruction::Put(index) => {
            lemma_opcode_then(input, pos, 0x26, unsigned_encoding(index as nat));
            lemma_index_reads_back(input, pos + 1, index, strict);
        },
        TableInstruction::Init(element, index) => {
            lemma_prefixed_indices_read_back(input, pos, 12, element, index, strict);
        },
        TableInstruction::ElementDrop(element) => {
            lemma_prefixed_index_reads_back(input, pos, 13, element, strict);
        },
        TableInstruction::Copy(target, source) => {
            lemma_prefixed_indices_read_back(input, pos, 14, target, source, strict);
        },
        TableInstruction::Grow(index) => {
            lemma_prefixed_index_reads_back(input, pos, 15, index, strict);
        },
        TableInstruction::Size(index) => {
            lemma_prefixed_index_reads_back(input, pos, 16, index, strict);
        },
        TableInstruction::Fill(index) => {
            lemma_prefixed_index_reads_back(input, pos, 17, index, strict);
        },
    }
}

proof fn lemma_memory_access_reads_back(
    input: Seq<u8>,
    pos: int,
    opcode: u8,
    argument: MemoryArgument,
    natural: u32,
    strict: bool,
)
    requires
        argument.align is Some,
        occurs_at(input, pos, seq![opcode] + memory_argument_encoding(argument, natural)),
    ensures
        0 <= pos < input.len(),
        input[pos] == opcode,
        memory_argument_decoding(input, pos + 1, strict) == Ok::<(MemoryArgument, int), CodecError>(
            (argument, pos + 1 + memory_argument_encoding(argument, natural).len()),
        ),
{
    lemma_opcode_then(input, pos, opcode, memory_argument_encoding(argument, natural));
    lemma_indices_read_back(
        input,
        pos + 1,
        argument.offset,
        argument.resolved_align(natural),
        strict,
    );
}

proof fn lemma_memory_reads_back(
    input: Seq<u8>,
    pos: int,
    memory: MemoryInstruction,
    options: DecodeOptions,
    depth: nat,
)
    requires
        memory_explicit(memory),
        occurs_at(input, pos, memory_encoding(memory)),
    ensures
        reads_back(input, pos, InstructionView::Memory(memory), options, depth),
{
    let strict = options.strict;
    let encoding = memory_encoding(memory);
    match memory {
        MemoryInstruction::Load(_, argument) => {
            lemma_memory_access_reads_back(
                input,
                pos,
                encoding[0],
                argument,
                crate::encoding::natural_align(memory->Load_0),
                strict,
            );
        },
        MemoryInstruction::Store(_, argument) => {
            lemma_memory_access_reads_back(
                input,
                pos,
                encoding[0],
                argument,
                crate::encoding::natural_align(memory->Store_0),
                strict,
            );
        },
        MemoryInstruction::Load8(_, _, argument) => {
            lemma_memory_access_reads_back(input, pos, encoding[0], argument, 0, strict);
        },
        MemoryInstruction::Load16(_, _, argument) => {
            lemma_memory_access_reads_back(input, pos, encoding[0], argument, 1, strict);
        },
        MemoryInstruction::Load32(_, argument) => {
            lemma_memory_access_reads_back(input, pos, encoding[0], argument, 2, strict);
        },
        MemoryInstruction::Store8(_, argument) => {
            lemma_memory_access_reads_back(input, pos, encoding[0], argument, 0, strict);
        },
        MemoryInstruction::Store16(_, argument) => {
            lemma_memory_access_reads_back(input, pos, encoding[0], argument, 1, strict);
        },
        MemoryInstruction::Store32(argument) => {
            lemma_memory_access_reads_back(input, pos, encoding[0], argument, 2, strict);
        },
        MemoryInstruction::Size => {
            lemma_opcode_then(input, pos, 0x3F, seq![0x00u8]);
            lemma_zero_read(input, pos + 1);
        },
        MemoryInstruction::Grow => {
            lemma_opcode_then(input, pos, 0x40, seq![0x00u8]);
            lemma_zero_read(input, pos + 1);
        },
        MemoryInstruction::Init(data) => {
            lemma_occurs_split(
                input,
                pos,
                prefixed(8) + unsigned_encoding(data as nat),
                seq![0x00u8],
            );
            lemma_prefixed_index_reads_back(input, pos, 8, data, strict);
            lemma_zero_read(input, pos + 2 + unsigned_encoding(data as nat).len());
        },
        MemoryInstruction::DataDrop(data) => {
            lemma_prefixed_index_reads_back(input, pos, 9, data, strict);
        },
        MemoryInstruction::Copy => {
            lemma_occurs_split(input, pos, prefixed(10), seq![0x00u8, 0x00u8]);
            lemma_prefixed_reads_back(input, pos, 10, strict);
            assert(input[pos + 2 + 0] == seq![0x00u8, 0x00u8][0]);
            assert(input[pos + 2 + 1] == seq![0x00u8, 0x00u8][1]);
            assert(zeros_decoding(input, pos + 4, 0) == Ok::<int, CodecError>(pos + 4));
            assert(zeros_decoding(input, pos + 3, 1) == Ok::<int, CodecError>(pos + 4));
        },
        MemoryInstruction::Fill => {
            lemma_occurs_split(input, pos, prefixed(11), seq![0x00u8]);
            lemma_prefixed_reads_back(input, pos, 11, strict);
            lemma_zero_read(input, pos + 2);
        },
    }
}

/// A block type is read back.
pub proof fn lemma_block_type_round_trip(input: Seq<u8>, pos: int, kind: BlockType, strict: bool)
    requires
        occurs_at(input, pos, block_type_encoding(kind)),
    ensures
        block_type_decoding(input, pos, strict) == Ok::<(BlockType, int), CodecError>(
            (kind, pos + block_type_encoding(kind).len()),
        ),
        block_type_encoding(kind).len() > 0,
{
    let encoding = block_type_encoding(kind);
    match kind {
        BlockType::Empty => {
            assert(input[pos + 0] == encoding[0]);
        },
        BlockType::ValueType(value) => {
            assert(input[pos + 0] == encoding[0]);
        },
        BlockType::Index(index) => {
            lemma2_to64();
            lemma2_to64_rest();
            assert(input[pos + 0] == encoding[0]);
            lemma_signed_round_trip(input, pos, index as int, 33, strict);
        },
    }
}

/// The encoding of an instruction with a binary form is not empty, and
/// its first byte is neither marker.
pub proof fn lemma_first_byte(instruction: InstructionView)
    requires
        crate::encoding::instruction_encodable(instruction),
    ensures
        instruction_encoding(instruction).len() > 0,
        instruction_encoding(instruction)[0] != END,
        instruction_encoding(instruction)[0] != ELSE,
{
    match instruction {
        InstructionView::Numeric(numeric) => {
            lemma_numeric_opcode_range(numeric);
        },
        InstructionView::Reference(reference) => {},
        InstructionView::Parametric(parametric) => {},
        InstructionView::Variable(variable) => {},
        InstructionView::Table(table) => {},
        InstructionView::Memory(memory) => {},
        InstructionView::Control(control) => {},
    }
}

/// How reading stops at position `end`.
pub open spec fn stop_at(input: Seq<u8>, end: int) -> Stop {
    if end >= input.len() {
        Stop::Exhausted
    } else if input[end] == END {
        Stop::End
    } else {
        Stop::Else
    }
}

/// An admissible instruction has a binary form.
pub proof fn lemma_admissible_is_encodable(
    instruction: InstructionView,
    options: DecodeOptions,
    depth: nat,
)
    requires
        instruction_admissible(instruction, options, depth),
    ensures
        crate::encoding::instruction_encodable(instruction),
    decreases instruction,
{
    match instruction {
        InstructionView::Control(ControlView::Block(_, body)) => {
            lemma_admissible_sequence_is_encodable(body, 0, options, (depth - 1) as nat);
        },
        InstructionView::Control(ControlView::Loop(_, body)) => {
            lemma_admissible_sequence_is_encodable(body, 0, options, (depth - 1) as nat);
        },
        InstructionView::Control(ControlView::If(_, body, None)) => {
            lemma_admissible_sequence_is_encodable(body, 0, options, (depth - 1) as nat);
        },
        InstructionView::Control(ControlView::If(_, body, Some(alternate))) => {
            lemma_admissible_sequence_is_encodable(body, 0, options, (depth - 1) as nat);
            lemma_admissible_sequence_is_encodable(alternate, 0, options, (depth - 1) as nat);
        },
        _ => {},
    }
}

/// A sequence of admissible instructions has a binary form.
pub proof fn lemma_admissible_sequence_is_encodable(
    instructions: Seq<InstructionView>,
    from: nat,
    options: DecodeOptions,
    depth: nat,
)
    requires
        sequence_admissible(instructions, from, options, depth),
    ensures
        crate::encoding::sequence_encodable(instructions, from),
    decreases instructions, instructions.len() - from,
{
    if from < instructions.len() {
        lemma_admissible_is_encodable(instructions[from as int], options, depth);
        lemma_admissible_sequence_is_encodable(instructions, from + 1, options, depth);
    }
}

/// Round trip for instructions: where the encoding of an admissible
/// instruction stands in the input, reading an instruction there gives back
/// the same instruction and the position behind the encoding. Nested
/// blocks, loops and conditionals with or without an alternate come back
/// with their nesting.
pub proof fn lemma_instruction_round_trip(
    input: Seq<u8>,
    pos: int,
    instruction: InstructionView,
    options: DecodeOptions,
    depth: nat,
)
    requires
        instruction_admissible(instruction, options, depth),
        occurs_at(input, pos, instruction_encoding(instruction)),
    ensures
        reads_back(input, pos, instruction, options, depth),
    decreases instruction,
{
    match instruction {
        InstructionView::Numeric(numeric) => {
            lemma_numeric_reads_back(input, pos, numeric, options, depth);
        },
        InstructionView::Reference(reference) => {
            lemma_reference_reads_back(input, pos, reference, options, depth);
        },
        InstructionView::Parametric(parametric) => {
            lemma_parametric_reads_back(input, pos, parametric, options, depth);
        },
        InstructionView::Variable(variable) => {
            lemma_variable_reads_back(input, pos, variable, options, depth);
        },
        InstructionView::Table(table) => {
            lemma_table_reads_back(input, pos, table, options, depth);
        },
        InstructionView::Memory(memory) => {
            lemma_memory_reads_back(input, pos, memory, options, depth);
        },
        InstructionView::Control(control) => {
            lemma_control_reads_back(input, pos, control, options, depth);
        },
    }
}

proof fn lemma_control_reads_back(
    input: Seq<u8>,
    pos: int,
    control: ControlView,
    options: DecodeOptions,
    depth: nat,
)
    requires
        control_admissible(control, options, depth),
        occurs_at(input, pos, control_encoding(control)),
    ensures
        reads_back(input, pos, InstructionView::Control(control), options, depth),
    decreases control,
{
    let strict = options.strict;
    let encoding = control_encoding(control);
    match control {
        ControlView::Unreachable => {
            assert(input[pos + 0] == encoding[0]);
        },
        ControlView::Nop => {
            assert(input[pos + 0] == encoding[0]);
        },
        ControlView::Return => {
            assert(input[pos + 0] == encoding[0]);
        },
        ControlView::Branch(label) => {
            lemma_opcode_then(input, pos, 0x0C, unsigned_encoding(label as nat));
            lemma_index_reads_back(input, pos + 1, label, strict);
        },
        ControlView::BranchIf(label) => {
            lemma_opcode_then(input, pos, 0x0D, unsigned_encoding(label as nat));
            lemma_index_reads_back(input, pos + 1, label, strict);
        },
        ControlView::Call(function) => {
            lemma_opcode_then(input, pos, 0x10, unsigned_encoding(function as nat));
            lemma_index_reads_back(input, pos + 1, function, strict);
        },
        ControlView::CallIndirect(kind, table) => {
            lemma_occurs_split(
                input,
                pos,
                seq![0x11u8] + unsigned_encoding(kind as nat),
                unsigned_encoding(table as nat),
            );
            lemma_opcode_then(input, pos, 0x11, unsigned_encoding(kind as nat));
            lemma_index_reads_back(input, pos + 1, kind, strict);
            lemma_index_reads_back(
                input,
                pos + 1 + unsigned_encoding(kind as nat).len(),
                table,
                strict,
            );
        },
        ControlView::BranchTable(labels, otherwise) => {
            lemma_occurs_split(
                input,
                pos,
                seq![0x0Eu8] + vector_encoding(labels),
                unsigned_encoding(otherwise as nat),
            );
            lemma_opcode_then(input, pos, 0x0E, vector_encoding(labels));
            lemma_vector_round_trip::<u32>(
                input,
                pos + 1,
                labels,
                options.max_vector_length as nat,
                strict,
            );
            lemma_index_reads_back(
                input,
                pos + 1 + vector_encoding(labels).len(),
                otherwise,
                strict,
            );
        },
        ControlView::Block(kind, body) => {
            lemma_bracket_reads_back(input, pos, 0x02, kind, body, options, depth);
            assert(body.skip(0) =~= body);
        },
        ControlView::Loop(kind, body) => {
            lemma_bracket_reads_back(input, pos, 0x03, kind, body, options, depth);
            assert(body.skip(0) =~= body);
        },
        ControlView::If(kind, body, None) => {
            lemma_bracket_reads_back(input, pos, 0x04, kind, body, options, depth);
            assert(body.skip(0) =~= body);
        },
        ControlView::If(kind, body, Some(alternate)) => {
            let head = seq![0x04u8] + block_type_encoding(kind);
            let first = sequence_encoding(body, 0);
            let second = sequence_encoding(alternate, 0);
            lemma_occurs_split(input, pos, head + first + seq![ELSE] + second, seq![END]);
            lemma_occurs_split(input, pos, head + first + seq![ELSE], second);
            lemma_occurs_split(input, pos, head + first, seq![ELSE]);
            lemma_occurs_split(input, pos, head, first);
            lemma_opcode_then(input, pos, 0x04, block_type_encoding(kind));
            lemma_block_type_round_trip(input, pos + 1, kind, strict);
            let at = pos + head.len();
            let middle = at + first.len();
            let end = middle + 1 + second.len();
            assert(input[middle + 0] == seq![ELSE][0]);
            assert(input[end + 0] == seq![END][0]);
            lemma_sequence_round_trip(input, at, body, 0, options, (depth - 1) as nat);
            lemma_sequence_round_trip(input, middle + 1, alternate, 0, options, (depth - 1) as nat);
            assert(body.skip(0) =~= body);
            assert(alternate.skip(0) =~= alternate);
        },
    }
}

/// A structured instruction without an alternate: its opcode, its block
/// type, its body and the end marker are read as the body in its bracket.
proof fn lemma_bracket_reads_back(
    input: Seq<u8>,
    pos: int,
    opcode: u8,
    kind: BlockType,
    body: Seq<InstructionView>,
    options: DecodeOptions,
    depth: nat,
)
    requires
        opcode == 0x02 || opcode == 0x03 || opcode == 0x04,
        depth > 0,
        sequence_admissible(body, 0, options, (depth - 1) as nat),
        occurs_at(
            input,
            pos,
            seq![opcode] + block_type_encoding(kind) + sequence_encoding(body, 0) + seq![END],
        ),
    ensures
        instruction_decoding(input, pos, options, depth) == Ok::<(InstructionView, int), CodecError>(
            (
                structured(opcode, kind, body.skip(0), None),
                pos + (seq![opcode] + block_type_encoding(kind) + sequence_encoding(body, 0)
                    + seq![END]).len(),
            ),
        ),
    decreases body, body.len() + 1,
{
    let head = seq![opcode] + block_type_encoding(kind);
    let first = sequence_encoding(body, 0);
    lemma_occurs_split(input, pos, head + first, seq![END]);
    lemma_occurs_split(input, pos, head, first);
    lemma_opcode_then(input, pos, opcode, block_type_encoding(kind));
    lemma_block_type_round_trip(input, pos + 1, kind, options.strict);
    let at = pos + head.len();
    let end = at + first.len();
    assert(input[end + 0] == seq![END][0]);
    lemma_sequence_round_trip(input, at, body, 0, options, (depth - 1) as nat);
}

/// Round trip for instruction sequences: where the encodings of admissible
/// instructions stand one behind the other, up to a marker or to the end of
/// the input, reading a sequence gives back the instructions in order, says
/// what stopped it, and ends behind the marker.
pub proof fn lemma_sequence_round_trip(
    input: Seq<u8>,
    pos: int,
    instructions: Seq<InstructionView>,
    from: nat,
    options: DecodeOptions,
    depth: nat,
)
    requires
        from <= instructions.len(),
        sequence_admissible(instructions, from, options, depth),
        occurs_at(input, pos, sequence_encoding(instructions, from)),
        ({
            let end = pos + sequence_encoding(instructions, from).len();
            end == input.len() || input[end] == END || input[end] == ELSE
        }),
    ensures
        ({
            let end = pos + sequence_encoding(instructions, from).len();
            sequence_decoding(input, pos, options, depth) == Ok::<
                (Seq<InstructionView>, Stop, int),
                CodecError,
            >(
                (
                    instructions.skip(from as int),
                    stop_at(input, end),
                    if end >= input.len() {
                        end
                    } else {
                        end + 1
                    },
                ),
            )
        }),
    decreases instructions, instructions.len() - from,
{
    if from >= instructions.len() {
        assert(instructions.skip(from as int) =~= Seq::<InstructionView>::empty());
    } else {
        let first = instructions[from as int];
        let head = instruction_encoding(first);
        let tail = sequence_encoding(instructions, from + 1);
        lemma_admissible_is_encodable(first, options, depth);
        lemma_first_byte(first);
        lemma_occurs_split(input, pos, head, tail);
        assert(input[pos + 0] == head[0]);
        lemma_instruction_round_trip(input, pos, first, options, depth);
        lemma_sequence_round_trip(input, pos + head.len(), instructions, from + 1, options, depth);
        assert(seq![first] + instructions.skip(from as int + 1) =~= instructions.skip(from as int));
    }
}

/// Round trip for expressions: where the encoding of an expression of
/// admissible instructions is the rest of the input, reading an expression
/// gives back the same instructions in order. The empty expression, which
/// is no bytes at all, comes back as the empty expression.
pub proof fn lemma_expression_round_trip(
    input: Seq<u8>,
    pos: int,
    instructions: Seq<InstructionView>,
    options: DecodeOptions,
)
    requires
        sequence_admissible(instructions, 0, options, options.max_nesting_depth as nat),
        occurs_at(input, pos, expression_encoding(instructions)),
        pos + expression_encoding(instructions).len() == input.len(),
    ensures
        expression_decoding(input, pos, options) == Ok::<(Seq<InstructionView>, int), CodecError>(
            (instructions, input.len() as int),
        ),
{
    lemma_sequence_round_trip(
        input,
        pos,
        instructions,
        0,
        options,
        options.max_nesting_depth as nat,
    );
    assert(instructions.skip(0) =~= instructions);
}

/// The empty expression is no bytes at all.
pub proof fn lemma_empty_expression_is_empty()
    ensures
        expression_encoding(Seq::<InstructionView>::empty()) == Seq::<u8>::empty(),
        crate::encoding::expression_encodable(Seq::<InstructionView>::empty()),
{
}

/// Where the input has ended, no value is read: every reader of a value
/// ends in `UnexpectedEndOfInput`, and none makes up a value.
pub proof fn lemma_nothing_to_read(input: Seq<u8>, pos: int, options: DecodeOptions, depth: nat)
    requires
        pos >= input.len(),
    ensures
        crate::values::byte_decoding(input, pos) == Err::<(u8, int), CodecError>(
            CodecError::UnexpectedEndOfInput,
        ),
        forall|bits: nat| #[trigger]
            unsigned_decoding(input, pos, bits, options.strict) == Err::<(nat, int), CodecError>(
                CodecError::UnexpectedEndOfInput,
            ),
        forall|bits: nat| #[trigger]
            crate::leb128::signed_decoding(input, pos, bits, options.strict) == Err::<
                (int, int),
                CodecError,
            >(CodecError::UnexpectedEndOfInput),
        crate::values::f32_decoding(input, pos) == Err::<(u32, int), CodecError>(
            CodecError::UnexpectedEndOfInput,
        ),
        crate::values::f64_decoding(input, pos) == Err::<(u64, int), CodecError>(
            CodecError::UnexpectedEndOfInput,
        ),
        forall|max_length: nat| #[trigger]
            crate::values::bytes_decoding(input, pos, max_length, options.strict) == Err::<
                (Seq<u8>, int),
                CodecError,
            >(CodecError::UnexpectedEndOfInput),
        forall|max_length: nat| #[trigger]
            crate::values::vector_decoding::<u32>(input, pos, max_length, options.strict) == Err::<
                (Seq<u32>, int),
                CodecError,
            >(CodecError::UnexpectedEndOfInput),
        block_type_decoding(input, pos, options.strict) == Err::<(BlockType, int), CodecError>(
            CodecError::UnexpectedEndOfInput,
        ),
        instruction_decoding(input, pos, options, depth) == Err::<(InstructionView, int), CodecError>(
            CodecError::UnexpectedEndOfInput,
        ),
{
}

/// A structured instruction whose end marker is missing: where the input
/// ends behind the body of a block, a loop or a conditional, reading the
/// instruction ends in `UnexpectedEndOfInput`.
pub proof fn lemma_missing_end_marker(
    input: Seq<u8>,
    pos: int,
    opcode: u8,
    kind: BlockType,
    body: Seq<InstructionView>,
    options: DecodeOptions,
    depth: nat,
)
    requires
        opcode == 0x02 || opcode == 0x03 || opcode == 0x04,
        depth > 0,
        sequence_admissible(body, 0, options, (depth - 1) as nat),
        occurs_at(input, pos, seq![opcode] + block_type_encoding(kind) + sequence_encoding(body, 0)),
        pos + (seq![opcode] + block_type_encoding(kind) + sequence_encoding(body, 0)).len()
            == input.len(),
    ensures
        instruction_decoding(input, pos, options, depth) == Err::<(InstructionView, int), CodecError>(
            CodecError::UnexpectedEndOfInput,
        ),
{
    let head = seq![opcode] + block_type_encoding(kind);
    lemma_occurs_split(input, pos, head, sequence_encoding(body, 0));
    lemma_opcode_then(input, pos, opcode, block_type_encoding(kind));
    lemma_block_type_round_trip(input, pos + 1, kind, options.strict);
    lemma_sequence_round_trip(input, pos + head.len(), body, 0, options, (depth - 1) as nat);
}

/// Reading gave `instruction`, which is admissible, from exactly the bytes
/// of its encoding.
pub open spec fn read_from_encoding(
    input: Seq<u8>,
    pos: int,
    found: (InstructionView, int),
    options: DecodeOptions,
    depth: nat,
) -> bool {
    &&& instruction_admissible(found.0, options, depth)
    &&& occurs_at(input, pos, instruction_encoding(found.0))
    &&& found.1 == pos + instruction_encoding(found.0).len()
}

proof fn lemma_index_canonical(input: Seq<u8>, pos: int)
    requires
        index_decoding(input, pos, true) is Ok,
    ensures
        ({
            let (index, next) = index_decoding(input, pos, true)->Ok_0;
            &&& occurs_at(input, pos, unsigned_encoding(index as nat))
            &&& next == pos + unsigned_encoding(index as nat).len()
            &&& next > pos
        }),
{
    lemma2_to64();
    lemma_unsigned_strict_occurs(input, pos, 32);
}

proof fn lemma_behind_opcode(input: Seq<u8>, pos: int, rest: Seq<u8>)
    requires
        0 <= pos < input.len(),
        occurs_at(input, pos + 1, rest),
    ensures
        occurs_at(input, pos, seq![input[pos]] + rest),
{
    assert(occurs_at(input, pos, seq![input[pos]]));
    lemma_occurs_join(input, pos, seq![input[pos]], rest);
}

proof fn lemma_indexed_canonical(input: Seq<u8>, pos: int)
    requires
        0 <= pos < input.len(),
        index_decoding(input, pos + 1, true) is Ok,
    ensures
        ({
            let (index, next) = index_decoding(input, pos + 1, true)->Ok_0;
            &&& occurs_at(input, pos, seq![input[pos]] + unsigned_encoding(index as nat))
            &&& next == pos + 1 + unsigned_encoding(index as nat).len()
        }),
{
    lemma_index_canonical(input, pos + 1);
    let (index, _) = index_decoding(input, pos + 1, true)->Ok_0;
    lemma_behind_opcode(input, pos, unsigned_encoding(index as nat));
}

proof fn lemma_zeros_canonical(input: Seq<u8>, pos: int, count: nat)
    requires
        count <= 2,
        0 <= pos,
        zeros_decoding(input, pos, count) is Ok,
    ensures
        zeros_decoding(input, pos, count)->Ok_0 == pos + count,
        count == 1 ==> occurs_at(input, pos, seq![0x00u8]),
        count == 2 ==> occurs_at(input, pos, seq![0x00u8, 0x00u8]),
    decreases count,
{
    if count > 0 {
        lemma_zeros_canonical(input, pos + 1, (count - 1) as nat);
    }
}

proof fn lemma_prefixed_canonical(input: Seq<u8>, pos: int, options: DecodeOptions, depth: nat)
    requires
        options.strict,
        0 <= pos < input.len(),
        input[pos] == PREFIX,
        prefixed_decoding(input, pos + 1, true) is Ok,
    ensures
        read_from_encoding(input, pos, prefixed_decoding(input, pos + 1, true)->Ok_0, options, depth),
{
    lemma2_to64();
    lemma_unsigned_strict_occurs(input, pos + 1, 32);
    let (code, at) = unsigned_decoding(input, pos + 1, 32, true)->Ok_0;
    lemma_behind_opcode(input, pos, unsigned_encoding(code));
    let head = prefixed(code);
    if code < 8 {
        lemma_saturating_of_code_sound(code);
    } else if code == 10 {
        lemma_zeros_canonical(input, at, 2);
        lemma_occurs_join(input, pos, head, seq![0x00u8, 0x00u8]);
    } else if code == 11 {
        lemma_zeros_canonical(input, at, 1);
        lemma_occurs_join(input, pos, head, seq![0x00u8]);
    } else if code == 12 || code == 14 {
        lemma_index_canonical(input, at);
        let (first, middle) = index_decoding(input, at, true)->Ok_0;
        lemma_index_canonical(input, middle);
        let (second, _) = index_decoding(input, middle, true)->Ok_0;
        lemma_occurs_join(input, pos, head, unsigned_encoding(first as nat));
        lemma_occurs_join(
            input,
            pos,
            head + unsigned_encoding(first as nat),
            unsigned_encoding(second as nat),
        );
    } else {
        lemma_index_canonical(input, at);
        let (index, middle) = index_decoding(input, at, true)->Ok_0;
        lemma_occurs_join(input, pos, head, unsigned_encoding(index as nat));
        if code == 8 {
            lemma_zeros_canonical(input, middle, 1);
            lemma_occurs_join(
                input,
                pos,
                head + unsigned_encoding(index as nat),
                seq![0x00u8],
            );
        }
    }
}

proof fn lemma_memory_access_canonical(
    input: Seq<u8>,
    pos: int,
    options: DecodeOptions,
    depth: nat,
)
    requires
        options.strict,
        0 <= pos < input.len(),
        0x28 <= input[pos] <= 0x3E,
        plain_decoding(input, input[pos], pos + 1, options) is Ok,
    ensures
        read_from_encoding(
            input,
            pos,
            plain_decoding(input, input[pos], pos + 1, options)->Ok_0,
            options,
            depth,
        ),
{
    let at = pos + 1;
    lemma_index_canonical(input, at);
    let (offset, middle) = index_decoding(input, at, true)->Ok_0;
    lemma_index_canonical(input, middle);
    let (align, _) = index_decoding(input, middle, true)->Ok_0;
    let argument = MemoryArgument { offset, align: Some(align) };
    let memory = memory_access_of(input[pos], argument)->Some_0;
    lemma_occurs_join(
        input,
        at,
        unsigned_encoding(offset as nat),
        unsigned_encoding(align as nat),
    );
    assert(memory_encoding(memory) == seq![input[pos]] + (unsigned_encoding(offset as nat)
        + unsigned_encoding(align as nat)));
    lemma_behind_opcode(
        input,
        pos,
        unsigned_encoding(offset as nat) + unsigned_encoding(align as nat),
    );
}

proof fn lemma_constant_canonical(input: Seq<u8>, pos: int, options: DecodeOptions, depth: nat)
    requires
        options.strict,
        0 <= pos < input.len(),
        0x41 <= input[pos] <= 0x44,
        plain_decoding(input, input[pos], pos + 1, options) is Ok,
    ensures
        read_from_encoding(
            input,
            pos,
            plain_decoding(input, input[pos], pos + 1, options)->Ok_0,
            options,
            depth,
        ),
{
    lemma2_to64();
    lemma2_to64_rest();
    let at = pos + 1;
    if input[pos] == 0x41 {
        lemma_signed_strict_occurs(input, at, 32);
        let (value, _) = signed_decoding(input, at, 32, true)->Ok_0;
        assert(signed32(pattern32(value)) == value);
        lemma_behind_opcode(input, pos, signed_encoding(value));
    } else if input[pos] == 0x42 {
        lemma_signed_strict_occurs(input, at, 64);
        let (value, _) = signed_decoding(input, at, 64, true)->Ok_0;
        assert(signed64(pattern64(value)) == value);
        lemma_behind_opcode(input, pos, signed_encoding(value));
    } else if input[pos] == 0x43 {
        lemma_f32_canonical(input, at);
        let (bits, _) = f32_decoding(input, at)->Ok_0;
        lemma_behind_opcode(input, pos, crate::values::f32_encoding(bits));
    } else {
        lemma_f64_canonical(input, at);
        let (bits, _) = f64_decoding(input, at)->Ok_0;
        lemma_behind_opcode(input, pos, crate::values::f64_encoding(bits));
    }
}

proof fn lemma_plain_canonical(input: Seq<u8>, pos: int, options: DecodeOptions, depth: nat)
    requires
        options.strict,
        0 <= pos < input.len(),
        plain_decoding(input, input[pos], pos + 1, options) is Ok,
    ensures
        read_from_encoding(
            input,
            pos,
            plain_decoding(input, input[pos], pos + 1, options)->Ok_0,
            options,
            depth,
        ),
{
    let opcode = input[pos];
    let at = pos + 1;
    let max = options.max_vector_length as nat;
    assert(occurs_at(input, pos, seq![opcode]));
    if opcode == 0x0C || opcode == 0x0D || opcode == 0x10 || (0x20 <= opcode <= 0x26) || opcode
        == 0xD2 {
        lemma_indexed_canonical(input, pos);
    } else if opcode == 0x0E {
        lemma_vector_canonical::<u32>(input, at, max);
        let (labels, middle) = vector_decoding::<u32>(input, at, max, true)->Ok_0;
        lemma_index_canonical(input, middle);
        let (otherwise, _) = index_decoding(input, middle, true)->Ok_0;
        lemma_behind_opcode(input, pos, vector_encoding(labels));
        lemma_occurs_join(
            input,
            pos,
            seq![opcode] + vector_encoding(labels),
            unsigned_encoding(otherwise as nat),
        );
    } else if opcode == 0x11 {
        lemma_indexed_canonical(input, pos);
        let (kind, middle) = index_decoding(input, at, true)->Ok_0;
        lemma_index_canonical(input, middle);
        let (table, _) = index_decoding(input, middle, true)->Ok_0;
        lemma_occurs_join(
            input,
            pos,
            seq![opcode] + unsigned_encoding(kind as nat),
            unsigned_encoding(table as nat),
        );
    } else if opcode == 0x1C {
        lemma_vector_canonical::<ValueType>(input, at, max);
        let (kinds, _) = vector_decoding::<ValueType>(input, at, max, true)->Ok_0;
        lemma_behind_opcode(input, pos, vector_encoding(kinds));
    } else if opcode == 0x3F || opcode == 0x40 {
        lemma_zeros_canonical(input, at, 1);
        lemma_behind_opcode(input, pos, seq![0x00u8]);
        assert(seq![opcode] + seq![0x00u8] =~= seq![opcode, 0x00u8]);
    } else if 0x41 <= opcode <= 0x44 {
        lemma_constant_canonical(input, pos, options, depth);
    } else if opcode == 0xD0 {
        let kind = crate::types::reference_type_of(input[at])->Some_0;
        assert(occurs_at(input, at, seq![input[at]]));
        lemma_behind_opcode(input, pos, seq![input[at]]);
        assert(seq![opcode] + seq![input[at]] =~= seq![opcode, input[at]]);
    } else if opcode == PREFIX {
        lemma_prefixed_canonical(input, pos, options, depth);
    } else if 0x28 <= opcode <= 0x3E {
        lemma_memory_access_canonical(input, pos, options, depth);
    } else if opcode == 0x00 || opcode == 0x01 || opcode == 0x0F || opcode == 0x1A || opcode == 0x1B
        || opcode == 0xD1 {
    } else {
        lemma_numeric_of_opcode_sound(opcode);
        let numeric = numeric_of_opcode(opcode)->Some_0;
        assert(numeric_encoding(numeric) == seq![opcode]);
    }
}

/// What strict reading accepts as a block type is the encoding of the block
/// type that it yields.
pub proof fn lemma_block_type_canonical(input: Seq<u8>, pos: int)
    requires
        block_type_decoding(input, pos, true) is Ok,
    ensures
        ({
            let (kind, next) = block_type_decoding(input, pos, true)->Ok_0;
            &&& occurs_at(input, pos, block_type_encoding(kind))
            &&& next == pos + block_type_encoding(kind).len()
            &&& next > pos
        }),
{
    lemma2_to64();
    lemma2_to64_rest();
    if input[pos] != 0x40 && crate::types::value_type_of(input[pos]) is None {
        lemma_signed_strict_occurs(input, pos, 33);
    }
}

/// The encoding of a sequence behind its first instruction is the encoding
/// of the rest, and likewise for admissibility.
proof fn lemma_sequence_shift(
    first: InstructionView,
    rest: Seq<InstructionView>,
    from: nat,
    options: DecodeOptions,
    depth: nat,
)
    requires
        from <= rest.len(),
    ensures
        sequence_encoding(seq![first] + rest, from + 1) == sequence_encoding(rest, from),
        sequence_admissible(seq![first] + rest, from + 1, options, depth) == sequence_admissible(
            rest,
            from,
            options,
            depth,
        ),
    decreases rest.len() - from,
{
    let whole = seq![first] + rest;
    if from < rest.len() {
        assert(whole[from as int + 1] == rest[from as int]);
        lemma_sequence_shift(first, rest, from + 1, options, depth);
    }
}

/// Strict reading accepts nothing but encodings: whatever is read as an
/// instruction in strict mode is admissible and was read from exactly the
/// bytes of its encoding. With the round trip this makes the encoding the
/// one byte form of an instruction that strict reading accepts.
pub proof fn lemma_instruction_strict_canonical(
    input: Seq<u8>,
    pos: int,
    options: DecodeOptions,
    depth: nat,
)
    requires
        options.strict,
        instruction_decoding(input, pos, options, depth) is Ok,
    ensures
        read_from_encoding(
            input,
            pos,
            instruction_decoding(input, pos, options, depth)->Ok_0,
            options,
            depth,
        ),
    decreases depth, input.len() - pos, 0nat,
{
    let opcode = input[pos];
    if opcode == 0x02 || opcode == 0x03 || opcode == 0x04 {
        let below = (depth - 1) as nat;
        lemma_block_type_canonical(input, pos + 1);
        let (kind, at) = block_type_decoding(input, pos + 1, true)->Ok_0;
        lemma_sequence_strict_canonical(input, at, options, below);
        let (body, stop, middle) = sequence_decoding(input, at, options, below)->Ok_0;
        let head = seq![opcode] + block_type_encoding(kind);
        lemma_behind_opcode(input, pos, block_type_encoding(kind));
        lemma_occurs_join(input, pos, head, sequence_encoding(body, 0));
        if stop == Stop::End {
            assert(occurs_at(input, middle - 1, seq![END]));
            lemma_occurs_join(input, pos, head + sequence_encoding(body, 0), seq![END]);
        } else {
            lemma_sequence_strict_canonical(input, middle, options, below);
            let (alternate, _, next) = sequence_decoding(input, middle, options, below)->Ok_0;
            assert(occurs_at(input, middle - 1, seq![ELSE]));
            assert(occurs_at(input, next - 1, seq![END]));
            lemma_occurs_join(input, pos, head + sequence_encoding(body, 0), seq![ELSE]);
            lemma_occurs_join(
                input,
                pos,
                head + sequence_encoding(body, 0) + seq![ELSE],
                sequence_encoding(alternate, 0),
            );
            lemma_occurs_join(
                input,
                pos,
                head + sequence_encoding(body, 0) + seq![ELSE] + sequence_encoding(alternate, 0),
                seq![END],
            );
        }
    } else {
        lemma_plain_canonical(input, pos, options, depth);
    }
}

/// Strict reading of a sequence: the instructions read are admissible and
/// were read from exactly the bytes of their encoding, behind which the
/// marker stands that stopped the reading, or the input ends.
pub proof fn lemma_sequence_strict_canonical(
    input: Seq<u8>,
    pos: int,
    options: DecodeOptions,
    depth: nat,
)
    requires
        options.strict,
        0 <= pos,
        sequence_decoding(input, pos, options, depth) is Ok,
    ensures
        ({
            let (instructions, stop, next) = sequence_decoding(input, pos, options, depth)->Ok_0;
            let end = pos + sequence_encoding(instructions, 0).len();
            &&& sequence_admissible(instructions, 0, options, depth)
            &&& pos <= input.len() ==> occurs_at(input, pos, sequence_encoding(instructions, 0))
            &&& stop == Stop::Exhausted ==> next == end && end >= input.len()
            &&& stop == Stop::End ==> next == end + 1 && end < input.len() && input[end] == END
            &&& stop == Stop::Else ==> next == end + 1 && end < input.len() && input[end] == ELSE
        }),
    decreases depth, input.len() - pos, 1nat,
{
    if pos < input.len() && input[pos] != END && input[pos] != ELSE {
        lemma_instruction_strict_canonical(input, pos, options, depth);
        let (first, middle) = instruction_decoding(input, pos, options, depth)->Ok_0;
        lemma_sequence_strict_canonical(input, middle, options, depth);
        let (rest, _, _) = sequence_decoding(input, middle, options, depth)->Ok_0;
        let whole = seq![first] + rest;
        lemma_sequence_shift(first, rest, 0, options, depth);
        assert(whole[0] == first);
        lemma_occurs_join(input, pos, instruction_encoding(first), sequence_encoding(rest, 0));
    }
}

/// Strict reading of a bare expression: the instructions read are
/// admissible, and the input from `pos` to its end is their encoding.
pub proof fn lemma_expression_strict_canonical(input: Seq<u8>, pos: int, options: DecodeOptions)
    requires
        options.strict,
        0 <= pos <= input.len(),
        expression_decoding(input, pos, options) is Ok,
    ensures
        ({
            let (instructions, next) = expression_decoding(input, pos, options)->Ok_0;
            &&& sequence_admissible(instructions, 0, options, options.max_nesting_depth as nat)
            &&& occurs_at(input, pos, expression_encoding(instructions))
            &&& next == input.len()
            &&& next == pos + expression_encoding(instructions).len()
        }),
{
    lemma_sequence_strict_canonical(input, pos, options, options.max_nesting_depth as nat);
}

/// The load or store with its alignment named: an alignment that was left
/// out becomes the natural one of the access.
pub open spec fn memory_with_alignment(instruction: MemoryInstruction) -> MemoryInstruction {
    match instruction {
        MemoryInstruction::Load(kind, argument) => MemoryInstruction::Load(
            kind,
            named(argument, crate::encoding::natural_align(kind)),
        ),
        MemoryInstruction::Store(kind, argument) => MemoryInstruction::Store(
            kind,
            named(argument, crate::encoding::natural_align(kind)),
        ),
        MemoryInstruction::Load8(kind, sign, argument) => MemoryInstruction::Load8(
            kind,
            sign,
            named(argument, 0),
        ),
        MemoryInstruction::Load16(kind, sign, argument) => MemoryInstruction::Load16(
            kind,
            sign,
            named(argument, 1),
        ),
        MemoryInstruction::Load32(sign, argument) => MemoryInstruction::Load32(
            sign,
            named(argument, 2),
        ),
        MemoryInstruction::Store8(kind, argument) => MemoryInstruction::Store8(
            kind,
            named(argument, 0),
        ),
        MemoryInstruction::Store16(kind, argument) => MemoryInstruction::Store16(
            kind,
            named(argument, 1),
        ),
        MemoryInstruction::Store32(argument) => MemoryInstruction::Store32(named(argument, 2)),
        _ => instruction,
    }
}

/// The memory argument with its alignment named.
pub open spec fn named(argument: MemoryArgument, natural: u32) -> MemoryArgument {
    MemoryArgument { offset: argument.offset, align: Some(argument.resolved_align(natural)) }
}

/// The instruction with the alignment of every load and store in it named.
pub open spec fn with_alignment(instruction: InstructionView) -> InstructionView
    decreases instruction,
{
    match instruction {
        InstructionView::Memory(memory) => InstructionView::Memory(memory_with_alignment(memory)),
        InstructionView::Control(ControlView::Block(kind, body)) => InstructionView::Control(
            ControlView::Block(kind, sequence_with_alignment(body)),
        ),
        InstructionView::Control(ControlView::Loop(kind, body)) => InstructionView::Control(
            ControlView::Loop(kind, sequence_with_alignment(body)),
        ),
        InstructionView::Control(ControlView::If(kind, body, None)) => InstructionView::Control(
            ControlView::If(kind, sequence_with_alignment(body), None),
        ),
        InstructionView::Control(
            ControlView::If(kind, body, Some(alternate)),
        ) => InstructionView::Control(
            ControlView::If(
                kind,
                sequence_with_alignment(body),
                Some(sequence_with_alignment(alternate)),
            ),
        ),
        _ => instruction,
    }
}

/// The instructions of a sequence, each with its alignments named.
pub open spec fn sequence_with_alignment(instructions: Seq<InstructionView>) -> Seq<
    InstructionView,
>
    decreases instructions,
{
    Seq::new(
        instructions.len(),
        |k: int|
            if 0 <= k < instructions.len() {
                with_alignment(instructions[k])
            } else {
                arbitrary()
            },
    )
}

/// Naming the alignments changes no byte of the encoding.
pub proof fn lemma_alignment_named_same_bytes(instruction: InstructionView)
    ensures
        instruction_encoding(with_alignment(instruction)) == instruction_encoding(instruction),
    decreases instruction,
{
    match instruction {
        InstructionView::Control(ControlView::Block(kind, body)) => {
            lemma_sequence_alignment_named_same_bytes(body, 0);
        },
        InstructionView::Control(ControlView::Loop(kind, body)) => {
            lemma_sequence_alignment_named_same_bytes(body, 0);
        },
        InstructionView::Control(ControlView::If(kind, body, None)) => {
            lemma_sequence_alignment_named_same_bytes(body, 0);
        },
        InstructionView::Control(ControlView::If(kind, body, Some(alternate))) => {
            lemma_sequence_alignment_named_same_bytes(body, 0);
            lemma_sequence_alignment_named_same_bytes(alternate, 0);
        },
        _ => {},
    }
}

/// Naming the alignments changes no byte of the encoding of a sequence.
pub proof fn lemma_sequence_alignment_named_same_bytes(
    instructions: Seq<InstructionView>,
    from: nat,
)
    ensures
        sequence_encoding(sequence_with_alignment(instructions), from) == sequence_encoding(
            instructions,
            from,
        ),
    decreases instructions, instructions.len() - from,
{
    if from < instructions.len() {
        lemma_alignment_named_same_bytes(instructions[from as int]);
        lemma_sequence_alignment_named_same_bytes(instructions, from + 1);
    }
}

/// Round trip for every instruction: where the encoding of an instruction
/// stands, reading gives back that instruction with its alignments named,
/// provided that this one is admissible, that is, that the instruction has
/// a binary form within the limits. An instruction that names its
/// alignments comes back as it is.
pub proof fn lemma_instruction_round_trip_up_to_alignment(
    input: Seq<u8>,
    pos: int,
    instruction: InstructionView,
    options: DecodeOptions,
    depth: nat,
)
    requires
        instruction_admissible(with_alignment(instruction), options, depth),
        occurs_at(input, pos, instruction_encoding(instruction)),
    ensures
        instruction_decoding(input, pos, options, depth) == Ok::<(InstructionView, int), CodecError>(
            (with_alignment(instruction), pos + instruction_encoding(instruction).len()),
        ),
{
    lemma_alignment_named_same_bytes(instruction);
    lemma_instruction_round_trip(input, pos, with_alignment(instruction), options, depth);
}

/// Round trip for every expression: where the encoding of an expression is
/// the rest of the input, reading gives back its instructions with their
/// alignments named, provided that these are admissible.
pub proof fn lemma_expression_round_trip_up_to_alignment(
    input: Seq<u8>,
    pos: int,
    instructions: Seq<InstructionView>,
    options: DecodeOptions,
)
    requires
        sequence_admissible(
            sequence_with_alignment(instructions),
            0,
            options,
            options.max_nesting_depth as nat,
        ),
        occurs_at(input, pos, expression_encoding(instructions)),
        pos + expression_encoding(instructions).len() == input.len(),
    ensures
        expression_decoding(input, pos, options) == Ok::<(Seq<InstructionView>, int), CodecError>(
            (sequence_with_alignment(instructions), input.len() as int),
        ),
{
    lemma_sequence_alignment_named_same_bytes(instructions, 0);
    lemma_expression_round_trip(input, pos, sequence_with_alignment(instructions), options);
}

/// The encoding tells instructions apart: two admissible instructions with
/// the same bytes are the same instruction.
pub proof fn lemma_encoding_is_unambiguous(
    first: InstructionView,
    second: InstructionView,
    options: DecodeOptions,
    depth: nat,
)
    requires
        instruction_admissible(first, options, depth),
        instruction_admissible(second, options, depth),
        instruction_encoding(first) == instruction_encoding(second),
    ensures
        first == second,
{
    let input = instruction_encoding(first);
    assert(occurs_at(input, 0, input));
    lemma_instruction_round_trip(input, 0, first, options, depth);
    lemma_instruction_round_trip(input, 0, second, options, depth);
}

/// The same options, reading tolerantly.
pub open spec fn tolerant(options: DecodeOptions) -> DecodeOptions {
    DecodeOptions {
        strict: false,
        max_vector_length: options.max_vector_length,
        max_nesting_depth: options.max_nesting_depth,
    }
}

proof fn lemma_admissible_in_either_mode(
    instruction: InstructionView,
    options: DecodeOptions,
    depth: nat,
)
    ensures
        instruction_admissible(instruction, tolerant(options), depth) == instruction_admissible(
            instruction,
            options,
            depth,
        ),
    decreases instruction,
{
    match instruction {
        InstructionView::Control(ControlView::Block(_, body)) => {
            lemma_sequence_admissible_in_either_mode(body, 0, options, (depth - 1) as nat);
        },
        InstructionView::Control(ControlView::Loop(_, body)) => {
            lemma_sequence_admissible_in_either_mode(body, 0, options, (depth - 1) as nat);
        },
        InstructionView::Control(ControlView::If(_, body, None)) => {
            lemma_sequence_admissible_in_either_mode(body, 0, options, (depth - 1) as nat);
        },
        InstructionView::Control(ControlView::If(_, body, Some(alternate))) => {
            lemma_sequence_admissible_in_either_mode(body, 0, options, (depth - 1) as nat);
            lemma_sequence_admissible_in_either_mode(alternate, 0, options, (depth - 1) as nat);
        },
        _ => {},
    }
}

proof fn lemma_sequence_admissible_in_either_mode(
    instructions: Seq<InstructionView>,
    from: nat,
    options: DecodeOptions,
    depth: nat,
)
    ensures
        sequence_admissible(instructions, from, tolerant(options), depth) == sequence_admissible(
            instructions,
            from,
            options,
            depth,
        ),
    decreases instructions, instructions.len() - from,
{
    if from < instructions.len() {
        lemma_admissible_in_either_mode(instructions[from as int], options, depth);
        lemma_sequence_admissible_in_either_mode(instructions, from + 1, options, depth);
    }
}

/// Tolerant reading gives whatever strict reading gives: an input that
/// strict reading accepts is read tolerantly as the same instruction up to
/// the same position.
pub proof fn lemma_tolerant_agrees_with_strict(
    input: Seq<u8>,
    pos: int,
    options: DecodeOptions,
    depth: nat,
)
    requires
        options.strict,
        instruction_decoding(input, pos, options, depth) is Ok,
    ensures
        instruction_decoding(input, pos, tolerant(options), depth) == instruction_decoding(
            input,
            pos,
            options,
            depth,
        ),
{
    lemma_instruction_strict_canonical(input, pos, options, depth);
    let (instruction, _) = instruction_decoding(input, pos, options, depth)->Ok_0;
    lemma_admissible_in_either_mode(instruction, options, depth);
    lemma_instruction_round_trip(input, pos, instruction, tolerant(options), depth);
}

} // verus!
