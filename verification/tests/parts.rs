use wasm_ast::decode::{
    bits_of_i32, bits_of_i64, decode_index, decode_memory_argument, decode_plain, decode_prefixed,
    memory_access_from,
};
use wasm_ast::duplicate::{
    copy_of_control, copy_of_instruction, copy_of_instructions, copy_of_parametric,
};
use wasm_ast::emit::natural_alignment;
use wasm_ast::numeric::{
    code_of_saturating, numeric_from_opcode, opcode_of_numeric, saturating_from_code,
};
use wasm_ast::{
    decode_signed, decode_unsigned, emit_control, emit_instructions, emit_memory, emit_numeric,
    emit_parametric, emit_reference, emit_table, emit_variable, encode_signed, encode_unsigned,
    BlockType, Codec, CodecError, ControlInstruction, DecodeOptions, Expression, FloatType,
    Instruction, IntegerType, MemoryArgument, MemoryInstruction, NumberType, NumericInstruction,
    ParametricInstruction, ReferenceInstruction, ReferenceType, SignExtension, TableInstruction,
    ValueType, VariableInstruction,
};

#[test]
fn family_encoders() {
    let mut buffer = Vec::new();
    assert_eq!(emit_numeric(&NumericInstruction::Multiply(NumberType::I64), &mut buffer), Ok(1));
    assert_eq!(emit_reference(&ReferenceInstruction::Function(9), &mut buffer), Ok(2));
    assert_eq!(emit_parametric(&ParametricInstruction::Select(None), &mut buffer), Ok(1));
    assert_eq!(emit_variable(&VariableInstruction::GlobalGet(130), &mut buffer), Ok(3));
    assert_eq!(emit_table(&TableInstruction::Size(1), &mut buffer), Ok(3));
    assert_eq!(emit_memory(&MemoryInstruction::Grow, &mut buffer), Ok(2));
    assert_eq!(emit_control(&ControlInstruction::Return, &mut buffer), Ok(1));
    assert_eq!(
        buffer,
        vec![0x7E, 0xD2, 0x09, 0x1B, 0x23, 0x82, 0x01, 0xFC, 16, 0x01, 0x40, 0x00, 0x0F]
    );
    let instructions = vec![
        Instruction::Control(ControlInstruction::Nop),
        Instruction::Control(ControlInstruction::Unreachable),
    ];
    let mut more = Vec::new();
    assert_eq!(emit_instructions(&instructions, &mut more), Ok(2));
    assert_eq!(more, vec![0x01, 0x00]);
    assert_eq!(
        emit_numeric(
            &NumericInstruction::ReinterpretFloat(IntegerType::I64, FloatType::F32),
            &mut more
        ),
        Err(CodecError::InvalidImmediate)
    );
    assert_eq!(more, vec![0x01, 0x00]);
}

#[test]
fn opcode_tables_agree() {
    let mut some = 0;
    for opcode in 0u8..=255 {
        match numeric_from_opcode(opcode) {
            Some(instruction) => {
                some += 1;
                assert_eq!(opcode_of_numeric(&instruction), Some(opcode));
            }
            None => assert!(opcode < 0x45 || opcode > 0xC4),
        }
    }
    assert_eq!(some, 128);
    assert_eq!(opcode_of_numeric(&NumericInstruction::I32Constant(1)), None);
    assert_eq!(opcode_of_numeric(&NumericInstruction::F64Constant(1)), None);
    assert_eq!(
        opcode_of_numeric(&NumericInstruction::ConvertAndTruncateWithSaturation(
            IntegerType::I32,
            FloatType::F32,
            SignExtension::Signed
        )),
        None
    );
    assert_eq!(
        opcode_of_numeric(&NumericInstruction::ReinterpretInteger(
            FloatType::F64,
            IntegerType::I32
        )),
        None
    );
    assert_eq!(
        opcode_of_numeric(&NumericInstruction::Minimum(FloatType::F64)),
        Some(0xA4)
    );
    for code in 0u32..8 {
        match saturating_from_code(code) {
            Some(NumericInstruction::ConvertAndTruncateWithSaturation(to, from, sign)) => {
                assert_eq!(code_of_saturating(to, from, sign) as u32, code)
            }
            other => panic!("code {} gave {:?}", code, other),
        }
    }
    assert_eq!(saturating_from_code(8), None);
    assert_eq!(
        code_of_saturating(IntegerType::I64, FloatType::F32, SignExtension::Unsigned),
        5
    );
}

#[test]
fn memory_opcodes_and_arguments() {
    let argument = MemoryArgument::new(1, Some(2));
    let mut some = 0;
    for opcode in 0u8..=255 {
        match memory_access_from(opcode, argument) {
            Some(instruction) => {
                some += 1;
                let mut buffer = Vec::new();
                assert_eq!(emit_memory(&instruction, &mut buffer), Ok(3));
                assert_eq!(buffer, vec![opcode, 1, 2]);
            }
            None => assert!(opcode < 0x28 || opcode > 0x3E),
        }
    }
    assert_eq!(some, 23);
    assert_eq!(natural_alignment(NumberType::I32), 2);
    assert_eq!(natural_alignment(NumberType::I64), 3);
    assert_eq!(natural_alignment(NumberType::F32), 2);
    assert_eq!(natural_alignment(NumberType::F64), 3);
    assert_eq!(
        decode_memory_argument(&[0x80, 0x01, 0x03], 0, true),
        Ok((MemoryArgument::new(128, Some(3)), 3))
    );
    assert_eq!(
        decode_memory_argument(&[0x80, 0x01], 0, true),
        Err(CodecError::UnexpectedEndOfInput)
    );
}

#[test]
fn immediates_behind_an_opcode() {
    let options = DecodeOptions::new(true, 8, 8);
    assert_eq!(decode_index(&[0xE5, 0x8E, 0x26], 0, true), Ok((624485, 3)));
    assert_eq!(
        decode_plain(&[0x10, 0x07], 0x10, 1, &options),
        Ok((Instruction::Control(ControlInstruction::Call(7)), 2))
    );
    assert_eq!(
        decode_plain(&[0x01], 0x01, 1, &options),
        Ok((Instruction::Control(ControlInstruction::Nop), 1))
    );
    assert_eq!(
        decode_prefixed(&[0xFC, 9, 4], 1, true),
        Ok((Instruction::Memory(MemoryInstruction::DataDrop(4)), 3))
    );
    assert_eq!(decode_prefixed(&[0xFC, 200, 1], 1, true), Err(CodecError::UnknownOpcode));
}

#[test]
fn integers_of_other_widths() {
    // Seven bits: one byte, no continuation.
    assert_eq!(decode_unsigned(&[0x7F], 0, 7, true), Ok((127, 1)));
    assert_eq!(decode_unsigned(&[0x80, 0x01], 0, 7, true), Err(CodecError::MalformedInteger));
    // Eight bits: the second byte holds one bit.
    assert_eq!(decode_unsigned(&[0xFF, 0x01], 0, 8, true), Ok((255, 2)));
    assert_eq!(decode_unsigned(&[0xFF, 0x02], 0, 8, true), Err(CodecError::MalformedInteger));
    // One bit.
    assert_eq!(decode_unsigned(&[0x01], 0, 1, true), Ok((1, 1)));
    assert_eq!(decode_unsigned(&[0x02], 0, 1, true), Err(CodecError::MalformedInteger));
    assert_eq!(decode_unsigned(&[0x00], 0, 0, true), Ok((0, 1)));
    assert_eq!(decode_unsigned(&[0x01], 0, 0, true), Err(CodecError::MalformedInteger));
    // Thirty-three bits, signed: what a type index is written in.
    assert_eq!(decode_signed(&[0xFF, 0xFF, 0xFF, 0xFF, 0x0F], 0, 33, true), Ok((0xFFFF_FFFF, 5)));
    assert_eq!(decode_signed(&[0x80, 0x80, 0x80, 0x80, 0x70], 0, 33, true), Ok((-0x1_0000_0000, 5)));
    assert_eq!(
        decode_signed(&[0xFF, 0xFF, 0xFF, 0xFF, 0x1F], 0, 33, true),
        Err(CodecError::MalformedInteger)
    );
    assert_eq!(decode_signed(&[0x00], 0, 1, true), Ok((0, 1)));
    assert_eq!(decode_signed(&[0x7F], 0, 1, true), Ok((-1, 1)));
    assert_eq!(decode_signed(&[0x01], 0, 1, true), Err(CodecError::MalformedInteger));
    let mut buffer = Vec::new();
    assert_eq!(encode_unsigned(16384, &mut buffer), 3);
    assert_eq!(encode_signed(-8193, &mut buffer), 3);
    assert_eq!(buffer, vec![0x80, 0x80, 0x01, 0xFF, 0xBF, 0x7F]);
}

#[test]
fn bit_patterns_of_signed_values() {
    assert_eq!(bits_of_i32(0), 0);
    assert_eq!(bits_of_i32(-1), u32::MAX);
    assert_eq!(bits_of_i32(i32::MIN), 0x8000_0000);
    assert_eq!(bits_of_i32(i32::MAX), 0x7FFF_FFFF);
    assert_eq!(bits_of_i64(-1), u64::MAX);
    assert_eq!(bits_of_i64(i64::MIN), 0x8000_0000_0000_0000);
    assert_eq!(bits_of_i64(i64::MAX), 0x7FFF_FFFF_FFFF_FFFF);
}

#[test]
fn tags() {
    for kind in [
        ValueType::I32,
        ValueType::I64,
        ValueType::F32,
        ValueType::F64,
        ValueType::FunctionReference,
        ValueType::ExternalReference,
    ] {
        assert_eq!(ValueType::from_tag(kind.tag()), Some(kind));
        let mut buffer = Vec::new();
        assert_eq!(kind.emit(&mut buffer), Ok(1));
        assert_eq!(ValueType::decode(&buffer, 0, true), Ok((kind, 1)));
    }
    assert_eq!(ValueType::I32.tag(), 0x7F);
    assert_eq!(ValueType::ExternalReference.tag(), 0x6F);
    assert_eq!(ValueType::from_tag(0x40), None);
    for kind in [ReferenceType::Function, ReferenceType::External] {
        assert_eq!(ReferenceType::from_tag(kind.tag()), Some(kind));
        let mut buffer = Vec::new();
        assert_eq!(kind.emit(&mut buffer), Ok(1));
        assert_eq!(ReferenceType::decode(&buffer, 0, true), Ok((kind, 1)));
    }
    assert_eq!(ReferenceType::from_tag(0x7F), None);
    assert_eq!(ReferenceType::decode(&[0x7F], 0, true), Err(CodecError::InvalidImmediate));
    assert_eq!(ReferenceType::decode(&[], 0, true), Err(CodecError::UnexpectedEndOfInput));
    let mut buffer = Vec::new();
    assert_eq!(7u8.emit(&mut buffer), Ok(1));
    assert_eq!(300u32.emit(&mut buffer), Ok(2));
    assert_eq!(buffer, vec![7, 0xAC, 0x02]);
    assert_eq!(u8::decode(&buffer, 0, true), Ok((7, 1)));
    assert_eq!(u32::decode(&buffer, 1, true), Ok((300, 3)));
}

#[test]
fn copies() {
    let body = vec![
        Instruction::Parametric(ParametricInstruction::Select(Some(vec![ValueType::I64]))),
        Instruction::Control(ControlInstruction::BranchTable(vec![3, 4], 5)),
    ];
    assert_eq!(copy_of_instructions(&body), body);
    let control = ControlInstruction::Loop(
        BlockType::Empty,
        Expression::new(copy_of_instructions(&body)),
    );
    assert_eq!(copy_of_control(&control), control);
    let instruction = Instruction::Control(control);
    assert_eq!(copy_of_instruction(&instruction), instruction);
    let parametric = ParametricInstruction::Select(Some(vec![ValueType::F32, ValueType::I32]));
    assert_eq!(copy_of_parametric(&parametric), parametric);
    assert_eq!(parametric.clone(), parametric);
}
