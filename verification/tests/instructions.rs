use wasm_ast::{
    decode_block_type, decode_expression, decode_instruction, decode_instruction_within,
    decode_sequence, emit_block_type, emit_expression, emit_instruction, BlockType, CodecError,
    ControlInstruction, DecodeOptions, Expression, FloatType, Instruction, IntegerType,
    MemoryArgument, MemoryInstruction, NumberType, NumericInstruction, ParametricInstruction,
    ReferenceInstruction, ReferenceType, SignExtension, Stop, TableInstruction, ValueType,
    VariableInstruction,
};

fn options() -> DecodeOptions {
    DecodeOptions::new(true, 1000, 16)
}

fn bytes_of(instruction: &Instruction) -> Vec<u8> {
    let mut buffer = Vec::new();
    let written = emit_instruction(instruction, &mut buffer).unwrap();
    assert_eq!(written, buffer.len());
    buffer
}

fn round_trip(instruction: Instruction, expected: &[u8]) {
    let bytes = bytes_of(&instruction);
    assert_eq!(bytes, expected);
    for strict in [false, true] {
        let options = DecodeOptions::new(strict, 1000, 16);
        assert_eq!(decode_instruction(&bytes, 0, &options), Ok((instruction.clone(), bytes.len())));
        // The same bytes in the middle of a longer input.
        let mut longer = vec![0xAA];
        longer.extend_from_slice(&bytes);
        longer.push(0x01);
        assert_eq!(
            decode_instruction(&longer, 1, &options),
            Ok((instruction.clone(), 1 + bytes.len()))
        );
    }
}

fn nop() -> Instruction {
    Instruction::Control(ControlInstruction::Nop)
}

#[test]
fn i32_constant_zero() {
    round_trip(Instruction::Numeric(NumericInstruction::I32Constant(0)), &[0x41, 0x00]);
    round_trip(Instruction::from(0i32), &[0x41, 0x00]);
}

#[test]
fn i64_constant_minus_one() {
    round_trip(Instruction::Numeric(NumericInstruction::I64Constant(u64::MAX)), &[0x42, 0x7F]);
    round_trip(Instruction::from(-1i64), &[0x42, 0x7F]);
}

#[test]
fn constants_are_signed_on_the_wire() {
    round_trip(Instruction::from(-1i32), &[0x41, 0x7F]);
    round_trip(Instruction::from(u32::MAX), &[0x41, 0x7F]);
    round_trip(Instruction::from(i32::MIN), &[0x41, 0x80, 0x80, 0x80, 0x80, 0x78]);
    round_trip(Instruction::from(i32::MAX), &[0x41, 0xFF, 0xFF, 0xFF, 0xFF, 0x07]);
    round_trip(
        Instruction::from(i64::MIN),
        &[0x42, 0x80, 0x80, 0x80, 0x80, 0x80, 0x80, 0x80, 0x80, 0x80, 0x7F],
    );
    round_trip(Instruction::from(128u8), &[0x41, 0x80, 0x01]);
    round_trip(Instruction::from(u64::MAX), &[0x42, 0x7F]);
}

#[test]
fn float_constants_are_bit_patterns() {
    round_trip(
        Instruction::Numeric(NumericInstruction::F32Constant(1.0f32.to_bits())),
        &[0x43, 0x00, 0x00, 0x80, 0x3F],
    );
    round_trip(
        Instruction::Numeric(NumericInstruction::F64Constant(1.0f64.to_bits())),
        &[0x44, 0x00, 0x00, 0x00, 0x00, 0x00, 0x00, 0xF0, 0x3F],
    );
    round_trip(
        Instruction::Numeric(NumericInstruction::F32Constant(f32::NAN.to_bits())),
        &[0x43, 0x00, 0x00, 0xC0, 0x7F],
    );
}

#[test]
fn bare_expression_has_no_terminator() {
    let expression = Expression::new(vec![
        Instruction::Variable(VariableInstruction::LocalGet(0)),
        Instruction::Variable(VariableInstruction::LocalGet(1)),
        Instruction::Numeric(NumericInstruction::Add(NumberType::I32)),
    ]);
    let mut buffer = Vec::new();
    assert_eq!(emit_expression(&expression, &mut buffer), Ok(5));
    assert_eq!(buffer, vec![0x20, 0x00, 0x20, 0x01, 0x6A]);
    assert_eq!(decode_expression(&buffer, 0, &options()), Ok((expression, 5)));
}

#[test]
fn block_with_a_nop() {
    round_trip(
        Instruction::Control(ControlInstruction::Block(
            BlockType::Empty,
            Expression::new(vec![nop()]),
        )),
        &[0x02, 0x40, 0x01, 0x0B],
    );
}

#[test]
fn huge_label_count_fails() {
    let input = [0x0E, 0xFF, 0xFF, 0xFF, 0xFF, 0x0F, 0x00, 0x00];
    assert_eq!(
        decode_instruction(&input, 0, &DecodeOptions::new(true, usize::MAX, 16)),
        Err(CodecError::UnexpectedEndOfInput)
    );
    assert_eq!(decode_instruction(&input, 0, &options()), Err(CodecError::LimitExceeded));
}

fn nested() -> Instruction {
    Instruction::Control(ControlInstruction::Block(
        BlockType::Empty,
        Expression::new(vec![Instruction::Control(ControlInstruction::Loop(
            BlockType::ValueType(ValueType::I32),
            Expression::new(vec![Instruction::Control(ControlInstruction::If(
                BlockType::Index(300),
                Expression::new(vec![nop()]),
                Some(Expression::new(vec![Instruction::Control(
                    ControlInstruction::Unreachable,
                )])),
            ))]),
        ))]),
    ))
}

#[test]
fn nested_blocks_place_their_markers() {
    round_trip(
        nested(),
        &[0x02, 0x40, 0x03, 0x7F, 0x04, 0xAC, 0x02, 0x01, 0x05, 0x00, 0x0B, 0x0B, 0x0B],
    );
}

#[test]
fn conditional_forms() {
    round_trip(
        Instruction::Control(ControlInstruction::If(
            BlockType::Empty,
            Expression::new(vec![nop()]),
            None,
        )),
        &[0x04, 0x40, 0x01, 0x0B],
    );
    round_trip(
        Instruction::Control(ControlInstruction::If(
            BlockType::Empty,
            Expression::empty(),
            Some(Expression::empty()),
        )),
        &[0x04, 0x40, 0x05, 0x0B],
    );
    round_trip(
        Instruction::Control(ControlInstruction::Loop(BlockType::Index(0), Expression::empty())),
        &[0x03, 0x00, 0x0B],
    );
    round_trip(
        Instruction::Control(ControlInstruction::Block(
            BlockType::Index(64),
            Expression::empty(),
        )),
        &[0x02, 0xC0, 0x00, 0x0B],
    );
}

#[test]
fn missing_terminator_is_unexpected_end() {
    let whole = bytes_of(&nested());
    for cut in 1..whole.len() {
        assert_eq!(
            decode_instruction(&whole[..cut], 0, &options()),
            Err(CodecError::UnexpectedEndOfInput),
            "cut at {}",
            cut
        );
    }
    assert_eq!(
        decode_instruction(&[0x02, 0x40, 0x01], 0, &options()),
        Err(CodecError::UnexpectedEndOfInput)
    );
    assert_eq!(
        decode_instruction(&[0x04, 0x40, 0x01, 0x05, 0x01], 0, &options()),
        Err(CodecError::UnexpectedEndOfInput)
    );
}

#[test]
fn empty_expression_is_no_bytes() {
    let mut buffer = vec![7];
    assert_eq!(emit_expression(&Expression::empty(), &mut buffer), Ok(0));
    assert_eq!(buffer, vec![7]);
    assert_eq!(decode_expression(&[], 0, &options()), Ok((Expression::empty(), 0)));
    assert_eq!(decode_expression(&buffer, 1, &options()), Ok((Expression::empty(), 1)));
}

#[test]
fn empty_input_is_never_a_value() {
    assert_eq!(decode_instruction(&[], 0, &options()), Err(CodecError::UnexpectedEndOfInput));
    assert_eq!(decode_instruction(&[0x01], 1, &options()), Err(CodecError::UnexpectedEndOfInput));
    assert_eq!(decode_block_type(&[], 0, true), Err(CodecError::UnexpectedEndOfInput));
    for opcode in [0x0Cu8, 0x0E, 0x10, 0x11, 0x1C, 0x20, 0x28, 0x3F, 0x41, 0x42, 0x43, 0x44, 0xD0, 0xFC]
    {
        assert_eq!(
            decode_instruction(&[opcode], 0, &options()),
            Err(CodecError::UnexpectedEndOfInput),
            "opcode {:#x}",
            opcode
        );
    }
}

#[test]
fn single_byte_numeric_opcodes_round_trip() {
    let mut count = 0;
    for opcode in 0x45u8..=0xC4 {
        let (instruction, next) = decode_instruction(&[opcode], 0, &options()).unwrap();
        assert_eq!(next, 1);
        assert!(matches!(instruction, Instruction::Numeric(_)));
        assert_eq!(bytes_of(&instruction), vec![opcode]);
        count += 1;
    }
    assert_eq!(count, 128);
}

#[test]
fn numeric_opcodes() {
    round_trip(Instruction::Numeric(NumericInstruction::EqualToZero(IntegerType::I32)), &[0x45]);
    round_trip(Instruction::Numeric(NumericInstruction::Add(NumberType::F64)), &[0xA0]);
    round_trip(
        Instruction::Numeric(NumericInstruction::DivideInteger(
            IntegerType::I64,
            SignExtension::Unsigned,
        )),
        &[0x80],
    );
    round_trip(
        Instruction::Numeric(NumericInstruction::LessThanInteger(
            IntegerType::I32,
            SignExtension::Signed,
        )),
        &[0x48],
    );
    round_trip(Instruction::Numeric(NumericInstruction::SquareRoot(FloatType::F32)), &[0x91]);
    round_trip(Instruction::Numeric(NumericInstruction::Wrap), &[0xA7]);
    round_trip(
        Instruction::Numeric(NumericInstruction::ExtendWithSignExtension(SignExtension::Unsigned)),
        &[0xAD],
    );
    round_trip(
        Instruction::Numeric(NumericInstruction::ConvertAndTruncate(
            IntegerType::I64,
            FloatType::F64,
            SignExtension::Unsigned,
        )),
        &[0xB1],
    );
    round_trip(
        Instruction::Numeric(NumericInstruction::Convert(
            FloatType::F64,
            IntegerType::I32,
            SignExtension::Signed,
        )),
        &[0xB7],
    );
    round_trip(
        Instruction::Numeric(NumericInstruction::ReinterpretFloat(
            IntegerType::I64,
            FloatType::F64,
        )),
        &[0xBD],
    );
    round_trip(
        Instruction::Numeric(NumericInstruction::ReinterpretInteger(
            FloatType::F32,
            IntegerType::I32,
        )),
        &[0xBE],
    );
    round_trip(Instruction::Numeric(NumericInstruction::ExtendSigned32), &[0xC4]);
    round_trip(Instruction::Numeric(NumericInstruction::ExtendSigned16(IntegerType::I64)), &[0xC3]);
}

#[test]
fn saturating_truncations_use_the_prefix() {
    let mut code = 0u8;
    for to in [IntegerType::I32, IntegerType::I64] {
        for from in [FloatType::F32, FloatType::F64] {
            for sign in [SignExtension::Signed, SignExtension::Unsigned] {
                round_trip(
                    Instruction::Numeric(NumericInstruction::ConvertAndTruncateWithSaturation(
                        to, from, sign,
                    )),
                    &[0xFC, code],
                );
                code += 1;
            }
        }
    }
    assert_eq!(code, 8);
}

#[test]
fn reference_parametric_and_variable_instructions() {
    round_trip(
        Instruction::Reference(ReferenceInstruction::Null(ReferenceType::External)),
        &[0xD0, 0x6F],
    );
    round_trip(
        Instruction::Reference(ReferenceInstruction::Null(ReferenceType::Function)),
        &[0xD0, 0x70],
    );
    round_trip(Instruction::Reference(ReferenceInstruction::IsNull), &[0xD1]);
    round_trip(Instruction::Reference(ReferenceInstruction::Function(3)), &[0xD2, 0x03]);
    round_trip(Instruction::Parametric(ParametricInstruction::Drop), &[0x1A]);
    round_trip(Instruction::Parametric(ParametricInstruction::Select(None)), &[0x1B]);
    round_trip(Instruction::Parametric(ParametricInstruction::Select(Some(vec![]))), &[0x1C, 0x00]);
    round_trip(
        Instruction::Parametric(ParametricInstruction::Select(Some(vec![
            ValueType::I32,
            ValueType::F64,
            ValueType::FunctionReference,
        ]))),
        &[0x1C, 0x03, 0x7F, 0x7C, 0x70],
    );
    round_trip(Instruction::Variable(VariableInstruction::LocalGet(0)), &[0x20, 0x00]);
    round_trip(Instruction::Variable(VariableInstruction::LocalSet(1)), &[0x21, 0x01]);
    round_trip(Instruction::Variable(VariableInstruction::LocalTee(128)), &[0x22, 0x80, 0x01]);
    round_trip(Instruction::Variable(VariableInstruction::GlobalGet(0)), &[0x23, 0x00]);
    round_trip(
        Instruction::Variable(VariableInstruction::GlobalSet(u32::MAX)),
        &[0x24, 0xFF, 0xFF, 0xFF, 0xFF, 0x0F],
    );
}

#[test]
fn table_instructions() {
    round_trip(Instruction::Table(TableInstruction::Get(1)), &[0x25, 0x01]);
    round_trip(Instruction::Table(TableInstruction::Put(1)), &[0x26, 0x01]);
    round_trip(Instruction::Table(TableInstruction::Init(2, 3)), &[0xFC, 12, 0x02, 0x03]);
    round_trip(Instruction::Table(TableInstruction::ElementDrop(4)), &[0xFC, 13, 0x04]);
    round_trip(Instruction::Table(TableInstruction::Copy(5, 6)), &[0xFC, 14, 0x05, 0x06]);
    round_trip(Instruction::Table(TableInstruction::Grow(7)), &[0xFC, 15, 0x07]);
    round_trip(Instruction::Table(TableInstruction::Size(8)), &[0xFC, 16, 0x08]);
    round_trip(Instruction::Table(TableInstruction::Fill(200)), &[0xFC, 17, 0xC8, 0x01]);
}

#[test]
fn memory_instructions() {
    let argument = MemoryArgument::new(42, Some(4));
    round_trip(
        Instruction::Memory(MemoryInstruction::Load(NumberType::I32, argument)),
        &[0x28, 42, 4],
    );
    round_trip(
        Instruction::Memory(MemoryInstruction::Load(NumberType::F64, argument)),
        &[0x2B, 42, 4],
    );
    round_trip(
        Instruction::Memory(MemoryInstruction::Load8(
            IntegerType::I32,
            SignExtension::Signed,
            argument,
        )),
        &[0x2C, 42, 4],
    );
    round_trip(
        Instruction::Memory(MemoryInstruction::Load8(
            IntegerType::I64,
            SignExtension::Unsigned,
            argument,
        )),
        &[0x31, 42, 4],
    );
    round_trip(
        Instruction::Memory(MemoryInstruction::Load16(
            IntegerType::I32,
            SignExtension::Unsigned,
            argument,
        )),
        &[0x2F, 42, 4],
    );
    round_trip(
        Instruction::Memory(MemoryInstruction::Load16(
            IntegerType::I64,
            SignExtension::Signed,
            argument,
        )),
        &[0x32, 42, 4],
    );
    round_trip(
        Instruction::Memory(MemoryInstruction::Load32(SignExtension::Unsigned, argument)),
        &[0x35, 42, 4],
    );
    round_trip(
        Instruction::Memory(MemoryInstruction::Store(NumberType::I64, argument)),
        &[0x37, 42, 4],
    );
    round_trip(
        Instruction::Memory(MemoryInstruction::Store8(IntegerType::I64, argument)),
        &[0x3C, 42, 4],
    );
    round_trip(
        Instruction::Memory(MemoryInstruction::Store16(IntegerType::I32, argument)),
        &[0x3B, 42, 4],
    );
    round_trip(Instruction::Memory(MemoryInstruction::Store32(argument)), &[0x3E, 42, 4]);
    round_trip(Instruction::Memory(MemoryInstruction::Size), &[0x3F, 0x00]);
    round_trip(Instruction::Memory(MemoryInstruction::Grow), &[0x40, 0x00]);
    round_trip(Instruction::Memory(MemoryInstruction::Init(1)), &[0xFC, 8, 0x01, 0x00]);
    round_trip(Instruction::Memory(MemoryInstruction::DataDrop(0)), &[0xFC, 9, 0x00]);
    round_trip(Instruction::Memory(MemoryInstruction::Copy), &[0xFC, 10, 0x00, 0x00]);
    round_trip(Instruction::Memory(MemoryInstruction::Fill), &[0xFC, 11, 0x00]);
}

#[test]
fn alignment_left_out_is_written_as_the_natural_one() {
    let cases: Vec<(Instruction, Vec<u8>)> = vec![
        (
            Instruction::Memory(MemoryInstruction::Load(
                NumberType::I32,
                MemoryArgument::default(),
            )),
            vec![0x28, 0, 2],
        ),
        (
            Instruction::Memory(MemoryInstruction::Load(
                NumberType::I64,
                MemoryArgument::default_align(8),
            )),
            vec![0x29, 8, 3],
        ),
        (
            Instruction::Memory(MemoryInstruction::Store(
                NumberType::F32,
                MemoryArgument::default(),
            )),
            vec![0x38, 0, 2],
        ),
        (
            Instruction::Memory(MemoryInstruction::Store(
                NumberType::F64,
                MemoryArgument::default(),
            )),
            vec![0x39, 0, 3],
        ),
        (
            Instruction::Memory(MemoryInstruction::Load8(
                IntegerType::I32,
                SignExtension::Unsigned,
                MemoryArgument::default(),
            )),
            vec![0x2D, 0, 0],
        ),
        (
            Instruction::Memory(MemoryInstruction::Store16(
                IntegerType::I64,
                MemoryArgument::default(),
            )),
            vec![0x3D, 0, 1],
        ),
        (
            Instruction::Memory(MemoryInstruction::Store32(MemoryArgument::default())),
            vec![0x3E, 0, 2],
        ),
    ];
    for (instruction, expected) in cases {
        assert_eq!(bytes_of(&instruction), expected);
    }
    // What is read back names the alignment.
    assert_eq!(
        decode_instruction(&[0x28, 0, 2], 0, &options()),
        Ok((
            Instruction::Memory(MemoryInstruction::Load(
                NumberType::I32,
                MemoryArgument::new(0, Some(2))
            )),
            3
        ))
    );
}

#[test]
fn control_instructions() {
    round_trip(Instruction::Control(ControlInstruction::Unreachable), &[0x00]);
    round_trip(nop(), &[0x01]);
    round_trip(Instruction::Control(ControlInstruction::Branch(0)), &[0x0C, 0x00]);
    round_trip(Instruction::Control(ControlInstruction::BranchIf(1)), &[0x0D, 0x01]);
    round_trip(
        Instruction::Control(ControlInstruction::BranchTable(vec![0, 2, 300], 1)),
        &[0x0E, 0x03, 0x00, 0x02, 0xAC, 0x02, 0x01],
    );
    round_trip(Instruction::Control(ControlInstruction::BranchTable(vec![], 9)), &[0x0E, 0x00, 0x09]);
    round_trip(Instruction::Control(ControlInstruction::Return), &[0x0F]);
    round_trip(Instruction::Control(ControlInstruction::Call(1)), &[0x10, 0x01]);
    round_trip(Instruction::Control(ControlInstruction::CallIndirect(0, 1)), &[0x11, 0x00, 0x01]);
}

#[test]
fn block_types() {
    for (kind, expected) in [
        (BlockType::Empty, vec![0x40]),
        (BlockType::ValueType(ValueType::I32), vec![0x7F]),
        (BlockType::ValueType(ValueType::ExternalReference), vec![0x6F]),
        (BlockType::Index(0), vec![0x00]),
        (BlockType::Index(63), vec![0x3F]),
        (BlockType::Index(64), vec![0xC0, 0x00]),
        (BlockType::Index(u32::MAX), vec![0xFF, 0xFF, 0xFF, 0xFF, 0x0F]),
    ] {
        let mut buffer = Vec::new();
        assert_eq!(emit_block_type(&kind, &mut buffer), Ok(expected.len()));
        assert_eq!(buffer, expected);
        assert_eq!(decode_block_type(&buffer, 0, true), Ok((kind, expected.len())));
    }
}

#[test]
fn unknown_opcodes() {
    for opcode in [0x05u8, 0x06, 0x0B, 0x12, 0x19, 0x1D, 0x27, 0xC5, 0xCF, 0xD3, 0xFB, 0xFD, 0xFF] {
        assert_eq!(
            decode_instruction(&[opcode, 0x00], 0, &options()),
            Err(CodecError::UnknownOpcode),
            "opcode {:#x}",
            opcode
        );
    }
    assert_eq!(decode_instruction(&[0xFC, 18, 0], 0, &options()), Err(CodecError::UnknownOpcode));
    // An else marker where no conditional is open, and a second one in a conditional.
    assert_eq!(
        decode_instruction(&[0x02, 0x40, 0x05, 0x0B], 0, &options()),
        Err(CodecError::UnknownOpcode)
    );
    assert_eq!(
        decode_instruction(&[0x04, 0x40, 0x05, 0x05, 0x0B], 0, &options()),
        Err(CodecError::UnknownOpcode)
    );
    // A marker in a bare expression.
    assert_eq!(decode_expression(&[0x01, 0x0B], 0, &options()), Err(CodecError::UnknownOpcode));
}

#[test]
fn invalid_immediates() {
    // A block type that is a negative integer.
    assert_eq!(decode_block_type(&[0x41], 0, true), Err(CodecError::InvalidImmediate));
    assert_eq!(
        decode_instruction(&[0x02, 0x7B, 0x0B], 0, &options()),
        Err(CodecError::InvalidImmediate)
    );
    // A reference type that is none.
    assert_eq!(decode_instruction(&[0xD0, 0x7F], 0, &options()), Err(CodecError::InvalidImmediate));
    // A value type that is none.
    assert_eq!(
        decode_instruction(&[0x1C, 0x01, 0x40], 0, &options()),
        Err(CodecError::InvalidImmediate)
    );
    // A reserved byte that is not zero.
    assert_eq!(decode_instruction(&[0x3F, 0x01], 0, &options()), Err(CodecError::InvalidImmediate));
    assert_eq!(
        decode_instruction(&[0xFC, 10, 0x00, 0x01], 0, &options()),
        Err(CodecError::InvalidImmediate)
    );
}

#[test]
fn malformed_integers_in_immediates() {
    assert_eq!(
        decode_instruction(&[0x20, 0xFF, 0xFF, 0xFF, 0xFF, 0x1F], 0, &options()),
        Err(CodecError::MalformedInteger)
    );
    assert_eq!(
        decode_instruction(&[0x20, 0x80, 0x00], 0, &DecodeOptions::new(true, 10, 10)),
        Err(CodecError::MalformedInteger)
    );
    assert_eq!(
        decode_instruction(&[0x20, 0x80, 0x00], 0, &DecodeOptions::new(false, 10, 10)),
        Ok((Instruction::Variable(VariableInstruction::LocalGet(0)), 3))
    );
    assert_eq!(
        decode_instruction(&[0xFC, 0x8C, 0x00, 1, 2], 0, &DecodeOptions::new(false, 10, 10)),
        Ok((Instruction::Table(TableInstruction::Init(1, 2)), 5))
    );
}

#[test]
fn reinterpretation_between_widths_has_no_binary_form() {
    let bad = Instruction::Numeric(NumericInstruction::ReinterpretFloat(
        IntegerType::I32,
        FloatType::F64,
    ));
    let mut buffer = vec![1, 2, 3];
    assert_eq!(emit_instruction(&bad, &mut buffer), Err(CodecError::InvalidImmediate));
    assert_eq!(buffer, vec![1, 2, 3]);

    let nested = Instruction::Control(ControlInstruction::Block(
        BlockType::Empty,
        Expression::new(vec![
            nop(),
            Instruction::Control(ControlInstruction::If(
                BlockType::Empty,
                Expression::new(vec![nop()]),
                Some(Expression::new(vec![Instruction::Numeric(
                    NumericInstruction::ReinterpretInteger(FloatType::F32, IntegerType::I64),
                )])),
            )),
        ]),
    ));
    assert_eq!(emit_instruction(&nested, &mut buffer), Err(CodecError::InvalidImmediate));
    assert_eq!(buffer, vec![1, 2, 3]);
    let expression = Expression::new(vec![nop(), nested]);
    assert_eq!(emit_expression(&expression, &mut buffer), Err(CodecError::InvalidImmediate));
    assert_eq!(buffer, vec![1, 2, 3]);
}

#[test]
fn nesting_depth_is_limited() {
    let bytes = bytes_of(&nested());
    assert_eq!(
        decode_instruction(&bytes, 0, &DecodeOptions::new(true, 10, 3)),
        Ok((nested(), bytes.len()))
    );
    assert_eq!(
        decode_instruction(&bytes, 0, &DecodeOptions::new(true, 10, 2)),
        Err(CodecError::LimitExceeded)
    );
    assert_eq!(
        decode_instruction(&bytes, 0, &DecodeOptions::new(true, 10, 0)),
        Err(CodecError::LimitExceeded)
    );
    assert_eq!(decode_instruction_within(&bytes, 0, &options(), 2), Err(CodecError::LimitExceeded));
    assert_eq!(decode_instruction(&[0x01], 0, &DecodeOptions::new(true, 10, 0)), Ok((nop(), 1)));
    // Many blocks opened one in the other.
    let deep = vec![0x02u8; 100_000]
        .into_iter()
        .flat_map(|opcode| [opcode, 0x40])
        .collect::<Vec<u8>>();
    assert_eq!(decode_instruction(&deep, 0, &options()), Err(CodecError::LimitExceeded));
}

#[test]
fn vector_length_is_limited() {
    let table = Instruction::Control(ControlInstruction::BranchTable(vec![1, 2, 3], 0));
    let bytes = bytes_of(&table);
    assert_eq!(
        decode_instruction(&bytes, 0, &DecodeOptions::new(true, 3, 1)),
        Ok((table, bytes.len()))
    );
    assert_eq!(
        decode_instruction(&bytes, 0, &DecodeOptions::new(true, 2, 1)),
        Err(CodecError::LimitExceeded)
    );
    assert_eq!(
        decode_instruction(&[0x1C, 0x02, 0x7F, 0x7F], 0, &DecodeOptions::new(true, 1, 1)),
        Err(CodecError::LimitExceeded)
    );
}

#[test]
fn sequences_say_what_stopped_them() {
    assert_eq!(decode_sequence(&[0x01, 0x0B, 0x01], 0, &options(), 0), Ok((vec![nop()], Stop::End, 2)));
    assert_eq!(decode_sequence(&[0x01, 0x05], 0, &options(), 0), Ok((vec![nop()], Stop::Else, 2)));
    assert_eq!(
        decode_sequence(&[0x01, 0x01], 0, &options(), 0),
        Ok((vec![nop(), nop()], Stop::Exhausted, 2))
    );
    assert_eq!(decode_sequence(&[], 0, &options(), 0), Ok((vec![], Stop::Exhausted, 0)));
    assert_eq!(decode_sequence(&[0x01, 0x06], 0, &options(), 0), Err(CodecError::UnknownOpcode));
}

#[test]
fn long_expression_round_trips() {
    let mut instructions = Vec::new();
    for i in 0..2000u32 {
        instructions.push(Instruction::Variable(VariableInstruction::LocalGet(i)));
        instructions.push(Instruction::from(i as i32 - 1000));
        instructions.push(nested());
    }
    let expression = Expression::new(instructions);
    let mut buffer = Vec::new();
    let written = emit_expression(&expression, &mut buffer).unwrap();
    assert_eq!(written, buffer.len());
    let (decoded, next) = decode_expression(&buffer, 0, &options()).unwrap();
    assert_eq!(next, buffer.len());
    assert_eq!(decoded.len(), 6000);
    assert_eq!(decoded, expression);
}

#[test]
fn strict_reading_accepts_only_encodings() {
    // A fixed pseudo-random walk over short inputs: whatever strict reading
    // accepts must be the encoding of what it yields.
    let mut state: u32 = 0x2545_F491;
    let mut next = || {
        state ^= state << 13;
        state ^= state >> 17;
        state ^= state << 5;
        state
    };
    let interesting = [
        0x00u8, 0x01, 0x02, 0x03, 0x04, 0x05, 0x0B, 0x0C, 0x0E, 0x11, 0x1C, 0x20, 0x28, 0x36, 0x3F,
        0x40, 0x41, 0x42, 0x43, 0x6A, 0x7F, 0x80, 0xD0, 0xD2, 0xFC, 0x0A, 0x0D, 0x70,
    ];
    let mut accepted = 0;
    for _ in 0..20000 {
        let length = 1 + (next() % 8) as usize;
        let input: Vec<u8> = (0..length)
            .map(|_| {
                let r = next();
                if r % 4 == 0 {
                    (r >> 8) as u8
                } else {
                    interesting[(r >> 8) as usize % interesting.len()]
                }
            })
            .collect();
        if let Ok((instruction, end)) = decode_instruction(&input, 0, &options()) {
            accepted += 1;
            assert_eq!(bytes_of(&instruction), &input[..end], "input {:02x?}", input);
        }
    }
    assert!(accepted > 1000, "only {} inputs were accepted", accepted);
}

#[test]
fn tolerant_reading_gives_what_strict_reading_gives() {
    let mut state: u32 = 0x9E37_79B9;
    let mut next = || {
        state ^= state << 13;
        state ^= state >> 17;
        state ^= state << 5;
        state
    };
    for _ in 0..20000 {
        let length = 1 + (next() % 6) as usize;
        let input: Vec<u8> = (0..length).map(|_| (next() >> 11) as u8).collect();
        let strict = decode_instruction(&input, 0, &DecodeOptions::new(true, 100, 4));
        let tolerant = decode_instruction(&input, 0, &DecodeOptions::new(false, 100, 4));
        if strict.is_ok() {
            assert_eq!(strict, tolerant, "input {:02x?}", input);
        }
    }
}

#[test]
fn round_trip_names_the_alignment() {
    let written = Instruction::Control(ControlInstruction::Block(
        BlockType::Empty,
        Expression::new(vec![
            Instruction::Memory(MemoryInstruction::Load(
                NumberType::F64,
                MemoryArgument::default_align(16),
            )),
            Instruction::Memory(MemoryInstruction::Store8(
                IntegerType::I32,
                MemoryArgument::new(1, Some(0)),
            )),
        ]),
    ));
    let read = Instruction::Control(ControlInstruction::Block(
        BlockType::Empty,
        Expression::new(vec![
            Instruction::Memory(MemoryInstruction::Load(
                NumberType::F64,
                MemoryArgument::new(16, Some(3)),
            )),
            Instruction::Memory(MemoryInstruction::Store8(
                IntegerType::I32,
                MemoryArgument::new(1, Some(0)),
            )),
        ]),
    ));
    let bytes = bytes_of(&written);
    assert_eq!(bytes, vec![0x02, 0x40, 0x2B, 16, 3, 0x3A, 1, 0, 0x0B]);
    assert_eq!(bytes_of(&read), bytes);
    assert_eq!(decode_instruction(&bytes, 0, &options()), Ok((read, bytes.len())));
}
