use wasm_ast::{
    BlockType, ControlInstruction, Expression, Instruction, MemoryArgument, MemoryInstruction,
    NumberType, NumericInstruction, ParametricInstruction, ReferenceInstruction, ReferenceType,
    TableInstruction, ValueType, VariableInstruction,
};

#[test]
fn memory_argument_with_offset_and_alignment() {
    let argument = MemoryArgument::new(42, Some(4));
    assert_eq!(argument.offset(), 42);
    assert_eq!(argument.align(), Some(4));
    assert_eq!(argument.align_or(2), 4);
}

#[test]
fn memory_argument_with_offset_only() {
    let argument = MemoryArgument::default_align(42);
    assert_eq!(argument.offset(), 42);
    assert_eq!(argument.align(), None);
    assert_eq!(argument.align_or(2), 2);
}

#[test]
fn memory_argument_with_alignment_only() {
    let argument = MemoryArgument::default_offset(4);
    assert_eq!(argument.offset(), 0);
    assert_eq!(argument.align(), Some(4));
    assert_eq!(argument, MemoryArgument::new(0, Some(4)));
}

#[test]
fn memory_argument_default() {
    let argument = MemoryArgument::default();
    assert_eq!(argument.offset(), 0);
    assert_eq!(argument.align(), None);
}

#[test]
fn integers_become_constants() {
    let i32_constant = |bits: u32| Instruction::Numeric(NumericInstruction::I32Constant(bits));
    let i64_constant = |bits: u64| Instruction::Numeric(NumericInstruction::I64Constant(bits));
    assert_eq!(Instruction::from(-1i8), i32_constant(u32::MAX));
    assert_eq!(Instruction::from(-2i16), i32_constant(u32::MAX - 1));
    assert_eq!(Instruction::from(i32::MIN), i32_constant(0x8000_0000));
    assert_eq!(Instruction::from(7i32), i32_constant(7));
    assert_eq!(Instruction::from(-1i64), i64_constant(u64::MAX));
    assert_eq!(Instruction::from(i64::MIN), i64_constant(0x8000_0000_0000_0000));
    assert_eq!(Instruction::from(255u8), i32_constant(255));
    assert_eq!(Instruction::from(65535u16), i32_constant(65535));
    assert_eq!(Instruction::from(u32::MAX), i32_constant(u32::MAX));
    assert_eq!(Instruction::from(u64::MAX), i64_constant(u64::MAX));
    assert_eq!(Instruction::from(5usize), i32_constant(5));
    assert_eq!(Instruction::from(0x1_0000_0005u64 as usize), i32_constant(5));
    let promoted: Instruction = 0i32.into();
    assert_eq!(promoted, i32_constant(0));
}

#[test]
fn families_become_instructions() {
    assert_eq!(
        Instruction::Reference(ReferenceInstruction::Null(ReferenceType::External)),
        ReferenceInstruction::Null(ReferenceType::External).into()
    );
    assert_eq!(
        Instruction::Reference(ReferenceInstruction::Function(3)),
        ReferenceInstruction::Function(3).into()
    );
    assert_eq!(
        Instruction::Parametric(ParametricInstruction::Select(Some(vec![ValueType::I32]))),
        ParametricInstruction::Select(Some(vec![ValueType::I32])).into()
    );
    assert_eq!(
        Instruction::Variable(VariableInstruction::LocalTee(1)),
        VariableInstruction::LocalTee(1).into()
    );
    assert_eq!(
        Instruction::Table(TableInstruction::Copy(0, 1)),
        TableInstruction::Copy(0, 1).into()
    );
    assert_eq!(
        Instruction::Memory(MemoryInstruction::Store(
            NumberType::F64,
            MemoryArgument::default_offset(8)
        )),
        MemoryInstruction::Store(NumberType::F64, MemoryArgument::new(0, Some(8))).into()
    );
    assert_eq!(
        Instruction::Numeric(NumericInstruction::Promote),
        NumericInstruction::Promote.into()
    );
    assert_eq!(
        Instruction::Control(ControlInstruction::BranchTable(vec![0], 1)),
        ControlInstruction::BranchTable(vec![0], 1).into()
    );
}

#[test]
fn expression_non_empty() {
    let expression = Expression::new(vec![0i32.into(), ControlInstruction::Nop.into()]);
    assert_eq!(
        expression,
        Expression::new(vec![
            Instruction::Numeric(NumericInstruction::I32Constant(0)),
            Instruction::Control(ControlInstruction::Nop),
        ])
    );
    assert_eq!(
        expression.instructions(),
        &[
            Instruction::Numeric(NumericInstruction::I32Constant(0)),
            Instruction::Control(ControlInstruction::Nop),
        ]
    );
    assert_eq!(expression.len(), 2);
    assert!(!expression.is_empty());
    assert_eq!(
        expression,
        vec![
            Instruction::Numeric(NumericInstruction::I32Constant(0)),
            Instruction::Control(ControlInstruction::Nop),
        ]
        .into()
    );
}

#[test]
fn expression_empty() {
    let expression = Expression::new(vec![]);
    assert_eq!(expression, Expression::empty());
    assert_eq!(expression, vec![].into());
    assert_eq!(expression.instructions(), &[]);
    assert_eq!(expression.len(), 0);
    assert!(expression.is_empty());
}

#[test]
fn copies_are_equal() {
    let expression = Expression::new(vec![ControlInstruction::Nop.into(), 0i32.into()]);
    let block = Instruction::Control(ControlInstruction::If(
        BlockType::ValueType(ValueType::I32),
        expression.clone(),
        Some(Expression::new(vec![
            ControlInstruction::BranchTable(vec![1, 2], 0).into(),
            ParametricInstruction::Select(Some(vec![ValueType::F32])).into(),
            ControlInstruction::Loop(BlockType::Index(0), expression.clone()).into(),
        ])),
    ));
    assert_eq!(block.clone(), block);
    assert_eq!(expression.clone(), expression);
    let control = ControlInstruction::Block(BlockType::Empty, expression.clone());
    assert_eq!(control.clone(), control);
}
