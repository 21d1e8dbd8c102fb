//! The opcodes of the numeric instructions that carry no immediate on the
//! wire: their operand types and signedness select the opcode.

use crate::instruction::{NumericInstruction, SignExtension};
use crate::types::{FloatType, IntegerType, NumberType};
use vstd::prelude::*;

verus! {

/// One of two opcodes, by integer type.
pub open spec fn by_integer(kind: IntegerType, narrow: u8, wide: u8) -> u8 {
    match kind {
        IntegerType::I32 => narrow,
        IntegerType::I64 => wide,
    }
}

/// One of two opcodes, by floating-point type.
pub open spec fn by_float(kind: FloatType, narrow: u8, wide: u8) -> u8 {
    match kind {
        FloatType::F32 => narrow,
        FloatType::F64 => wide,
    }
}

/// One of four opcodes, by number type.
pub open spec fn by_number(
    kind: NumberType,
    i32_code: u8,
    i64_code: u8,
    f32_code: u8,
    f64_code: u8,
) -> u8 {
    match kind {
        NumberType::I32 => i32_code,
        NumberType::I64 => i64_code,
        NumberType::F32 => f32_code,
        NumberType::F64 => f64_code,
    }
}

/// The signed form of an operation has the opcode `signed`, the unsigned
/// form the one after it.
pub open spec fn by_sign(sign: SignExtension, signed: u8) -> u8 {
    match sign {
        SignExtension::Signed => signed,
        SignExtension::Unsigned => (signed + 1) as u8,
    }
}

/// The opcode of a numeric instruction that is a single byte on the wire.
/// Constants and saturating truncations are longer and have none here; a
/// reinterpretation between types of different width has no opcode at all.
pub open spec fn numeric_opcode(instruction: NumericInstruction) -> Option<u8> {
    match instruction {
        NumericInstruction::CountLeadingZeros(kind) => Some(by_integer(kind, 0x67, 0x79)),
        NumericInstruction::CountTrailingZeros(kind) => Some(by_integer(kind, 0x68, 0x7A)),
        NumericInstruction::CountOnes(kind) => Some(by_integer(kind, 0x69, 0x7B)),
        NumericInstruction::AbsoluteValue(kind) => Some(by_float(kind, 0x8B, 0x99)),
        NumericInstruction::Negate(kind) => Some(by_float(kind, 0x8C, 0x9A)),
        NumericInstruction::SquareRoot(kind) => Some(by_float(kind, 0x91, 0x9F)),
        NumericInstruction::Ceiling(kind) => Some(by_float(kind, 0x8D, 0x9B)),
        NumericInstruction::Floor(kind) => Some(by_float(kind, 0x8E, 0x9C)),
        NumericInstruction::Truncate(kind) => Some(by_float(kind, 0x8F, 0x9D)),
        NumericInstruction::Nearest(kind) => Some(by_float(kind, 0x90, 0x9E)),
        NumericInstruction::Add(kind) => Some(by_number(kind, 0x6A, 0x7C, 0x92, 0xA0)),
        NumericInstruction::Subtract(kind) => Some(by_number(kind, 0x6B, 0x7D, 0x93, 0xA1)),
        NumericInstruction::Multiply(kind) => Some(by_number(kind, 0x6C, 0x7E, 0x94, 0xA2)),
        NumericInstruction::DivideInteger(kind, sign) => Some(
            by_sign(sign, by_integer(kind, 0x6D, 0x7F)),
        ),
        NumericInstruction::DivideFloat(kind) => Some(by_float(kind, 0x95, 0xA3)),
        NumericInstruction::Remainder(kind, sign) => Some(
            by_sign(sign, by_integer(kind, 0x6F, 0x81)),
        ),
        NumericInstruction::And(kind) => Some(by_integer(kind, 0x71, 0x83)),
        NumericInstruction::Or(kind) => Some(by_integer(kind, 0x72, 0x84)),
        NumericInstruction::Xor(kind) => Some(by_integer(kind, 0x73, 0x85)),
        NumericInstruction::ShiftLeft(kind) => Some(by_integer(kind, 0x74, 0x86)),
        NumericInstruction::ShiftRight(kind, sign) => Some(
            by_sign(sign, by_integer(kind, 0x75, 0x87)),
        ),
        NumericInstruction::RotateLeft(kind) => Some(by_integer(kind, 0x77, 0x89)),
        NumericInstruction::RotateRight(kind) => Some(by_integer(kind, 0x78, 0x8A)),
        NumericInstruction::Minimum(kind) => Some(by_float(kind, 0x96, 0xA4)),
        NumericInstruction::Maximum(kind) => Some(by_float(kind, 0x97, 0xA5)),
        NumericInstruction::CopySign(kind) => Some(by_float(kind, 0x98, 0xA6)),
        NumericInstruction::EqualToZero(kind) => Some(by_integer(kind, 0x45, 0x50)),
        NumericInstruction::Equal(kind) => Some(by_number(kind, 0x46, 0x51, 0x5B, 0x61)),
        NumericInstruction::NotEqual(kind) => Some(by_number(kind, 0x47, 0x52, 0x5C, 0x62)),
        NumericInstruction::LessThanInteger(kind, sign) => Some(
            by_sign(sign, by_integer(kind, 0x48, 0x53)),
        ),
        NumericInstruction::LessThanFloat(kind) => Some(by_float(kind, 0x5D, 0x63)),
        NumericInstruction::GreaterThanInteger(kind, sign) => Some(
            by_sign(sign, by_integer(kind, 0x4A, 0x55)),
        ),
        NumericInstruction::GreaterThanFloat(kind) => Some(by_float(kind, 0x5E, 0x64)),
        NumericInstruction::LessThanOrEqualToInteger(kind, sign) => Some(
            by_sign(sign, by_integer(kind, 0x4C, 0x57)),
        ),
        NumericInstruction::LessThanOrEqualToFloat(kind) => Some(by_float(kind, 0x5F, 0x65)),
        NumericInstruction::GreaterThanOrEqualToInteger(kind, sign) => Some(
            by_sign(sign, by_integer(kind, 0x4E, 0x59)),
        ),
        NumericInstruction::GreaterThanOrEqualToFloat(kind) => Some(by_float(kind, 0x60, 0x66)),
        NumericInstruction::ExtendSigned8(kind) => Some(by_integer(kind, 0xC0, 0xC2)),
        NumericInstruction::ExtendSigned16(kind) => Some(by_integer(kind, 0xC1, 0xC3)),
        NumericInstruction::ExtendSigned32 => Some(0xC4),
        NumericInstruction::Wrap => Some(0xA7),
        NumericInstruction::ExtendWithSignExtension(sign) => Some(by_sign(sign, 0xAC)),
        NumericInstruction::ConvertAndTruncate(to, from, sign) => Some(
            by_sign(sign, by_integer(to, by_float(from, 0xA8, 0xAA), by_float(from, 0xAE, 0xB0))),
        ),
        NumericInstruction::Demote => Some(0xB6),
        NumericInstruction::Promote => Some(0xBB),
        NumericInstruction::Convert(to, from, sign) => Some(
            by_sign(sign, by_float(to, by_integer(from, 0xB2, 0xB4), by_integer(from, 0xB7, 0xB9))),
        ),
        NumericInstruction::ReinterpretFloat(to, from) => match (to, from) {
            (IntegerType::I32, FloatType::F32) => Some(0xBC),
            (IntegerType::I64, FloatType::F64) => Some(0xBD),
            _ => None,
        },
        NumericInstruction::ReinterpretInteger(to, from) => match (to, from) {
            (FloatType::F32, IntegerType::I32) => Some(0xBE),
            (FloatType::F64, IntegerType::I64) => Some(0xBF),
            _ => None,
        },
        NumericInstruction::I32Constant(_) => None,
        NumericInstruction::I64Constant(_) => None,
        NumericInstruction::F32Constant(_) => None,
        NumericInstruction::F64Constant(_) => None,
        NumericInstruction::ConvertAndTruncateWithSaturation(_, _, _) => None,
    }
}

/// The secondary opcode of a saturating truncation.
pub open spec fn saturating_code(to: IntegerType, from: FloatType, sign: SignExtension) -> u8 {
    by_sign(sign, by_integer(to, by_float(from, 0, 2), by_float(from, 4, 6)))
}

/// The single-byte numeric instruction with the given opcode, if there is one.
pub open spec fn numeric_of_opcode(opcode: u8) -> Option<NumericInstruction> {
    match opcode {
        0x45 => Some(NumericInstruction::EqualToZero(IntegerType::I32)),
        0x46 => Some(NumericInstruction::Equal(NumberType::I32)),
        0x47 => Some(NumericInstruction::NotEqual(NumberType::I32)),
        0x48 => Some(NumericInstruction::LessThanInteger(IntegerType::I32, SignExtension::Signed)),
        0x49 => Some(
            NumericInstruction::LessThanInteger(IntegerType::I32, SignExtension::Unsigned),
        ),
        0x4A => Some(
            NumericInstruction::GreaterThanInteger(IntegerType::I32, SignExtension::Signed),
        ),
        0x4B => Some(
            NumericInstruction::GreaterThanInteger(IntegerType::I32, SignExtension::Unsigned),
        ),
        0x4C => Some(
            NumericInstruction::LessThanOrEqualToInteger(IntegerType::I32, SignExtension::Signed),
        ),
        0x4D => Some(
            NumericInstruction::LessThanOrEqualToInteger(IntegerType::I32, SignExtension::Unsigned),
        ),
        0x4E => Some(
            NumericInstruction::GreaterThanOrEqualToInteger(
                IntegerType::I32,
                SignExtension::Signed,
            ),
        ),
        0x4F => Some(
            NumericInstruction::GreaterThanOrEqualToInteger(
                IntegerType::I32,
                SignExtension::Unsigned,
            ),
        ),
        0x50 => Some(NumericInstruction::EqualToZero(IntegerType::I64)),
        0x51 => Some(NumericInstruction::Equal(NumberType::I64)),
        0x52 => Some(NumericInstruction::NotEqual(NumberType::I64)),
        0x53 => Some(NumericInstruction::LessThanInteger(IntegerType::I64, SignExtension::Signed)),
        0x54 => Some(
            NumericInstruction::LessThanInteger(IntegerType::I64, SignExtension::Unsigned),
        ),
        0x55 => Some(
            NumericInstruction::GreaterThanInteger(IntegerType::I64, SignExtension::Signed),
        ),
        0x56 => Some(
            NumericInstruction::GreaterThanInteger(IntegerType::I64, SignExtension::Unsigned),
        ),
        0x57 => Some(
            NumericInstruction::LessThanOrEqualToInteger(IntegerType::I64, SignExtension::Signed),
        ),
        0x58 => Some(
            NumericInstruction::LessThanOrEqualToInteger(IntegerType::I64, SignExtension::Unsigned),
        ),
        0x59 => Some(
            NumericInstruction::GreaterThanOrEqualToInteger(
                IntegerType::I64,
                SignExtension::Signed,
            ),
        ),
        0x5A => Some(
            NumericInstruction::GreaterThanOrEqualToInteger(
                IntegerType::I64,
                SignExtension::Unsigned,
            ),
        ),
        0x5B => Some(NumericInstruction::Equal(NumberType::F32)),
        0x5C => Some(NumericInstruction::NotEqual(NumberType::F32)),
        0x5D => Some(NumericInstruction::LessThanFloat(FloatType::F32)),
        0x5E => Some(NumericInstruction::GreaterThanFloat(FloatType::F32)),
        0x5F => Some(NumericInstruction::LessThanOrEqualToFloat(FloatType::F32)),
        0x60 => Some(NumericInstruction::GreaterThanOrEqualToFloat(FloatType::F32)),
        0x61 => Some(NumericInstruction::Equal(NumberType::F64)),
        0x62 => Some(NumericInstruction::NotEqual(NumberType::F64)),
        0x63 => Some(NumericInstruction::LessThanFloat(FloatType::F64)),
        0x64 => Some(NumericInstruction::GreaterThanFloat(FloatType::F64)),
        0x65 => Some(NumericInstruction::LessThanOrEqualToFloat(FloatType::F64)),
        0x66 => Some(NumericInstruction::GreaterThanOrEqualToFloat(FloatType::F64)),
        0x67 => Some(NumericInstruction::CountLeadingZeros(IntegerType::I32)),
        0x68 => Some(NumericInstruction::CountTrailingZeros(IntegerType::I32)),
        0x69 => Some(NumericInstruction::CountOnes(IntegerType::I32)),
        0x6A => Some(NumericInstruction::Add(NumberType::I32)),
        0x6B => Some(NumericInstruction::Subtract(NumberType::I32)),
        0x6C => Some(NumericInstruction::Multiply(NumberType::I32)),
        0x6D => Some(NumericInstruction::DivideInteger(IntegerType::I32, SignExtension::Signed)),
        0x6E => Some(NumericInstruction::DivideInteger(IntegerType::I32, SignExtension::Unsigned)),
        0x6F => Some(NumericInstruction::Remainder(IntegerType::I32, SignExtension::Signed)),
        0x70 => Some(NumericInstruction::Remainder(IntegerType::I32, SignExtension::Unsigned)),
        0x71 => Some(NumericInstruction::And(IntegerType::I32)),
        0x72 => Some(NumericInstruction::Or(IntegerType::I32)),
        0x73 => Some(NumericInstruction::Xor(IntegerType::I32)),
        0x74 => Some(NumericInstruction::ShiftLeft(IntegerType::I32)),
        0x75 => Some(NumericInstruction::ShiftRight(IntegerType::I32, SignExtension::Signed)),
        0x76 => Some(NumericInstruction::ShiftRight(IntegerType::I32, SignExtension::Unsigned)),
        0x77 => Some(NumericInstruction::RotateLeft(IntegerType::I32)),
        0x78 => Some(NumericInstruction::RotateRight(IntegerType::I32)),
        0x79 => Some(NumericInstruction::CountLeadingZeros(IntegerType::I64)),
        0x7A => Some(NumericInstruction::CountTrailingZeros(IntegerType::I64)),
        0x7B => Some(NumericInstruction::CountOnes(IntegerType::I64)),
        0x7C => Some(NumericInstruction::Add(NumberType::I64)),
        0x7D => Some(NumericInstruction::Subtract(NumberType::I64)),
        0x7E => Some(NumericInstruction::Multiply(NumberType::I64)),
        0x7F => Some(NumericInstruction::DivideInteger(IntegerType::I64, SignExtension::Signed)),
        0x80 => Some(NumericInstruction::DivideInteger(IntegerType::I64, SignExtension::Unsigned)),
        0x81 => Some(NumericInstruction::Remainder(IntegerType::I64, SignExtension::Signed)),
        0x82 => Some(NumericInstruction::Remainder(IntegerType::I64, SignExtension::Unsigned)),
        0x83 => Some(NumericInstruction::And(IntegerType::I64)),
        0x84 => Some(NumericInstruction::Or(IntegerType::I64)),
        0x85 => Some(NumericInstruction::Xor(IntegerType::I64)),
        0x86 => Some(NumericInstruction::ShiftLeft(IntegerType::I64)),
        0x87 => Some(NumericInstruction::ShiftRight(IntegerType::I64, SignExtension::Signed)),
        0x88 => Some(NumericInstruction::ShiftRight(IntegerType::I64, SignExtension::Unsigned)),
        0x89 => Some(NumericInstruction::RotateLeft(IntegerType::I64)),
        0x8A => Some(NumericInstruction::RotateRight(IntegerType::I64)),
        0x8B => Some(NumericInstruction::AbsoluteValue(FloatType::F32)),
        0x8C => Some(NumericInstruction::Negate(FloatType::F32)),
        0x8D => Some(NumericInstruction::Ceiling(FloatType::F32)),
        0x8E => Some(NumericInstruction::Floor(FloatType::F32)),
        0x8F => Some(NumericInstruction::Truncate(FloatType::F32)),
        0x90 => Some(NumericInstruction::Nearest(FloatType::F32)),
        0x91 => Some(NumericInstruction::SquareRoot(FloatType::F32)),
        0x92 => Some(NumericInstruction::Add(NumberType::F32)),
        0x93 => Some(NumericInstruction::Subtract(NumberType::F32)),
        0x94 => Some(NumericInstruction::Multiply(NumberType::F32)),
        0x95 => Some(NumericInstruction::DivideFloat(FloatType::F32)),
        0x96 => Some(NumericInstruction::Minimum(FloatType::F32)),
        0x97 => Some(NumericInstruction::Maximum(FloatType::F32)),
        0x98 => Some(NumericInstruction::CopySign(FloatType::F32)),
        0x99 => Some(NumericInstruction::AbsoluteValue(FloatType::F64)),
        0x9A => Some(NumericInstruction::Negate(FloatType::F64)),
        0x9B => Some(NumericInstruction::Ceiling(FloatType::F64)),
        0x9C => Some(NumericInstruction::Floor(FloatType::F64)),
        0x9D => Some(NumericInstruction::Truncate(FloatType::F64)),
        0x9E => Some(NumericInstruction::Nearest(FloatType::F64)),
        0x9F => Some(NumericInstruction::SquareRoot(FloatType::F64)),
        0xA0 => Some(NumericInstruction::Add(NumberType::F64)),
        0xA1 => Some(NumericInstruction::Subtract(NumberType::F64)),
        0xA2 => Some(NumericInstruction::Multiply(NumberType::F64)),
        0xA3 => Some(NumericInstruction::DivideFloat(FloatType::F64)),
        0xA4 => Some(NumericInstruction::Minimum(FloatType::F64)),
        0xA5 => Some(NumericInstruction::Maximum(FloatType::F64)),
        0xA6 => Some(NumericInstruction::CopySign(FloatType::F64)),
        0xA7 => Some(NumericInstruction::Wrap),
        0xA8 => Some(
            NumericInstruction::ConvertAndTruncate(
                IntegerType::I32,
                FloatType::F32,
                SignExtension::Signed,
            ),
        ),
        0xA9 => Some(
            NumericInstruction::ConvertAndTruncate(
                IntegerType::I32,
                FloatType::F32,
                SignExtension::Unsigned,
            ),
        ),
        0xAA => Some(
            NumericInstruction::ConvertAndTruncate(
                IntegerType::I32,
                FloatType::F64,
                SignExtension::Signed,
            ),
        ),
        0xAB => Some(
            NumericInstruction::ConvertAndTruncate(
                IntegerType::I32,
                FloatType::F64,
                SignExtension::Unsigned,
            ),
        ),
        0xAC => Some(NumericInstruction::ExtendWithSignExtension(SignExtension::Signed)),
        0xAD => Some(NumericInstruction::ExtendWithSignExtension(SignExtension::Unsigned)),
        0xAE => Some(
            NumericInstruction::ConvertAndTruncate(
                IntegerType::I64,
                FloatType::F32,
                SignExtension::Signed,
            ),
        ),
        0xAF => Some(
            NumericInstruction::ConvertAndTruncate(
                IntegerType::I64,
                FloatType::F32,
                SignExtension::Unsigned,
            ),
        ),
        0xB0 => Some(
            NumericInstruction::ConvertAndTruncate(
                IntegerType::I64,
                FloatType::F64,
                SignExtension::Signed,
            ),
        ),
        0xB1 => Some(
            NumericInstruction::ConvertAndTruncate(
                IntegerType::I64,
                FloatType::F64,
                SignExtension::Unsigned,
            ),
        ),
        0xB2 => Some(
            NumericInstruction::Convert(FloatType::F32, IntegerType::I32, SignExtension::Signed),
        ),
        0xB3 => Some(
            NumericInstruction::Convert(FloatType::F32, IntegerType::I32, SignExtension::Unsigned),
        ),
        0xB4 => Some(
            NumericInstruction::Convert(FloatType::F32, IntegerType::I64, SignExtension::Signed),
        ),
        0xB5 => Some(
            NumericInstruction::Convert(FloatType::F32, IntegerType::I64, SignExtension::Unsigned),
        ),
        0xB6 => Some(NumericInstruction::Demote),
        0xB7 => Some(
            NumericInstruction::Convert(FloatType::F64, IntegerType::I32, SignExtension::Signed),
        ),
        0xB8 => Some(
            NumericInstruction::Convert(FloatType::F64, IntegerType::I32, SignExtension::Unsigned),
        ),
        0xB9 => Some(
            NumericInstruction::Convert(FloatType::F64, IntegerType::I64, SignExtension::Signed),
        ),
        0xBA => Some(
            NumericInstruction::Convert(FloatType::F64, IntegerType::I64, SignExtension::Unsigned),
        ),
        0xBB => Some(NumericInstruction::Promote),
        0xBC => Some(NumericInstruction::ReinterpretFloat(IntegerType::I32, FloatType::F32)),
        0xBD => Some(NumericInstruction::ReinterpretFloat(IntegerType::I64, FloatType::F64)),
        0xBE => Some(NumericInstruction::ReinterpretInteger(FloatType::F32, IntegerType::I32)),
        0xBF => Some(NumericInstruction::ReinterpretInteger(FloatType::F64, IntegerType::I64)),
        0xC0 => Some(NumericInstruction::ExtendSigned8(IntegerType::I32)),
        0xC1 => Some(NumericInstruction::ExtendSigned16(IntegerType::I32)),
        0xC2 => Some(NumericInstruction::ExtendSigned8(IntegerType::I64)),
        0xC3 => Some(NumericInstruction::ExtendSigned16(IntegerType::I64)),
        0xC4 => Some(NumericInstruction::ExtendSigned32),
        _ => None,
    }
}

/// The saturating truncation with the given secondary opcode, if there is one.
pub open spec fn saturating_of_code(code: nat) -> Option<NumericInstruction> {
    if code >= 8 {
        None
    } else {
        Some(
            NumericInstruction::ConvertAndTruncateWithSaturation(
                if code < 4 {
                    IntegerType::I32
                } else {
                    IntegerType::I64
                },
                if code % 4 < 2 {
                    FloatType::F32
                } else {
                    FloatType::F64
                },
                if code % 2 == 0 {
                    SignExtension::Signed
                } else {
                    SignExtension::Unsigned
                },
            ),
        )
    }
}

/// Reading back the opcode of a single-byte numeric instruction gives the
/// instruction.
pub proof fn lemma_numeric_opcode_round_trip(instruction: NumericInstruction)
    requires
        numeric_opcode(instruction) is Some,
    ensures
        numeric_of_opcode(numeric_opcode(instruction)->Some_0) == Some(instruction),
{
    match instruction {
        NumericInstruction::CountLeadingZeros(_) => {
            assert(numeric_of_opcode(numeric_opcode(instruction)->Some_0) == Some(instruction));
        },
        NumericInstruction::CountTrailingZeros(_) => {
            assert(numeric_of_opcode(numeric_opcode(instruction)->Some_0) == Some(instruction));
        },
        NumericInstruction::CountOnes(_) => {
            assert(numeric_of_opcode(numeric_opcode(instruction)->Some_0) == Some(instruction));
        },
        NumericInstruction::AbsoluteValue(_) => {
            assert(numeric_of_opcode(numeric_opcode(instruction)->Some_0) == Some(instruction));
        },
        NumericInstruction::Negate(_) => {
            assert(numeric_of_opcode(numeric_opcode(instruction)->Some_0) == Some(instruction));
        },
        NumericInstruction::SquareRoot(_) => {
            assert(numeric_of_opcode(numeric_opcode(instruction)->Some_0) == Some(instruction));
        },
        NumericInstruction::Ceiling(_) => {
            assert(numeric_of_opcode(numeric_opcode(instruction)->Some_0) == Some(instruction));
        },
        NumericInstruction::Floor(_) => {
            assert(numeric_of_opcode(numeric_opcode(instruction)->Some_0) == Some(instruction));
        },
        NumericInstruction::Truncate(_) => {
            assert(numeric_of_opcode(numeric_opcode(instruction)->Some_0) == Some(instruction));
        },
        NumericInstruction::Nearest(_) => {
            assert(numeric_of_opcode(numeric_opcode(instruction)->Some_0) == Some(instruction));
        },
        NumericInstruction::Add(_) => {
            assert(numeric_of_opcode(numeric_opcode(instruction)->Some_0) == Some(instruction));
        },
        NumericInstruction::Subtract(_) => {
            assert(numeric_of_opcode(numeric_opcode(instruction)->Some_0) == Some(instruction));
        },
        NumericInstruction::Multiply(_) => {
            assert(numeric_of_opcode(numeric_opcode(instruction)->Some_0) == Some(instruction));
        },
        NumericInstruction::DivideInteger(_, _) => {
            assert(numeric_of_opcode(numeric_opcode(instruction)->Some_0) == Some(instruction));
        },
        NumericInstruction::DivideFloat(_) => {
            assert(numeric_of_opcode(numeric_opcode(instruction)->Some_0) == Some(instruction));
        },
        NumericInstruction::Remainder(_, _) => {
            assert(numeric_of_opcode(numeric_opcode(instruction)->Some_0) == Some(instruction));
        },
        NumericInstruction::And(_) => {
            assert(numeric_of_opcode(numeric_opcode(instruction)->Some_0) == Some(instruction));
        },
        NumericInstruction::Or(_) => {
            assert(numeric_of_opcode(numeric_opcode(instruction)->Some_0) == Some(instruction));
        },
        NumericInstruction::Xor(_) => {
            assert(numeric_of_opcode(numeric_opcode(instruction)->Some_0) == Some(instruction));
        },
        NumericInstruction::ShiftLeft(_) => {
            assert(numeric_of_opcode(numeric_opcode(instruction)->Some_0) == Some(instruction));
        },
        NumericInstruction::ShiftRight(_, _) => {
            assert(numeric_of_opcode(numeric_opcode(instruction)->Some_0) == Some(instruction));
        },
        NumericInstruction::RotateLeft(_) => {
            assert(numeric_of_opcode(numeric_opcode(instruction)->Some_0) == Some(instruction));
        },
        NumericInstruction::RotateRight(_) => {
            assert(numeric_of_opcode(numeric_opcode(instruction)->Some_0) == Some(instruction));
        },
        NumericInstruction::Minimum(_) => {
            assert(numeric_of_opcode(numeric_opcode(instruction)->Some_0) == Some(instruction));
        },
        NumericInstruction::Maximum(_) => {
            assert(numeric_of_opcode(numeric_opcode(instruction)->Some_0) == Some(instruction));
        },
        NumericInstruction::CopySign(_) => {
            assert(numeric_of_opcode(numeric_opcode(instruction)->Some_0) == Some(instruction));
        },
        NumericInstruction::EqualToZero(_) => {
            assert(numeric_of_opcode(numeric_opcode(instruction)->Some_0) == Some(instruction));
        },
        NumericInstruction::Equal(_) => {
            assert(numeric_of_opcode(numeric_opcode(instruction)->Some_0) == Some(instruction));
        },
        NumericInstruction::NotEqual(_) => {
            assert(numeric_of_opcode(numeric_opcode(instruction)->Some_0) == Some(instruction));
        },
        NumericInstruction::LessThanInteger(_, _) => {
            assert(numeric_of_opcode(numeric_opcode(instruction)->Some_0) == Some(instruction));
        },
        NumericInstruction::LessThanFloat(_) => {
            assert(numeric_of_opcode(numeric_opcode(instruction)->Some_0) == Some(instruction));
        },
        NumericInstruction::GreaterThanInteger(_, _) => {
            assert(numeric_of_opcode(numeric_opcode(instruction)->Some_0) == Some(instruction));
        },
        NumericInstruction::GreaterThanFloat(_) => {
            assert(numeric_of_opcode(numeric_opcode(instruction)->Some_0) == Some(instruction));
        },
        NumericInstruction::LessThanOrEqualToInteger(_, _) => {
            assert(numeric_of_opcode(numeric_opcode(instruction)->Some_0) == Some(instruction));
        },
        NumericInstruction::LessThanOrEqualToFloat(_) => {
            assert(numeric_of_opcode(numeric_opcode(instruction)->Some_0) == Some(instruction));
        },
        NumericInstruction::GreaterThanOrEqualToInteger(_, _) => {
            assert(numeric_of_opcode(numeric_opcode(instruction)->Some_0) == Some(instruction));
        },
        NumericInstruction::GreaterThanOrEqualToFloat(_) => {
            assert(numeric_of_opcode(numeric_opcode(instruction)->Some_0) == Some(instruction));
        },
        NumericInstruction::ExtendSigned8(_) => {
            assert(numeric_of_opcode(numeric_opcode(instruction)->Some_0) == Some(instruction));
        },
        NumericInstruction::ExtendSigned16(_) => {
            assert(numeric_of_opcode(numeric_opcode(instruction)->Some_0) == Some(instruction));
        },
        NumericInstruction::ExtendSigned32 => {
            assert(numeric_of_opcode(numeric_opcode(instruction)->Some_0) == Some(instruction));
        },
        NumericInstruction::Wrap => {
            assert(numeric_of_opcode(numeric_opcode(instruction)->Some_0) == Some(instruction));
        },
        NumericInstruction::ExtendWithSignExtension(_) => {
            assert(numeric_of_opcode(numeric_opcode(instruction)->Some_0) == Some(instruction));
        },
        NumericInstruction::ConvertAndTruncate(_, _, _) => {
            assert(numeric_of_opcode(numeric_opcode(instruction)->Some_0) == Some(instruction));
        },
        NumericInstruction::Demote => {
            assert(numeric_of_opcode(numeric_opcode(instruction)->Some_0) == Some(instruction));
        },
        NumericInstruction::Promote => {
            assert(numeric_of_opcode(numeric_opcode(instruction)->Some_0) == Some(instruction));
        },
        NumericInstruction::Convert(_, _, _) => {
            assert(numeric_of_opcode(numeric_opcode(instruction)->Some_0) == Some(instruction));
        },
        NumericInstruction::ReinterpretFloat(_, _) => {
            assert(numeric_of_opcode(numeric_opcode(instruction)->Some_0) == Some(instruction));
        },
        NumericInstruction::ReinterpretInteger(_, _) => {
            assert(numeric_of_opcode(numeric_opcode(instruction)->Some_0) == Some(instruction));
        },
        _ => {},
    }
}

/// The opcodes from 0x45 to 0x54 are those of the instructions they stand for.
proof fn lemma_opcode_sound_first(opcode: u8)
    requires
        0x45 <= opcode <= 0x54,
    ensures
        numeric_of_opcode(opcode) is Some,
        numeric_opcode(numeric_of_opcode(opcode)->Some_0) == Some(opcode),
{
    match opcode {
        0x45 => {
            assert(numeric_opcode(
                NumericInstruction::EqualToZero(IntegerType::I32),
            ) == Some(0x45u8));
        },
        0x46 => {
            assert(numeric_opcode(NumericInstruction::Equal(NumberType::I32)) == Some(0x46u8));
        },
        0x47 => {
            assert(numeric_opcode(NumericInstruction::NotEqual(NumberType::I32)) == Some(0x47u8));
        },
        0x48 => {
            assert(numeric_opcode(
                NumericInstruction::LessThanInteger(IntegerType::I32, SignExtension::Signed),
            ) == Some(0x48u8));
        },
        0x49 => {
            assert(numeric_opcode(
                NumericInstruction::LessThanInteger(IntegerType::I32, SignExtension::Unsigned),
            ) == Some(0x49u8));
        },
        0x4A => {
            assert(numeric_opcode(
                NumericInstruction::GreaterThanInteger(IntegerType::I32, SignExtension::Signed),
            ) == Some(0x4Au8));
        },
        0x4B => {
            assert(numeric_opcode(
                NumericInstruction::GreaterThanInteger(IntegerType::I32, SignExtension::Unsigned),
            ) == Some(0x4Bu8));
        },
        0x4C => {
            assert(numeric_opcode(
                NumericInstruction::LessThanOrEqualToInteger(
                    IntegerType::I32,
                    SignExtension::Signed,
                ),
            ) == Some(0x4Cu8));
        },
        0x4D => {
            assert(numeric_opcode(
                NumericInstruction::LessThanOrEqualToInteger(
                    IntegerType::I32,
                    SignExtension::Unsigned,
                ),
            ) == Some(0x4Du8));
        },
        0x4E => {
            assert(numeric_opcode(
                NumericInstruction::GreaterThanOrEqualToInteger(
                    IntegerType::I32,
                    SignExtension::Signed,
                ),
            ) == Some(0x4Eu8));
        },
        0x4F => {
            assert(numeric_opcode(
                NumericInstruction::GreaterThanOrEqualToInteger(
                    IntegerType::I32,
                    SignExtension::Unsigned,
                ),
            ) == Some(0x4Fu8));
        },
        0x50 => {
            assert(numeric_opcode(
                NumericInstruction::EqualToZero(IntegerType::I64),
            ) == Some(0x50u8));
        },
        0x51 => {
            assert(numeric_opcode(NumericInstruction::Equal(NumberType::I64)) == Some(0x51u8));
        },
        0x52 => {
            assert(numeric_opcode(NumericInstruction::NotEqual(NumberType::I64)) == Some(0x52u8));
        },
        0x53 => {
            assert(numeric_opcode(
                NumericInstruction::LessThanInteger(IntegerType::I64, SignExtension::Signed),
            ) == Some(0x53u8));
        },
        0x54 => {
            assert(numeric_opcode(
                NumericInstruction::LessThanInteger(IntegerType::I64, SignExtension::Unsigned),
            ) == Some(0x54u8));
        },
        _ => {},
    }
}

/// The opcodes from 0x55 to 0x64 are those of the instructions they stand for.
proof fn lemma_opcode_sound_second(opcode: u8)
    requires
        0x55 <= opcode <= 0x64,
    ensures
        numeric_of_opcode(opcode) is Some,
        numeric_opcode(numeric_of_opcode(opcode)->Some_0) == Some(opcode),
{
    match opcode {
        0x55 => {
            assert(numeric_opcode(
                NumericInstruction::GreaterThanInteger(IntegerType::I64, SignExtension::Signed),
            ) == Some(0x55u8));
        },
        0x56 => {
            assert(numeric_opcode(
                NumericInstruction::GreaterThanInteger(IntegerType::I64, SignExtension::Unsigned),
            ) == Some(0x56u8));
        },
        0x57 => {
            assert(numeric_opcode(
                NumericInstruction::LessThanOrEqualToInteger(
                    IntegerType::I64,
                    SignExtension::Signed,
                ),
            ) == Some(0x57u8));
        },
        0x58 => {
            assert(numeric_opcode(
                NumericInstruction::LessThanOrEqualToInteger(
                    IntegerType::I64,
                    SignExtension::Unsigned,
                ),
            ) == Some(0x58u8));
        },
        0x59 => {
            assert(numeric_opcode(
                NumericInstruction::GreaterThanOrEqualToInteger(
                    IntegerType::I64,
                    SignExtension::Signed,
                ),
            ) == Some(0x59u8));
        },
        0x5A => {
            assert(numeric_opcode(
                NumericInstruction::GreaterThanOrEqualToInteger(
                    IntegerType::I64,
                    SignExtension::Unsigned,
                ),
            ) == Some(0x5Au8));
        },
        0x5B => {
            assert(numeric_opcode(NumericInstruction::Equal(NumberType::F32)) == Some(0x5Bu8));
        },
        0x5C => {
            assert(numeric_opcode(NumericInstruction::NotEqual(NumberType::F32)) == Some(0x5Cu8));
        },
        0x5D => {
            assert(numeric_opcode(
                NumericInstruction::LessThanFloat(FloatType::F32),
            ) == Some(0x5Du8));
        },
        0x5E => {
            assert(numeric_opcode(
                NumericInstruction::GreaterThanFloat(FloatType::F32),
            ) == Some(0x5Eu8));
        },
        0x5F => {
            assert(numeric_opcode(
                NumericInstruction::LessThanOrEqualToFloat(FloatType::F32),
            ) == Some(0x5Fu8));
        },
        0x60 => {
            assert(numeric_opcode(
                NumericInstruction::GreaterThanOrEqualToFloat(FloatType::F32),
            ) == Some(0x60u8));
        },
        0x61 => {
            assert(numeric_opcode(NumericInstruction::Equal(NumberType::F64)) == Some(0x61u8));
        },
        0x62 => {
            assert(numeric_opcode(NumericInstruction::NotEqual(NumberType::F64)) == Some(0x62u8));
        },
        0x63 => {
            assert(numeric_opcode(
                NumericInstruction::LessThanFloat(FloatType::F64),
            ) == Some(0x63u8));
        },
        0x64 => {
            assert(numeric_opcode(
                NumericInstruction::GreaterThanFloat(FloatType::F64),
            ) == Some(0x64u8));
        },
        _ => {},
    }
}

/// The opcodes from 0x65 to 0x74 are those of the instructions they stand for.
proof fn lemma_opcode_sound_third(opcode: u8)
    requires
        0x65 <= opcode <= 0x74,
    ensures
        numeric_of_opcode(opcode) is Some,
        numeric_opcode(numeric_of_opcode(opcode)->Some_0) == Some(opcode),
{
    match opcode {
        0x65 => {
            assert(numeric_opcode(
                NumericInstruction::LessThanOrEqualToFloat(FloatType::F64),
            ) == Some(0x65u8));
        },
        0x66 => {
            assert(numeric_opcode(
                NumericInstruction::GreaterThanOrEqualToFloat(FloatType::F64),
            ) == Some(0x66u8));
        },
        0x67 => {
            assert(numeric_opcode(
                NumericInstruction::CountLeadingZeros(IntegerType::I32),
            ) == Some(0x67u8));
        },
        0x68 => {
            assert(numeric_opcode(
                NumericInstruction::CountTrailingZeros(IntegerType::I32),
            ) == Some(0x68u8));
        },
        0x69 => {
            assert(numeric_opcode(NumericInstruction::CountOnes(IntegerType::I32)) == Some(0x69u8));
        },
        0x6A => {
            assert(numeric_opcode(NumericInstruction::Add(NumberType::I32)) == Some(0x6Au8));
        },
        0x6B => {
            assert(numeric_opcode(NumericInstruction::Subtract(NumberType::I32)) == Some(0x6Bu8));
        },
        0x6C => {
            assert(numeric_opcode(NumericInstruction::Multiply(NumberType::I32)) == Some(0x6Cu8));
        },
        0x6D => {
            assert(numeric_opcode(
                NumericInstruction::DivideInteger(IntegerType::I32, SignExtension::Signed),
            ) == Some(0x6Du8));
        },
        0x6E => {
            assert(numeric_opcode(
                NumericInstruction::DivideInteger(IntegerType::I32, SignExtension::Unsigned),
            ) == Some(0x6Eu8));
        },
        0x6F => {
            assert(numeric_opcode(
                NumericInstruction::Remainder(IntegerType::I32, SignExtension::Signed),
            ) == Some(0x6Fu8));
        },
        0x70 => {
            assert(numeric_opcode(
                NumericInstruction::Remainder(IntegerType::I32, SignExtension::Unsigned),
            ) == Some(0x70u8));
        },
        0x71 => {
            assert(numeric_opcode(NumericInstruction::And(IntegerType::I32)) == Some(0x71u8));
        },
        0x72 => {
            assert(numeric_opcode(NumericInstruction::Or(IntegerType::I32)) == Some(0x72u8));
        },
        0x73 => {
            assert(numeric_opcode(NumericInstruction::Xor(IntegerType::I32)) == Some(0x73u8));
        },
        0x74 => {
            assert(numeric_opcode(NumericInstruction::ShiftLeft(IntegerType::I32)) == Some(0x74u8));
        },
        _ => {},
    }
}

/// The opcodes from 0x75 to 0x84 are those of the instructions they stand for.
proof fn lemma_opcode_sound_fourth(opcode: u8)
    requires
        0x75 <= opcode <= 0x84,
    ensures
        numeric_of_opcode(opcode) is Some,
        numeric_opcode(numeric_of_opcode(opcode)->Some_0) == Some(opcode),
{
    match opcode {
        0x75 => {
            assert(numeric_opcode(
                NumericInstruction::ShiftRight(IntegerType::I32, SignExtension::Signed),
            ) == Some(0x75u8));
        },
        0x76 => {
            assert(numeric_opcode(
                NumericInstruction::ShiftRight(IntegerType::I32, SignExtension::Unsigned),
            ) == Some(0x76u8));
        },
        0x77 => {
            assert(numeric_opcode(
                NumericInstruction::RotateLeft(IntegerType::I32),
            ) == Some(0x77u8));
        },
        0x78 => {
            assert(numeric_opcode(
                NumericInstruction::RotateRight(IntegerType::I32),
            ) == Some(0x78u8));
        },
        0x79 => {
            assert(numeric_opcode(
                NumericInstruction::CountLeadingZeros(IntegerType::I64),
            ) == Some(0x79u8));
        },
        0x7A => {
            assert(numeric_opcode(
                NumericInstruction::CountTrailingZeros(IntegerType::I64),
            ) == Some(0x7Au8));
        },
        0x7B => {
            assert(numeric_opcode(NumericInstruction::CountOnes(IntegerType::I64)) == Some(0x7Bu8));
        },
        0x7C => {
            assert(numeric_opcode(NumericInstruction::Add(NumberType::I64)) == Some(0x7Cu8));
        },
        0x7D => {
            assert(numeric_opcode(NumericInstruction::Subtract(NumberType::I64)) == Some(0x7Du8));
        },
        0x7E => {
            assert(numeric_opcode(NumericInstruction::Multiply(NumberType::I64)) == Some(0x7Eu8));
        },
        0x7F => {
            assert(numeric_opcode(
                NumericInstruction::DivideInteger(IntegerType::I64, SignExtension::Signed),
            ) == Some(0x7Fu8));
        },
        0x80 => {
            assert(numeric_opcode(
                NumericInstruction::DivideInteger(IntegerType::I64, SignExtension::Unsigned),
            ) == Some(0x80u8));
        },
        0x81 => {
            assert(numeric_opcode(
                NumericInstruction::Remainder(IntegerType::I64, SignExtension::Signed),
            ) == Some(0x81u8));
        },
        0x82 => {
            assert(numeric_opcode(
                NumericInstruction::Remainder(IntegerType::I64, SignExtension::Unsigned),
            ) == Some(0x82u8));
        },
        0x83 => {
            assert(numeric_opcode(NumericInstruction::And(IntegerType::I64)) == Some(0x83u8));
        },
        0x84 => {
            assert(numeric_opcode(NumericInstruction::Or(IntegerType::I64)) == Some(0x84u8));
        },
        _ => {},
    }
}

/// The opcodes from 0x85 to 0x94 are those of the instructions they stand for.
proof fn lemma_opcode_sound_fifth(opcode: u8)
    requires
        0x85 <= opcode <= 0x94,
    ensures
        numeric_of_opcode(opcode) is Some,
        numeric_opcode(numeric_of_opcode(opcode)->Some_0) == Some(opcode),
{
    match opcode {
        0x85 => {
            assert(numeric_opcode(NumericInstruction::Xor(IntegerType::I64)) == Some(0x85u8));
        },
        0x86 => {
            assert(numeric_opcode(NumericInstruction::ShiftLeft(IntegerType::I64)) == Some(0x86u8));
        },
        0x87 => {
            assert(numeric_opcode(
                NumericInstruction::ShiftRight(IntegerType::I64, SignExtension::Signed),
            ) == Some(0x87u8));
        },
        0x88 => {
            assert(numeric_opcode(
                NumericInstruction::ShiftRight(IntegerType::I64, SignExtension::Unsigned),
            ) == Some(0x88u8));
        },
        0x89 => {
            assert(numeric_opcode(
                NumericInstruction::RotateLeft(IntegerType::I64),
            ) == Some(0x89u8));
        },
        0x8A => {
            assert(numeric_opcode(
                NumericInstruction::RotateRight(IntegerType::I64),
            ) == Some(0x8Au8));
        },
        0x8B => {
            assert(numeric_opcode(
                NumericInstruction::AbsoluteValue(FloatType::F32),
            ) == Some(0x8Bu8));
        },
        0x8C => {
            assert(numeric_opcode(NumericInstruction::Negate(FloatType::F32)) == Some(0x8Cu8));
        },
        0x8D => {
            assert(numeric_opcode(NumericInstruction::Ceiling(FloatType::F32)) == Some(0x8Du8));
        },
        0x8E => {
            assert(numeric_opcode(NumericInstruction::Floor(FloatType::F32)) == Some(0x8Eu8));
        },
        0x8F => {
            assert(numeric_opcode(NumericInstruction::Truncate(FloatType::F32)) == Some(0x8Fu8));
        },
        0x90 => {
            assert(numeric_opcode(NumericInstruction::Nearest(FloatType::F32)) == Some(0x90u8));
        },
        0x91 => {
            assert(numeric_opcode(NumericInstruction::SquareRoot(FloatType::F32)) == Some(0x91u8));
        },
        0x92 => {
            assert(numeric_opcode(NumericInstruction::Add(NumberType::F32)) == Some(0x92u8));
        },
        0x93 => {
            assert(numeric_opcode(NumericInstruction::Subtract(NumberType::F32)) == Some(0x93u8));
        },
        0x94 => {
            assert(numeric_opcode(NumericInstruction::Multiply(NumberType::F32)) == Some(0x94u8));
        },
        _ => {},
    }
}

/// The opcodes from 0x95 to 0xA4 are those of the instructions they stand for.
proof fn lemma_opcode_sound_sixth(opcode: u8)
    requires
        0x95 <= opcode <= 0xA4,
    ensures
        numeric_of_opcode(opcode) is Some,
        numeric_opcode(numeric_of_opcode(opcode)->Some_0) == Some(opcode),
{
    match opcode {
        0x95 => {
            assert(numeric_opcode(NumericInstruction::DivideFloat(FloatType::F32)) == Some(0x95u8));
        },
        0x96 => {
            assert(numeric_opcode(NumericInstruction::Minimum(FloatType::F32)) == Some(0x96u8));
        },
        0x97 => {
            assert(numeric_opcode(NumericInstruction::Maximum(FloatType::F32)) == Some(0x97u8));
        },
        0x98 => {
            assert(numeric_opcode(NumericInstruction::CopySign(FloatType::F32)) == Some(0x98u8));
        },
        0x99 => {
            assert(numeric_opcode(
                NumericInstruction::AbsoluteValue(FloatType::F64),
            ) == Some(0x99u8));
        },
        0x9A => {
            assert(numeric_opcode(NumericInstruction::Negate(FloatType::F64)) == Some(0x9Au8));
        },
        0x9B => {
            assert(numeric_opcode(NumericInstruction::Ceiling(FloatType::F64)) == Some(0x9Bu8));
        },
        0x9C => {
            assert(numeric_opcode(NumericInstruction::Floor(FloatType::F64)) == Some(0x9Cu8));
        },
        0x9D => {
            assert(numeric_opcode(NumericInstruction::Truncate(FloatType::F64)) == Some(0x9Du8));
        },
        0x9E => {
            assert(numeric_opcode(NumericInstruction::Nearest(FloatType::F64)) == Some(0x9Eu8));
        },
        0x9F => {
            assert(numeric_opcode(NumericInstruction::SquareRoot(FloatType::F64)) == Some(0x9Fu8));
        },
        0xA0 => {
            assert(numeric_opcode(NumericInstruction::Add(NumberType::F64)) == Some(0xA0u8));
        },
        0xA1 => {
            assert(numeric_opcode(NumericInstruction::Subtract(NumberType::F64)) == Some(0xA1u8));
        },
        0xA2 => {
            assert(numeric_opcode(NumericInstruction::Multiply(NumberType::F64)) == Some(0xA2u8));
        },
        0xA3 => {
            assert(numeric_opcode(NumericInstruction::DivideFloat(FloatType::F64)) == Some(0xA3u8));
        },
        0xA4 => {
            assert(numeric_opcode(NumericInstruction::Minimum(FloatType::F64)) == Some(0xA4u8));
        },
        _ => {},
    }
}

/// The opcodes from 0xA5 to 0xB4 are those of the instructions they stand for.
proof fn lemma_opcode_sound_seventh(opcode: u8)
    requires
        0xA5 <= opcode <= 0xB4,
    ensures
        numeric_of_opcode(opcode) is Some,
        numeric_opcode(numeric_of_opcode(opcode)->Some_0) == Some(opcode),
{
    match opcode {
        0xA5 => {
            assert(numeric_opcode(NumericInstruction::Maximum(FloatType::F64)) == Some(0xA5u8));
        },
        0xA6 => {
            assert(numeric_opcode(NumericInstruction::CopySign(FloatType::F64)) == Some(0xA6u8));
        },
        0xA7 => {
            assert(numeric_opcode(NumericInstruction::Wrap) == Some(0xA7u8));
        },
        0xA8 => {
            assert(numeric_opcode(
                NumericInstruction::ConvertAndTruncate(
                    IntegerType::I32,
                    FloatType::F32,
                    SignExtension::Signed,
                ),
            ) == Some(0xA8u8));
        },
        0xA9 => {
            assert(numeric_opcode(
                NumericInstruction::ConvertAndTruncate(
                    IntegerType::I32,
                    FloatType::F32,
                    SignExtension::Unsigned,
                ),
            ) == Some(0xA9u8));
        },
        0xAA => {
            assert(numeric_opcode(
                NumericInstruction::ConvertAndTruncate(
                    IntegerType::I32,
                    FloatType::F64,
                    SignExtension::Signed,
                ),
            ) == Some(0xAAu8));
        },
        0xAB => {
            assert(numeric_opcode(
                NumericInstruction::ConvertAndTruncate(
                    IntegerType::I32,
                    FloatType::F64,
                    SignExtension::Unsigned,
                ),
            ) == Some(0xABu8));
        },
        0xAC => {
            assert(numeric_opcode(
                NumericInstruction::ExtendWithSignExtension(SignExtension::Signed),
            ) == Some(0xACu8));
        },
        0xAD => {
            assert(numeric_opcode(
                NumericInstruction::ExtendWithSignExtension(SignExtension::Unsigned),
            ) == Some(0xADu8));
        },
        0xAE => {
            assert(numeric_opcode(
                NumericInstruction::ConvertAndTruncate(
                    IntegerType::I64,
                    FloatType::F32,
                    SignExtension::Signed,
                ),
            ) == Some(0xAEu8));
        },
        0xAF => {
            assert(numeric_opcode(
                NumericInstruction::ConvertAndTruncate(
                    IntegerType::I64,
                    FloatType::F32,
                    SignExtension::Unsigned,
                ),
            ) == Some(0xAFu8));
        },
        0xB0 => {
            assert(numeric_opcode(
                NumericInstruction::ConvertAndTruncate(
                    IntegerType::I64,
                    FloatType::F64,
                    SignExtension::Signed,
                ),
            ) == Some(0xB0u8));
        },
        0xB1 => {
            assert(numeric_opcode(
                NumericInstruction::ConvertAndTruncate(
                    IntegerType::I64,
                    FloatType::F64,
                    SignExtension::Unsigned,
                ),
            ) == Some(0xB1u8));
        },
        0xB2 => {
            assert(numeric_opcode(
                NumericInstruction::Convert(
                    FloatType::F32,
                    IntegerType::I32,
                    SignExtension::Signed,
                ),
            ) == Some(0xB2u8));
        },
        0xB3 => {
            assert(numeric_opcode(
                NumericInstruction::Convert(
                    FloatType::F32,
                    IntegerType::I32,
                    SignExtension::Unsigned,
                ),
            ) == Some(0xB3u8));
        },
        0xB4 => {
            assert(numeric_opcode(
                NumericInstruction::Convert(
                    FloatType::F32,
                    IntegerType::I64,
                    SignExtension::Signed,
                ),
            ) == Some(0xB4u8));
        },
        _ => {},
    }
}

/// The opcodes from 0xB5 to 0xC4 are those of the instructions they stand for.
proof fn lemma_opcode_sound_eighth(opcode: u8)
    requires
        0xB5 <= opcode <= 0xC4,
    ensures
        numeric_of_opcode(opcode) is Some,
        numeric_opcode(numeric_of_opcode(opcode)->Some_0) == Some(opcode),
{
    match opcode {
        0xB5 => {
            assert(numeric_opcode(
                NumericInstruction::Convert(
                    FloatType::F32,
                    IntegerType::I64,
                    SignExtension::Unsigned,
                ),
            ) == Some(0xB5u8));
        },
        0xB6 => {
            assert(numeric_opcode(NumericInstruction::Demote) == Some(0xB6u8));
        },
        0xB7 => {
            assert(numeric_opcode(
                NumericInstruction::Convert(
                    FloatType::F64,
                    IntegerType::I32,
                    SignExtension::Signed,
                ),
            ) == Some(0xB7u8));
        },
        0xB8 => {
            assert(numeric_opcode(
                NumericInstruction::Convert(
                    FloatType::F64,
                    IntegerType::I32,
                    SignExtension::Unsigned,
                ),
            ) == Some(0xB8u8));
        },
        0xB9 => {
            assert(numeric_opcode(
                NumericInstruction::Convert(
                    FloatType::F64,
                    IntegerType::I64,
                    SignExtension::Signed,
                ),
            ) == Some(0xB9u8));
        },
        0xBA => {
            assert(numeric_opcode(
                NumericInstruction::Convert(
                    FloatType::F64,
                    IntegerType::I64,
                    SignExtension::Unsigned,
                ),
            ) == Some(0xBAu8));
        },
        0xBB => {
            assert(numeric_opcode(NumericInstruction::Promote) == Some(0xBBu8));
        },
        0xBC => {
            assert(numeric_opcode(
                NumericInstruction::ReinterpretFloat(IntegerType::I32, FloatType::F32),
            ) == Some(0xBCu8));
        },
        0xBD => {
            assert(numeric_opcode(
                NumericInstruction::ReinterpretFloat(IntegerType::I64, FloatType::F64),
            ) == Some(0xBDu8));
        },
        0xBE => {
            assert(numeric_opcode(
                NumericInstruction::ReinterpretInteger(FloatType::F32, IntegerType::I32),
            ) == Some(0xBEu8));
        },
        0xBF => {
            assert(numeric_opcode(
                NumericInstruction::ReinterpretInteger(FloatType::F64, IntegerType::I64),
            ) == Some(0xBFu8));
        },
        0xC0 => {
            assert(numeric_opcode(
                NumericInstruction::ExtendSigned8(IntegerType::I32),
            ) == Some(0xC0u8));
        },
        0xC1 => {
            assert(numeric_opcode(
                NumericInstruction::ExtendSigned16(IntegerType::I32),
            ) == Some(0xC1u8));
        },
        0xC2 => {
            assert(numeric_opcode(
                NumericInstruction::ExtendSigned8(IntegerType::I64),
            ) == Some(0xC2u8));
        },
        0xC3 => {
            assert(numeric_opcode(
                NumericInstruction::ExtendSigned16(IntegerType::I64),
            ) == Some(0xC3u8));
        },
        0xC4 => {
            assert(numeric_opcode(NumericInstruction::ExtendSigned32) == Some(0xC4u8));
        },
        _ => {},
    }
}

/// A byte that stands for a single-byte numeric instruction is the opcode
/// of that instruction.
pub proof fn lemma_numeric_of_opcode_sound(opcode: u8)
    requires
        numeric_of_opcode(opcode) is Some,
    ensures
        numeric_opcode(numeric_of_opcode(opcode)->Some_0) == Some(opcode),
{
    if 0x45 <= opcode <= 0x54 {
        lemma_opcode_sound_first(opcode);
    } else if 0x55 <= opcode <= 0x64 {
        lemma_opcode_sound_second(opcode);
    } else if 0x65 <= opcode <= 0x74 {
        lemma_opcode_sound_third(opcode);
    } else if 0x75 <= opcode <= 0x84 {
        lemma_opcode_sound_fourth(opcode);
    } else if 0x85 <= opcode <= 0x94 {
        lemma_opcode_sound_fifth(opcode);
    } else if 0x95 <= opcode <= 0xA4 {
        lemma_opcode_sound_sixth(opcode);
    } else if 0xA5 <= opcode <= 0xB4 {
        lemma_opcode_sound_seventh(opcode);
    } else if 0xB5 <= opcode <= 0xC4 {
        lemma_opcode_sound_eighth(opcode);
    }
}

/// A secondary opcode that stands for a saturating truncation is the code
/// of that instruction.
pub proof fn lemma_saturating_of_code_sound(code: nat)
    requires
        code < 8,
    ensures
        saturating_of_code(code) matches Some(
            NumericInstruction::ConvertAndTruncateWithSaturation(to, from, sign),
        ) && saturating_code(to, from, sign) == code,
{
}

/// Reading back the secondary opcode of a saturating truncation gives the
/// instruction.
pub proof fn lemma_saturating_code_round_trip(to: IntegerType, from: FloatType, sign: SignExtension)
    ensures
        saturating_code(to, from, sign) < 8,
        saturating_of_code(saturating_code(to, from, sign) as nat) == Some(
            NumericInstruction::ConvertAndTruncateWithSaturation(to, from, sign),
        ),
{
}

/// The single-byte numeric opcodes fill one range, apart from all other
/// opcodes and from the markers.
pub proof fn lemma_numeric_opcode_range(instruction: NumericInstruction)
    ensures
        numeric_opcode(instruction) matches Some(opcode) ==> 0x45 <= opcode <= 0xC4,
{
    match instruction {
        NumericInstruction::CountLeadingZeros(_) => {
            assert(numeric_opcode(instruction) matches Some(opcode) ==> 0x45 <= opcode <= 0xC4);
        },
        NumericInstruction::CountTrailingZeros(_) => {
            assert(numeric_opcode(instruction) matches Some(opcode) ==> 0x45 <= opcode <= 0xC4);
        },
        NumericInstruction::CountOnes(_) => {
            assert(numeric_opcode(instruction) matches Some(opcode) ==> 0x45 <= opcode <= 0xC4);
        },
        NumericInstruction::AbsoluteValue(_) => {
            assert(numeric_opcode(instruction) matches Some(opcode) ==> 0x45 <= opcode <= 0xC4);
        },
        NumericInstruction::Negate(_) => {
            assert(numeric_opcode(instruction) matches Some(opcode) ==> 0x45 <= opcode <= 0xC4);
        },
        NumericInstruction::SquareRoot(_) => {
            assert(numeric_opcode(instruction) matches Some(opcode) ==> 0x45 <= opcode <= 0xC4);
        },
        NumericInstruction::Ceiling(_) => {
            assert(numeric_opcode(instruction) matches Some(opcode) ==> 0x45 <= opcode <= 0xC4);
        },
        NumericInstruction::Floor(_) => {
            assert(numeric_opcode(instruction) matches Some(opcode) ==> 0x45 <= opcode <= 0xC4);
        },
        NumericInstruction::Truncate(_) => {
            assert(numeric_opcode(instruction) matches Some(opcode) ==> 0x45 <= opcode <= 0xC4);
        },
        NumericInstruction::Nearest(_) => {
            assert(numeric_opcode(instruction) matches Some(opcode) ==> 0x45 <= opcode <= 0xC4);
        },
        NumericInstruction::Add(_) => {
            assert(numeric_opcode(instruction) matches Some(opcode) ==> 0x45 <= opcode <= 0xC4);
        },
        NumericInstruction::Subtract(_) => {
            assert(numeric_opcode(instruction) matches Some(opcode) ==> 0x45 <= opcode <= 0xC4);
        },
        NumericInstruction::Multiply(_) => {
            assert(numeric_opcode(instruction) matches Some(opcode) ==> 0x45 <= opcode <= 0xC4);
        },
        NumericInstruction::DivideInteger(_, _) => {
            assert(numeric_opcode(instruction) matches Some(opcode) ==> 0x45 <= opcode <= 0xC4);
        },
        NumericInstruction::DivideFloat(_) => {
            assert(numeric_opcode(instruction) matches Some(opcode) ==> 0x45 <= opcode <= 0xC4);
        },
        NumericInstruction::Remainder(_, _) => {
            assert(numeric_opcode(instruction) matches Some(opcode) ==> 0x45 <= opcode <= 0xC4);
        },
        NumericInstruction::And(_) => {
            assert(numeric_opcode(instruction) matches Some(opcode) ==> 0x45 <= opcode <= 0xC4);
        },
        NumericInstruction::Or(_) => {
            assert(numeric_opcode(instruction) matches Some(opcode) ==> 0x45 <= opcode <= 0xC4);
        },
        NumericInstruction::Xor(_) => {
            assert(numeric_opcode(instruction) matches Some(opcode) ==> 0x45 <= opcode <= 0xC4);
        },
        NumericInstruction::ShiftLeft(_) => {
            assert(numeric_opcode(instruction) matches Some(opcode) ==> 0x45 <= opcode <= 0xC4);
        },
        NumericInstruction::ShiftRight(_, _) => {
            assert(numeric_opcode(instruction) matches Some(opcode) ==> 0x45 <= opcode <= 0xC4);
        },
        NumericInstruction::RotateLeft(_) => {
            assert(numeric_opcode(instruction) matches Some(opcode) ==> 0x45 <= opcode <= 0xC4);
        },
        NumericInstruction::RotateRight(_) => {
            assert(numeric_opcode(instruction) matches Some(opcode) ==> 0x45 <= opcode <= 0xC4);
        },
        NumericInstruction::Minimum(_) => {
            assert(numeric_opcode(instruction) matches Some(opcode) ==> 0x45 <= opcode <= 0xC4);
        },
        NumericInstruction::Maximum(_) => {
            assert(numeric_opcode(instruction) matches Some(opcode) ==> 0x45 <= opcode <= 0xC4);
        },
        NumericInstruction::CopySign(_) => {
            assert(numeric_opcode(instruction) matches Some(opcode) ==> 0x45 <= opcode <= 0xC4);
        },
        NumericInstruction::EqualToZero(_) => {
            assert(numeric_opcode(instruction) matches Some(opcode) ==> 0x45 <= opcode <= 0xC4);
        },
        NumericInstruction::Equal(_) => {
            assert(numeric_opcode(instruction) matches Some(opcode) ==> 0x45 <= opcode <= 0xC4);
        },
        NumericInstruction::NotEqual(_) => {
            assert(numeric_opcode(instruction) matches Some(opcode) ==> 0x45 <= opcode <= 0xC4);
        },
        NumericInstruction::LessThanInteger(_, _) => {
            assert(numeric_opcode(instruction) matches Some(opcode) ==> 0x45 <= opcode <= 0xC4);
        },
        NumericInstruction::LessThanFloat(_) => {
            assert(numeric_opcode(instruction) matches Some(opcode) ==> 0x45 <= opcode <= 0xC4);
        },
        NumericInstruction::GreaterThanInteger(_, _) => {
            assert(numeric_opcode(instruction) matches Some(opcode) ==> 0x45 <= opcode <= 0xC4);
        },
        NumericInstruction::GreaterThanFloat(_) => {
            assert(numeric_opcode(instruction) matches Some(opcode) ==> 0x45 <= opcode <= 0xC4);
        },
        NumericInstruction::LessThanOrEqualToInteger(_, _) => {
            assert(numeric_opcode(instruction) matches Some(opcode) ==> 0x45 <= opcode <= 0xC4);
        },
        NumericInstruction::LessThanOrEqualToFloat(_) => {
            assert(numeric_opcode(instruction) matches Some(opcode) ==> 0x45 <= opcode <= 0xC4);
        },
        NumericInstruction::GreaterThanOrEqualToInteger(_, _) => {
            assert(numeric_opcode(instruction) matches Some(opcode) ==> 0x45 <= opcode <= 0xC4);
        },
        NumericInstruction::GreaterThanOrEqualToFloat(_) => {
            assert(numeric_opcode(instruction) matches Some(opcode) ==> 0x45 <= opcode <= 0xC4);
        },
        NumericInstruction::ExtendSigned8(_) => {
            assert(numeric_opcode(instruction) matches Some(opcode) ==> 0x45 <= opcode <= 0xC4);
        },
        NumericInstruction::ExtendSigned16(_) => {
            assert(numeric_opcode(instruction) matches Some(opcode) ==> 0x45 <= opcode <= 0xC4);
        },
        NumericInstruction::ExtendSigned32 => {
            assert(numeric_opcode(instruction) matches Some(opcode) ==> 0x45 <= opcode <= 0xC4);
        },
        NumericInstruction::Wrap => {
            assert(numeric_opcode(instruction) matches Some(opcode) ==> 0x45 <= opcode <= 0xC4);
        },
        NumericInstruction::ExtendWithSignExtension(_) => {
            assert(numeric_opcode(instruction) matches Some(opcode) ==> 0x45 <= opcode <= 0xC4);
        },
        NumericInstruction::ConvertAndTruncate(_, _, _) => {
            assert(numeric_opcode(instruction) matches Some(opcode) ==> 0x45 <= opcode <= 0xC4);
        },
        NumericInstruction::Demote => {
            assert(numeric_opcode(instruction) matches Some(opcode) ==> 0x45 <= opcode <= 0xC4);
        },
        NumericInstruction::Promote => {
            assert(numeric_opcode(instruction) matches Some(opcode) ==> 0x45 <= opcode <= 0xC4);
        },
        NumericInstruction::Convert(_, _, _) => {
            assert(numeric_opcode(instruction) matches Some(opcode) ==> 0x45 <= opcode <= 0xC4);
        },
        NumericInstruction::ReinterpretFloat(_, _) => {
            assert(numeric_opcode(instruction) matches Some(opcode) ==> 0x45 <= opcode <= 0xC4);
        },
        NumericInstruction::ReinterpretInteger(_, _) => {
            assert(numeric_opcode(instruction) matches Some(opcode) ==> 0x45 <= opcode <= 0xC4);
        },
        _ => {},
    }
}

pub(crate) fn pick_integer(kind: IntegerType, narrow: u8, wide: u8) -> (code: u8)
    ensures
        code == by_integer(kind, narrow, wide),
{
    match kind {
        IntegerType::I32 => narrow,
        IntegerType::I64 => wide,
    }
}

pub(crate) fn pick_float(kind: FloatType, narrow: u8, wide: u8) -> (code: u8)
    ensures
        code == by_float(kind, narrow, wide),
{
    match kind {
        FloatType::F32 => narrow,
        FloatType::F64 => wide,
    }
}

pub(crate) fn pick_number(
    kind: NumberType,
    i32_code: u8,
    i64_code: u8,
    f32_code: u8,
    f64_code: u8,
) -> (code: u8)
    ensures
        code == by_number(kind, i32_code, i64_code, f32_code, f64_code),
{
    match kind {
        NumberType::I32 => i32_code,
        NumberType::I64 => i64_code,
        NumberType::F32 => f32_code,
        NumberType::F64 => f64_code,
    }
}

pub(crate) fn pick_sign(sign: SignExtension, signed: u8) -> (code: u8)
    requires
        signed < 255,
    ensures
        code == by_sign(sign, signed),
{
    match sign {
        SignExtension::Signed => signed,
        SignExtension::Unsigned => signed + 1,
    }
}

/// The opcode of a numeric instruction that is a single byte on the wire.
pub fn opcode_of_numeric(instruction: &NumericInstruction) -> (opcode: Option<u8>)
    ensures
        opcode == numeric_opcode(*instruction),
{
    match *instruction {
        NumericInstruction::CountLeadingZeros(kind) => {
            return Some(pick_integer(kind, 0x67, 0x79));
        },
        NumericInstruction::CountTrailingZeros(kind) => {
            return Some(pick_integer(kind, 0x68, 0x7A));
        },
        NumericInstruction::CountOnes(kind) => { return Some(pick_integer(kind, 0x69, 0x7B)); },
        NumericInstruction::AbsoluteValue(kind) => { return Some(pick_float(kind, 0x8B, 0x99)); },
        NumericInstruction::Negate(kind) => { return Some(pick_float(kind, 0x8C, 0x9A)); },
        NumericInstruction::SquareRoot(kind) => { return Some(pick_float(kind, 0x91, 0x9F)); },
        NumericInstruction::Ceiling(kind) => { return Some(pick_float(kind, 0x8D, 0x9B)); },
        NumericInstruction::Floor(kind) => { return Some(pick_float(kind, 0x8E, 0x9C)); },
        NumericInstruction::Truncate(kind) => { return Some(pick_float(kind, 0x8F, 0x9D)); },
        NumericInstruction::Nearest(kind) => { return Some(pick_float(kind, 0x90, 0x9E)); },
        NumericInstruction::Add(kind) => {
            return Some(pick_number(kind, 0x6A, 0x7C, 0x92, 0xA0));
        },
        NumericInstruction::Subtract(kind) => {
            return Some(pick_number(kind, 0x6B, 0x7D, 0x93, 0xA1));
        },
        NumericInstruction::Multiply(kind) => {
            return Some(pick_number(kind, 0x6C, 0x7E, 0x94, 0xA2));
        },
        NumericInstruction::DivideInteger(kind, sign) => {
            return Some(pick_sign(sign, pick_integer(kind, 0x6D, 0x7F)));
        },
        NumericInstruction::DivideFloat(kind) => { return Some(pick_float(kind, 0x95, 0xA3)); },
        NumericInstruction::Remainder(kind, sign) => {
            return Some(pick_sign(sign, pick_integer(kind, 0x6F, 0x81)));
        },
        NumericInstruction::And(kind) => { return Some(pick_integer(kind, 0x71, 0x83)); },
        NumericInstruction::Or(kind) => { return Some(pick_integer(kind, 0x72, 0x84)); },
        NumericInstruction::Xor(kind) => { return Some(pick_integer(kind, 0x73, 0x85)); },
        NumericInstruction::ShiftLeft(kind) => { return Some(pick_integer(kind, 0x74, 0x86)); },
        NumericInstruction::ShiftRight(kind, sign) => {
            return Some(pick_sign(sign, pick_integer(kind, 0x75, 0x87)));
        },
        NumericInstruction::RotateLeft(kind) => { return Some(pick_integer(kind, 0x77, 0x89)); },
        NumericInstruction::RotateRight(kind) => { return Some(pick_integer(kind, 0x78, 0x8A)); },
        NumericInstruction::Minimum(kind) => { return Some(pick_float(kind, 0x96, 0xA4)); },
        NumericInstruction::Maximum(kind) => { return Some(pick_float(kind, 0x97, 0xA5)); },
        NumericInstruction::CopySign(kind) => { return Some(pick_float(kind, 0x98, 0xA6)); },
        NumericInstruction::EqualToZero(kind) => { return Some(pick_integer(kind, 0x45, 0x50)); },
        NumericInstruction::Equal(kind) => {
            return Some(pick_number(kind, 0x46, 0x51, 0x5B, 0x61));
        },
        NumericInstruction::NotEqual(kind) => {
            return Some(pick_number(kind, 0x47, 0x52, 0x5C, 0x62));
        },
        NumericInstruction::LessThanInteger(kind, sign) => {
            return Some(pick_sign(sign, pick_integer(kind, 0x48, 0x53)));
        },
        NumericInstruction::LessThanFloat(kind) => { return Some(pick_float(kind, 0x5D, 0x63)); },
        NumericInstruction::GreaterThanInteger(kind, sign) => {
            return Some(pick_sign(sign, pick_integer(kind, 0x4A, 0x55)));
        },
        NumericInstruction::GreaterThanFloat(kind) => {
            return Some(pick_float(kind, 0x5E, 0x64));
        },
        NumericInstruction::LessThanOrEqualToInteger(kind, sign) => {
            return Some(pick_sign(sign, pick_integer(kind, 0x4C, 0x57)));
        },
        NumericInstruction::LessThanOrEqualToFloat(kind) => {
            return Some(pick_float(kind, 0x5F, 0x65));
        },
        NumericInstruction::GreaterThanOrEqualToInteger(kind, sign) => {
            return Some(pick_sign(sign, pick_integer(kind, 0x4E, 0x59)));
        },
        NumericInstruction::GreaterThanOrEqualToFloat(kind) => {
            return Some(pick_float(kind, 0x60, 0x66));
        },
        NumericInstruction::ExtendSigned8(kind) => { return Some(pick_integer(kind, 0xC0, 0xC2)); },
        NumericInstruction::ExtendSigned16(kind) => {
            return Some(pick_integer(kind, 0xC1, 0xC3));
        },
        NumericInstruction::ExtendSigned32 => { return Some(0xC4); },
        NumericInstruction::Wrap => { return Some(0xA7); },
        NumericInstruction::ExtendWithSignExtension(sign) => {
            return Some(pick_sign(sign, 0xAC));
        },
        NumericInstruction::ConvertAndTruncate(to, from, sign) => {
            return Some(
                pick_sign(
                    sign,
                    pick_integer(to, pick_float(from, 0xA8, 0xAA), pick_float(from, 0xAE, 0xB0)),
                ),
            );
        },
        NumericInstruction::Demote => { return Some(0xB6); },
        NumericInstruction::Promote => { return Some(0xBB); },
        NumericInstruction::Convert(to, from, sign) => {
            return Some(
                pick_sign(
                    sign,
                    pick_float(to, pick_integer(from, 0xB2, 0xB4), pick_integer(from, 0xB7, 0xB9)),
                ),
            );
        },
        NumericInstruction::ReinterpretFloat(to, from) => match (to, from) {
            (IntegerType::I32, FloatType::F32) => { return Some(0xBC); },
            (IntegerType::I64, FloatType::F64) => { return Some(0xBD); },
            _ => { return None; },
        }
        NumericInstruction::ReinterpretInteger(to, from) => match (to, from) {
            (FloatType::F32, IntegerType::I32) => { return Some(0xBE); },
            (FloatType::F64, IntegerType::I64) => { return Some(0xBF); },
            _ => { return None; },
        }
        NumericInstruction::I32Constant(_) => { return None; },
        NumericInstruction::I64Constant(_) => { return None; },
        NumericInstruction::F32Constant(_) => { return None; },
        NumericInstruction::F64Constant(_) => { return None; },
        NumericInstruction::ConvertAndTruncateWithSaturation(_, _, _) => { return None; },
    }
}

/// The secondary opcode of a saturating truncation.
pub fn code_of_saturating(to: IntegerType, from: FloatType, sign: SignExtension) -> (code: u8)
    ensures
        code == saturating_code(to, from, sign),
{
    pick_sign(sign, pick_integer(to, pick_float(from, 0, 2), pick_float(from, 4, 6)))
}

/// The single-byte numeric instruction with the given opcode, if there is one.
pub fn numeric_from_opcode(opcode: u8) -> (instruction: Option<NumericInstruction>)
    ensures
        instruction == numeric_of_opcode(opcode),
{
    match opcode {
        0x45 => { return Some(NumericInstruction::EqualToZero(IntegerType::I32)); },
        0x46 => { return Some(NumericInstruction::Equal(NumberType::I32)); },
        0x47 => { return Some(NumericInstruction::NotEqual(NumberType::I32)); },
        0x48 => {
            return Some(
                NumericInstruction::LessThanInteger(IntegerType::I32, SignExtension::Signed),
            );
        },
        0x49 => {
            return Some(
                NumericInstruction::LessThanInteger(IntegerType::I32, SignExtension::Unsigned),
            );
        },
        0x4A => {
            return Some(
                NumericInstruction::GreaterThanInteger(IntegerType::I32, SignExtension::Signed),
            );
        },
        0x4B => {
            return Some(
                NumericInstruction::GreaterThanInteger(IntegerType::I32, SignExtension::Unsigned),
            );
        },
        0x4C => {
            return Some(
                NumericInstruction::LessThanOrEqualToInteger(
                    IntegerType::I32,
                    SignExtension::Signed,
                ),
            );
        },
        0x4D => {
            return Some(
                NumericInstruction::LessThanOrEqualToInteger(
                    IntegerType::I32,
                    SignExtension::Unsigned,
                ),
            );
        },
        0x4E => {
            return Some(
                NumericInstruction::GreaterThanOrEqualToInteger(
                    IntegerType::I32,
                    SignExtension::Signed,
                ),
            );
        },
        0x4F => {
            return Some(
                NumericInstruction::GreaterThanOrEqualToInteger(
                    IntegerType::I32,
                    SignExtension::Unsigned,
                ),
            );
        },
        0x50 => { return Some(NumericInstruction::EqualToZero(IntegerType::I64)); },
        0x51 => { return Some(NumericInstruction::Equal(NumberType::I64)); },
        0x52 => { return Some(NumericInstruction::NotEqual(NumberType::I64)); },
        0x53 => {
            return Some(
                NumericInstruction::LessThanInteger(IntegerType::I64, SignExtension::Signed),
            );
        },
        0x54 => {
            return Some(
                NumericInstruction::LessThanInteger(IntegerType::I64, SignExtension::Unsigned),
            );
        },
        0x55 => {
            return Some(
                NumericInstruction::GreaterThanInteger(IntegerType::I64, SignExtension::Signed),
            );
        },
        0x56 => {
            return Some(
                NumericInstruction::GreaterThanInteger(IntegerType::I64, SignExtension::Unsigned),
            );
        },
        0x57 => {
            return Some(
                NumericInstruction::LessThanOrEqualToInteger(
                    IntegerType::I64,
                    SignExtension::Signed,
                ),
            );
        },
        0x58 => {
            return Some(
                NumericInstruction::LessThanOrEqualToInteger(
                    IntegerType::I64,
                    SignExtension::Unsigned,
                ),
            );
        },
        0x59 => {
            return Some(
                NumericInstruction::GreaterThanOrEqualToInteger(
                    IntegerType::I64,
                    SignExtension::Signed,
                ),
            );
        },
        0x5A => {
            return Some(
                NumericInstruction::GreaterThanOrEqualToInteger(
                    IntegerType::I64,
                    SignExtension::Unsigned,
                ),
            );
        },
        0x5B => { return Some(NumericInstruction::Equal(NumberType::F32)); },
        0x5C => { return Some(NumericInstruction::NotEqual(NumberType::F32)); },
        0x5D => { return Some(NumericInstruction::LessThanFloat(FloatType::F32)); },
        0x5E => { return Some(NumericInstruction::GreaterThanFloat(FloatType::F32)); },
        0x5F => { return Some(NumericInstruction::LessThanOrEqualToFloat(FloatType::F32)); },
        0x60 => { return Some(NumericInstruction::GreaterThanOrEqualToFloat(FloatType::F32)); },
        0x61 => { return Some(NumericInstruction::Equal(NumberType::F64)); },
        0x62 => { return Some(NumericInstruction::NotEqual(NumberType::F64)); },
        0x63 => { return Some(NumericInstruction::LessThanFloat(FloatType::F64)); },
        0x64 => { return Some(NumericInstruction::GreaterThanFloat(FloatType::F64)); },
        0x65 => { return Some(NumericInstruction::LessThanOrEqualToFloat(FloatType::F64)); },
        0x66 => { return Some(NumericInstruction::GreaterThanOrEqualToFloat(FloatType::F64)); },
        0x67 => { return Some(NumericInstruction::CountLeadingZeros(IntegerType::I32)); },
        0x68 => { return Some(NumericInstruction::CountTrailingZeros(IntegerType::I32)); },
        0x69 => { return Some(NumericInstruction::CountOnes(IntegerType::I32)); },
        0x6A => { return Some(NumericInstruction::Add(NumberType::I32)); },
        0x6B => { return Some(NumericInstruction::Subtract(NumberType::I32)); },
        0x6C => { return Some(NumericInstruction::Multiply(NumberType::I32)); },
        0x6D => {
            return Some(
                NumericInstruction::DivideInteger(IntegerType::I32, SignExtension::Signed),
            );
        },
        0x6E => {
            return Some(
                NumericInstruction::DivideInteger(IntegerType::I32, SignExtension::Unsigned),
            );
        },
        0x6F => {
            return Some(
                NumericInstruction::Remainder(IntegerType::I32, SignExtension::Signed),
            );
        },
        0x70 => {
            return Some(
                NumericInstruction::Remainder(IntegerType::I32, SignExtension::Unsigned),
            );
        },
        0x71 => { return Some(NumericInstruction::And(IntegerType::I32)); },
        0x72 => { return Some(NumericInstruction::Or(IntegerType::I32)); },
        0x73 => { return Some(NumericInstruction::Xor(IntegerType::I32)); },
        0x74 => { return Some(NumericInstruction::ShiftLeft(IntegerType::I32)); },
        0x75 => {
            return Some(
                NumericInstruction::ShiftRight(IntegerType::I32, SignExtension::Signed),
            );
        },
        0x76 => {
            return Some(
                NumericInstruction::ShiftRight(IntegerType::I32, SignExtension::Unsigned),
            );
        },
        0x77 => { return Some(NumericInstruction::RotateLeft(IntegerType::I32)); },
        0x78 => { return Some(NumericInstruction::RotateRight(IntegerType::I32)); },
        0x79 => { return Some(NumericInstruction::CountLeadingZeros(IntegerType::I64)); },
        0x7A => { return Some(NumericInstruction::CountTrailingZeros(IntegerType::I64)); },
        0x7B => { return Some(NumericInstruction::CountOnes(IntegerType::I64)); },
        0x7C => { return Some(NumericInstruction::Add(NumberType::I64)); },
        0x7D => { return Some(NumericInstruction::Subtract(NumberType::I64)); },
        0x7E => { return Some(NumericInstruction::Multiply(NumberType::I64)); },
        0x7F => {
            return Some(
                NumericInstruction::DivideInteger(IntegerType::I64, SignExtension::Signed),
            );
        },
        0x80 => {
            return Some(
                NumericInstruction::DivideInteger(IntegerType::I64, SignExtension::Unsigned),
            );
        },
        0x81 => {
            return Some(
                NumericInstruction::Remainder(IntegerType::I64, SignExtension::Signed),
            );
        },
        0x82 => {
            return Some(
                NumericInstruction::Remainder(IntegerType::I64, SignExtension::Unsigned),
            );
        },
        0x83 => { return Some(NumericInstruction::And(IntegerType::I64)); },
        0x84 => { return Some(NumericInstruction::Or(IntegerType::I64)); },
        0x85 => { return Some(NumericInstruction::Xor(IntegerType::I64)); },
        0x86 => { return Some(NumericInstruction::ShiftLeft(IntegerType::I64)); },
        0x87 => {
            return Some(
                NumericInstruction::ShiftRight(IntegerType::I64, SignExtension::Signed),
            );
        },
        0x88 => {
            return Some(
                NumericInstruction::ShiftRight(IntegerType::I64, SignExtension::Unsigned),
            );
        },
        0x89 => { return Some(NumericInstruction::RotateLeft(IntegerType::I64)); },
        0x8A => { return Some(NumericInstruction::RotateRight(IntegerType::I64)); },
        0x8B => { return Some(NumericInstruction::AbsoluteValue(FloatType::F32)); },
        0x8C => { return Some(NumericInstruction::Negate(FloatType::F32)); },
        0x8D => { return Some(NumericInstruction::Ceiling(FloatType::F32)); },
        0x8E => { return Some(NumericInstruction::Floor(FloatType::F32)); },
        0x8F => { return Some(NumericInstruction::Truncate(FloatType::F32)); },
        0x90 => { return Some(NumericInstruction::Nearest(FloatType::F32)); },
        0x91 => { return Some(NumericInstruction::SquareRoot(FloatType::F32)); },
        0x92 => { return Some(NumericInstruction::Add(NumberType::F32)); },
        0x93 => { return Some(NumericInstruction::Subtract(NumberType::F32)); },
        0x94 => { return Some(NumericInstruction::Multiply(NumberType::F32)); },
        0x95 => { return Some(NumericInstruction::DivideFloat(FloatType::F32)); },
        0x96 => { return Some(NumericInstruction::Minimum(FloatType::F32)); },
        0x97 => { return Some(NumericInstruction::Maximum(FloatType::F32)); },
        0x98 => { return Some(NumericInstruction::CopySign(FloatType::F32)); },
        0x99 => { return Some(NumericInstruction::AbsoluteValue(FloatType::F64)); },
        0x9A => { return Some(NumericInstruction::Negate(FloatType::F64)); },
        0x9B => { return Some(NumericInstruction::Ceiling(FloatType::F64)); },
        0x9C => { return Some(NumericInstruction::Floor(FloatType::F64)); },
        0x9D => { return Some(NumericInstruction::Truncate(FloatType::F64)); },
        0x9E => { return Some(NumericInstruction::Nearest(FloatType::F64)); },
        0x9F => { return Some(NumericInstruction::SquareRoot(FloatType::F64)); },
        0xA0 => { return Some(NumericInstruction::Add(NumberType::F64)); },
        0xA1 => { return Some(NumericInstruction::Subtract(NumberType::F64)); },
        0xA2 => { return Some(NumericInstruction::Multiply(NumberType::F64)); },
        0xA3 => { return Some(NumericInstruction::DivideFloat(FloatType::F64)); },
        0xA4 => { return Some(NumericInstruction::Minimum(FloatType::F64)); },
        0xA5 => { return Some(NumericInstruction::Maximum(FloatType::F64)); },
        0xA6 => { return Some(NumericInstruction::CopySign(FloatType::F64)); },
        0xA7 => { return Some(NumericInstruction::Wrap); },
        0xA8 => {
            return Some(
                NumericInstruction::ConvertAndTruncate(
                    IntegerType::I32,
                    FloatType::F32,
                    SignExtension::Signed,
                ),
            );
        },
        0xA9 => {
            return Some(
                NumericInstruction::ConvertAndTruncate(
                    IntegerType::I32,
                    FloatType::F32,
                    SignExtension::Unsigned,
                ),
            );
        },
        0xAA => {
            return Some(
                NumericInstruction::ConvertAndTruncate(
                    IntegerType::I32,
                    FloatType::F64,
                    SignExtension::Signed,
                ),
            );
        },
        0xAB => {
            return Some(
                NumericInstruction::ConvertAndTruncate(
                    IntegerType::I32,
                    FloatType::F64,
                    SignExtension::Unsigned,
                ),
            );
        },
        0xAC => {
            return Some(
                NumericInstruction::ExtendWithSignExtension(SignExtension::Signed),
            );
        },
        0xAD => {
            return Some(
                NumericInstruction::ExtendWithSignExtension(SignExtension::Unsigned),
            );
        },
        0xAE => {
            return Some(
                NumericInstruction::ConvertAndTruncate(
                    IntegerType::I64,
                    FloatType::F32,
                    SignExtension::Signed,
                ),
            );
        },
        0xAF => {
            return Some(
                NumericInstruction::ConvertAndTruncate(
                    IntegerType::I64,
                    FloatType::F32,
                    SignExtension::Unsigned,
                ),
            );
        },
        0xB0 => {
            return Some(
                NumericInstruction::ConvertAndTruncate(
                    IntegerType::I64,
                    FloatType::F64,
                    SignExtension::Signed,
                ),
            );
        },
        0xB1 => {
            return Some(
                NumericInstruction::ConvertAndTruncate(
                    IntegerType::I64,
                    FloatType::F64,
                    SignExtension::Unsigned,
                ),
            );
        },
        0xB2 => {
            return Some(
                NumericInstruction::Convert(
                    FloatType::F32,
                    IntegerType::I32,
                    SignExtension::Signed,
                ),
            );
        },
        0xB3 => {
            return Some(
                NumericInstruction::Convert(
                    FloatType::F32,
                    IntegerType::I32,
                    SignExtension::Unsigned,
                ),
            );
        },
        0xB4 => {
            return Some(
                NumericInstruction::Convert(
                    FloatType::F32,
                    IntegerType::I64,
                    SignExtension::Signed,
                ),
            );
        },
        0xB5 => {
            return Some(
                NumericInstruction::Convert(
                    FloatType::F32,
                    IntegerType::I64,
                    SignExtension::Unsigned,
                ),
            );
        },
        0xB6 => { return Some(NumericInstruction::Demote); },
        0xB7 => {
            return Some(
                NumericInstruction::Convert(
                    FloatType::F64,
                    IntegerType::I32,
                    SignExtension::Signed,
                ),
            );
        },
        0xB8 => {
            return Some(
                NumericInstruction::Convert(
                    FloatType::F64,
                    IntegerType::I32,
                    SignExtension::Unsigned,
                ),
            );
        },
        0xB9 => {
            return Some(
                NumericInstruction::Convert(
                    FloatType::F64,
                    IntegerType::I64,
                    SignExtension::Signed,
                ),
            );
        },
        0xBA => {
            return Some(
                NumericInstruction::Convert(
                    FloatType::F64,
                    IntegerType::I64,
                    SignExtension::Unsigned,
                ),
            );
        },
        0xBB => { return Some(NumericInstruction::Promote); },
        0xBC => {
            return Some(
                NumericInstruction::ReinterpretFloat(IntegerType::I32, FloatType::F32),
            );
        },
        0xBD => {
            return Some(
                NumericInstruction::ReinterpretFloat(IntegerType::I64, FloatType::F64),
            );
        },
        0xBE => {
            return Some(
                NumericInstruction::ReinterpretInteger(FloatType::F32, IntegerType::I32),
            );
        },
        0xBF => {
            return Some(
                NumericInstruction::ReinterpretInteger(FloatType::F64, IntegerType::I64),
            );
        },
        0xC0 => { return Some(NumericInstruction::ExtendSigned8(IntegerType::I32)); },
        0xC1 => { return Some(NumericInstruction::ExtendSigned16(IntegerType::I32)); },
        0xC2 => { return Some(NumericInstruction::ExtendSigned8(IntegerType::I64)); },
        0xC3 => { return Some(NumericInstruction::ExtendSigned16(IntegerType::I64)); },
        0xC4 => { return Some(NumericInstruction::ExtendSigned32); },
        _ => { return None; },
    }
}

/// The saturating truncation with the given secondary opcode, if there is one.
pub fn saturating_from_code(code: u32) -> (instruction: Option<NumericInstruction>)
    ensures
        instruction == saturating_of_code(code as nat),
{
    if code >= 8 {
        return None;
    }
    let to = if code < 4 {
        IntegerType::I32
    } else {
        IntegerType::I64
    };
    let from = if code % 4 < 2 {
        FloatType::F32
    } else {
        FloatType::F64
    };
    let sign = if code % 2 == 0 {
        SignExtension::Signed
    } else {
        SignExtension::Unsigned
    };
    Some(NumericInstruction::ConvertAndTruncateWithSaturation(to, from, sign))
}

} // verus!
