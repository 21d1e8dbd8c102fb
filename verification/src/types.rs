//! The flat tag sets that instructions refer to, and the index spaces.

use crate::error::CodecError;

use crate::values::{byte_decoding, Codec};
use vstd::prelude::*;

verus! {

/// Index of a function type.
pub type TypeIndex = u32;

/// Index of a function.
pub type FunctionIndex = u32;

/// Index of a table.
pub type TableIndex = u32;

/// Index of a global variable.
pub type GlobalIndex = u32;

/// Index of an element segment.
pub type ElementIndex = u32;

/// Index of a data segment.
pub type DataIndex = u32;

/// Index of a local variable.
pub type LocalIndex = u32;

/// Index of a label, counted outward from the innermost enclosing block.
pub type LabelIndex = u32;

/// The integer number types.
#[derive(Copy, Clone, Debug, PartialEq, Eq, Structural)]
pub enum IntegerType {
    I32,
    I64,
}

/// The floating-point number types.
#[derive(Copy, Clone, Debug, PartialEq, Eq, Structural)]
pub enum FloatType {
    F32,
    F64,
}

/// The number types.
#[derive(Copy, Clone, Debug, PartialEq, Eq, Structural)]
pub enum NumberType {
    I32,
    I64,
    F32,
    F64,
}

/// The reference types.
#[derive(Copy, Clone, Debug, PartialEq, Eq, Structural)]
pub enum ReferenceType {
    Function,
    External,
}

/// The value types: number types and reference types together.
#[derive(Copy, Clone, Debug, PartialEq, Eq, Structural)]
pub enum ValueType {
    I32,
    I64,
    F32,
    F64,
    FunctionReference,
    ExternalReference,
}

/// The byte that stands for a value type.
pub open spec fn value_type_tag(kind: ValueType) -> u8 {
    match kind {
        ValueType::I32 => 0x7F,
        ValueType::I64 => 0x7E,
        ValueType::F32 => 0x7D,
        ValueType::F64 => 0x7C,
        ValueType::FunctionReference => 0x70,
        ValueType::ExternalReference => 0x6F,
    }
}

/// The value type that a byte stands for, if any.
pub open spec fn value_type_of(tag: u8) -> Option<ValueType> {
    if tag == 0x7F {
        Some(ValueType::I32)
    } else if tag == 0x7E {
        Some(ValueType::I64)
    } else if tag == 0x7D {
        Some(ValueType::F32)
    } else if tag == 0x7C {
        Some(ValueType::F64)
    } else if tag == 0x70 {
        Some(ValueType::FunctionReference)
    } else if tag == 0x6F {
        Some(ValueType::ExternalReference)
    } else {
        None
    }
}

/// The byte that stands for a reference type.
pub open spec fn reference_type_tag(kind: ReferenceType) -> u8 {
    match kind {
        ReferenceType::Function => 0x70,
        ReferenceType::External => 0x6F,
    }
}

/// The reference type that a byte stands for, if any.
pub open spec fn reference_type_of(tag: u8) -> Option<ReferenceType> {
    if tag == 0x70 {
        Some(ReferenceType::Function)
    } else if tag == 0x6F {
        Some(ReferenceType::External)
    } else {
        None
    }
}

/// What reading a tag at `pos` yields, given the meaning of each byte.
pub open spec fn tag_decoding<T>(input: Seq<u8>, pos: int, meaning: spec_fn(u8) -> Option<T>) -> Result<
    (T, int),
    CodecError,
> {
    match byte_decoding(input, pos) {
        Err(e) => Err(e),
        Ok((tag, next)) => match meaning(tag) {
            Some(kind) => Ok((kind, next)),
            None => Err(CodecError::InvalidImmediate),
        },
    }
}

impl ValueType {
    /// The byte that stands for this value type.
    pub fn tag(&self) -> (tag: u8)
        ensures
            tag == value_type_tag(*self),
    {
        match self {
            ValueType::I32 => 0x7F,
            ValueType::I64 => 0x7E,
            ValueType::F32 => 0x7D,
            ValueType::F64 => 0x7C,
            ValueType::FunctionReference => 0x70,
            ValueType::ExternalReference => 0x6F,
        }
    }

    /// The value type that `tag` stands for, if any.
    pub fn from_tag(tag: u8) -> (kind: Option<ValueType>)
        ensures
            kind == value_type_of(tag),
    {
        if tag == 0x7F {
            Some(ValueType::I32)
        } else if tag == 0x7E {
            Some(ValueType::I64)
        } else if tag == 0x7D {
            Some(ValueType::F32)
        } else if tag == 0x7C {
            Some(ValueType::F64)
        } else if tag == 0x70 {
            Some(ValueType::FunctionReference)
        } else if tag == 0x6F {
            Some(ValueType::ExternalReference)
        } else {
            None
        }
    }
}

impl ReferenceType {
    /// The byte that stands for this reference type.
    pub fn tag(&self) -> (tag: u8)
        ensures
            tag == reference_type_tag(*self),
    {
        match self {
            ReferenceType::Function => 0x70,
            ReferenceType::External => 0x6F,
        }
    }

    /// The reference type that `tag` stands for, if any.
    pub fn from_tag(tag: u8) -> (kind: Option<ReferenceType>)
        ensures
            kind == reference_type_of(tag),
    {
        if tag == 0x70 {
            Some(ReferenceType::Function)
        } else if tag == 0x6F {
            Some(ReferenceType::External)
        } else {
            None
        }
    }
}

impl Codec for ValueType {
    open spec fn encoding(&self) -> Seq<u8> {
        seq![value_type_tag(*self)]
    }

    open spec fn decoding(input: Seq<u8>, pos: int, strict: bool) -> Result<(Self, int), CodecError> {
        tag_decoding(input, pos, |tag: u8| value_type_of(tag))
    }

    fn emit(&self, output: &mut Vec<u8>) -> (written: Result<usize, CodecError>) {
        let ghost start = output@;
        output.push(self.tag());
        proof {
            assert(output@ =~= start + self.encoding());
        }
        Ok(1)
    }

    fn decode(input: &[u8], pos: usize, strict: bool) -> (result: Result<(Self, usize), CodecError>) {
        if pos >= input.len() {
            return Err(CodecError::UnexpectedEndOfInput);
        }
        match ValueType::from_tag(input[pos]) {
            Some(kind) => Ok((kind, pos + 1)),
            None => Err(CodecError::InvalidImmediate),
        }
    }

    proof fn lemma_round_trip(&self, input: Seq<u8>, pos: int, strict: bool) {
        assert(input[pos] == self.encoding()[0]);
    }

    proof fn lemma_strict_canonical(input: Seq<u8>, pos: int) {
    }
}

impl Codec for ReferenceType {
    open spec fn encoding(&self) -> Seq<u8> {
        seq![reference_type_tag(*self)]
    }

    open spec fn decoding(input: Seq<u8>, pos: int, strict: bool) -> Result<(Self, int), CodecError> {
        tag_decoding(input, pos, |tag: u8| reference_type_of(tag))
    }

    fn emit(&self, output: &mut Vec<u8>) -> (written: Result<usize, CodecError>) {
        let ghost start = output@;
        output.push(self.tag());
        proof {
            assert(output@ =~= start + self.encoding());
        }
        Ok(1)
    }

    fn decode(input: &[u8], pos: usize, strict: bool) -> (result: Result<(Self, usize), CodecError>) {
        if pos >= input.len() {
            return Err(CodecError::UnexpectedEndOfInput);
        }
        match ReferenceType::from_tag(input[pos]) {
            Some(kind) => Ok((kind, pos + 1)),
            None => Err(CodecError::InvalidImmediate),
        }
    }

    proof fn lemma_round_trip(&self, input: Seq<u8>, pos: int, strict: bool) {
        assert(input[pos] == self.encoding()[0]);
    }

    proof fn lemma_strict_canonical(input: Seq<u8>, pos: int) {
    }
}

} // verus!
