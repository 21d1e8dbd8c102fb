//! A syntax model of the executable content of a WebAssembly module
//! (instructions, structured blocks and expressions) together with a
//! byte-exact, verified binary encoder and decoder for it.
//!
//! - `instruction`, `types`: the model and its mathematical views.
//! - `leb128`, `values`: variable-length integers, bytes, bit patterns of
//!   floating-point numbers, byte runs and vectors.
//! - `encoding`, `decoding`: the binary form of instructions as functions
//!   on views and byte sequences; `numeric` holds the opcode tables.
//! - `emit`, `decode`: the encoders and decoders, proved against these.
//! - `laws`: round trip, and canonical form under strict reading.
//! - `promote`, `duplicate`: conversions into the model, and copies.
//!
//! Encoders write to a byte vector in memory; decoders read a byte slice.
//! Moving the bytes to or from a stream is left to the caller.

pub mod decode;
pub mod decoding;
pub mod duplicate;
pub mod emit;
pub mod encoding;
pub mod error;
pub mod instruction;
pub mod laws;
pub mod leb128;
pub mod numeric;
pub mod promote;
pub mod types;
pub mod values;

pub use decode::{
    decode_block_type, decode_expression, decode_instruction, decode_instruction_within,
    decode_sequence,
};
pub use decoding::{DecodeOptions, Stop};
pub use emit::{
    emit_block_type, emit_control, emit_expression, emit_instruction, emit_instructions,
    emit_memory, emit_numeric, emit_parametric, emit_reference, emit_table, emit_variable,
};
pub use error::CodecError;
pub use instruction::{
    BlockType, ControlInstruction, Expression, Instruction, MemoryArgument, MemoryInstruction,
    NumericInstruction, ParametricInstruction, ReferenceInstruction, SignExtension,
    TableInstruction, VariableInstruction,
};
pub use leb128::{decode_signed, decode_unsigned, encode_signed, encode_unsigned};
pub use types::{
    DataIndex, ElementIndex, FloatType, FunctionIndex, GlobalIndex, IntegerType, LabelIndex,
    LocalIndex, NumberType, ReferenceType, TableIndex, TypeIndex, ValueType,
};
pub use values::{
    decode_byte, decode_bytes, decode_f32, decode_f64, decode_i32, decode_i64, decode_repeated,
    decode_u32, decode_u64, decode_vector, emit_byte, emit_bytes, emit_f32, emit_f64, emit_i32,
    emit_i64, emit_name, emit_repeated, emit_u32, emit_u64, emit_usize, emit_vector, Codec,
};
