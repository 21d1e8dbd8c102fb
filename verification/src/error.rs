use vstd::prelude::*;

verus! {

/// Everything that can go wrong while encoding or decoding.
#[derive(Copy, Clone, Debug, PartialEq, Eq, Structural)]
pub enum CodecError {
    /// A byte sink or source outside the library refused to write or read.
    /// The in-memory codec never produces it; adapters that move the bytes
    /// to or from a stream use it to report their failure.
    Io,
    /// A variable-length integer does not fit its target width, or is padded
    /// beyond its minimal length while strict decoding is on.
    MalformedInteger,
    /// The input ended in the middle of a value, a vector or a block.
    UnexpectedEndOfInput,
    /// The byte (or secondary opcode) maps to no instruction.
    UnknownOpcode,
    /// A tag lies outside its defined range, or an instruction combines
    /// immediates for which the format has no encoding.
    InvalidImmediate,
    /// A declared vector length or the block nesting exceeds the configured bound.
    LimitExceeded,
}

} // verus!
