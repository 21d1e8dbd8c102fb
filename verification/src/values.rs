//! Primitive values on the wire: single bytes, byte runs, fixed-width
//! floating-point bit patterns, variable-length integers, and the two
//! repetition conventions (counted vectors and bare repetition).
//!
//! Encoders append to a byte vector and return how many bytes they wrote.
//! Decoders read a byte slice from a position and return the value together
//! with the position behind it.

use crate::error::CodecError;
use crate::leb128::{
    decode_signed, decode_unsigned, encode_signed, encode_unsigned, lemma_unsigned_round_trip,
    lemma_unsigned_strict_occurs, occurs_at, signed_decoding, signed_encoding, unsigned_decoding,
    unsigned_encoding,
};
use vstd::arithmetic::power2::lemma2_to64;
use vstd::prelude::*;
use vstd::string::StringSliceAdditionalSpecFns;

verus! {

/// A value with a binary form of its own: what `emit_vector`, `emit_repeated`
/// and their decoding counterparts handle item by item.
pub trait Codec: Sized {
    /// The bytes that stand for the value.
    spec fn encoding(&self) -> Seq<u8>;

    /// What reading a value at `pos` yields: the value and the position
    /// behind it, or the reason why there is none.
    spec fn decoding(input: Seq<u8>, pos: int, strict: bool) -> Result<(Self, int), CodecError>;

    /// Appends the value's bytes and returns their number.
    fn emit(&self, output: &mut Vec<u8>) -> (written: Result<usize, CodecError>)
        ensures
            final(output)@ == old(output)@ + self.encoding(),
            written == Ok::<usize, CodecError>((final(output)@.len() - old(output)@.len()) as usize),
    ;

    /// Reads one value at `pos`.
    fn decode(input: &[u8], pos: usize, strict: bool) -> (result: Result<(Self, usize), CodecError>)
        ensures
            match result {
                Ok((value, next)) => {
                    &&& Self::decoding(input@, pos as int, strict) == Ok::<(Self, int), CodecError>(
                        (value, next as int),
                    )
                    &&& pos < next <= input@.len()
                },
                Err(e) => Self::decoding(input@, pos as int, strict) == Err::<
                    (Self, int),
                    CodecError,
                >(e),
            },
    ;

    /// Round trip: where the value's bytes stand, reading gives the value back.
    proof fn lemma_round_trip(&self, input: Seq<u8>, pos: int, strict: bool)
        requires
            occurs_at(input, pos, self.encoding()),
        ensures
            Self::decoding(input, pos, strict) == Ok::<(Self, int), CodecError>(
                (*self, pos + self.encoding().len()),
            ),
    ;

    /// Strict reading accepts nothing but encodings: the bytes that were
    /// read as a value are the value's bytes.
    proof fn lemma_strict_canonical(input: Seq<u8>, pos: int)
        requires
            Self::decoding(input, pos, true) is Ok,
        ensures
            ({
                let (value, next) = Self::decoding(input, pos, true)->Ok_0;
                &&& occurs_at(input, pos, value.encoding())
                &&& next == pos + value.encoding().len()
                &&& next > pos
            }),
    ;
}

/// What reading one byte at `pos` yields.
pub open spec fn byte_decoding(input: Seq<u8>, pos: int) -> Result<(u8, int), CodecError> {
    if 0 <= pos < input.len() {
        Ok((input[pos], pos + 1))
    } else {
        Err(CodecError::UnexpectedEndOfInput)
    }
}

/// The four bytes of a 32-bit pattern, least significant first.
pub open spec fn f32_encoding(bits: u32) -> Seq<u8> {
    seq![
        (bits % 256) as u8,
        (bits / 0x100 % 256) as u8,
        (bits / 0x1_0000 % 256) as u8,
        (bits / 0x100_0000) as u8,
    ]
}

/// The eight bytes of a 64-bit pattern, least significant first.
pub open spec fn f64_encoding(bits: u64) -> Seq<u8> {
    f32_encoding((bits % 0x1_0000_0000) as u32) + f32_encoding((bits / 0x1_0000_0000) as u32)
}

/// What reading a 32-bit pattern at `pos` yields.
pub open spec fn f32_decoding(input: Seq<u8>, pos: int) -> Result<(u32, int), CodecError> {
    if 0 <= pos && pos + 4 <= input.len() {
        Ok(
            (
                (input[pos] + 0x100 * input[pos + 1] + 0x1_0000 * input[pos + 2] + 0x100_0000
                    * input[pos + 3]) as u32,
                pos + 4,
            ),
        )
    } else {
        Err(CodecError::UnexpectedEndOfInput)
    }
}

/// What reading a 64-bit pattern at `pos` yields.
pub open spec fn f64_decoding(input: Seq<u8>, pos: int) -> Result<(u64, int), CodecError> {
    if 0 <= pos && pos + 8 <= input.len() {
        match (f32_decoding(input, pos), f32_decoding(input, pos + 4)) {
            (Ok((low, _)), Ok((high, next))) => Ok(((low + 0x1_0000_0000 * high) as u64, next)),
            _ => Err(CodecError::UnexpectedEndOfInput),
        }
    } else {
        Err(CodecError::UnexpectedEndOfInput)
    }
}

/// A byte run: the bytes themselves, behind their count where asked for.
pub open spec fn bytes_encoding(value: Seq<u8>, include_length: bool) -> Seq<u8> {
    if include_length {
        unsigned_encoding(value.len()) + value
    } else {
        value
    }
}

/// What reading a counted byte run at `pos` yields. A count above
/// `max_length` is refused before any byte of the run is looked at.
pub open spec fn bytes_decoding(input: Seq<u8>, pos: int, max_length: nat, strict: bool) -> Result<
    (Seq<u8>, int),
    CodecError,
> {
    match unsigned_decoding(input, pos, 64, strict) {
        Err(e) => Err(e),
        Ok((count, next)) => if count > max_length {
            Err(CodecError::LimitExceeded)
        } else if next + count > input.len() {
            Err(CodecError::UnexpectedEndOfInput)
        } else {
            Ok((input.subrange(next, next + count), next + count))
        },
    }
}

/// The encodings of the items, one after the other.
pub open spec fn repeated_encoding<T: Codec>(items: Seq<T>) -> Seq<u8>
    decreases items.len(),
{
    if items.len() == 0 {
        Seq::empty()
    } else {
        repeated_encoding(items.drop_last()) + items.last().encoding()
    }
}

/// A vector: the number of items, then the items.
pub open spec fn vector_encoding<T: Codec>(items: Seq<T>) -> Seq<u8> {
    unsigned_encoding(items.len()) + repeated_encoding(items)
}

/// What reading `count` items one after the other from `pos` yields.
pub open spec fn repeated_decoding<T: Codec>(
    input: Seq<u8>,
    pos: int,
    count: nat,
    strict: bool,
) -> Result<(Seq<T>, int), CodecError>
    decreases count,
{
    if count == 0 {
        Ok((Seq::empty(), pos))
    } else {
        match repeated_decoding::<T>(input, pos, (count - 1) as nat, strict) {
            Err(e) => Err(e),
            Ok((items, next)) => match T::decoding(input, next, strict) {
                Err(e) => Err(e),
                Ok((item, end)) => Ok((items.push(item), end)),
            },
        }
    }
}

/// What reading a vector at `pos` yields. A count above `max_length` is
/// refused before any item is read.
pub open spec fn vector_decoding<T: Codec>(
    input: Seq<u8>,
    pos: int,
    max_length: nat,
    strict: bool,
) -> Result<(Seq<T>, int), CodecError> {
    match unsigned_decoding(input, pos, 64, strict) {
        Err(e) => Err(e),
        Ok((count, next)) => if count > max_length {
            Err(CodecError::LimitExceeded)
        } else {
            repeated_decoding::<T>(input, next, count, strict)
        },
    }
}

/// Emits a single byte.
pub fn emit_byte(byte: u8, output: &mut Vec<u8>) -> (written: Result<usize, CodecError>)
    ensures
        final(output)@ == old(output)@.push(byte),
        written == Ok::<usize, CodecError>(1),
{
    output.push(byte);
    Ok(1)
}

/// Emits a run of bytes, behind its length if `include_length` is set.
pub fn emit_bytes(value: &[u8], output: &mut Vec<u8>, include_length: bool) -> (written: Result<
    usize,
    CodecError,
>)
    ensures
        final(output)@ == old(output)@ + bytes_encoding(value@, include_length),
        written == Ok::<usize, CodecError>(bytes_encoding(value@, include_length).len() as usize),
{
    let ghost start = output@;
    let start_len: usize = output.len();
    if include_length {
        encode_unsigned(value.len() as u64, output);
    }
    let ghost middle = output@;
    output.extend_from_slice(value);
    proof {
        assert(output@ =~= middle + value@);
        assert(output@ =~= start + bytes_encoding(value@, include_length));
    }
    Ok(output.len() - start_len)
}

/// Emits a name: the length of its UTF-8 form in bytes, then those bytes.
pub fn emit_name(value: &str, output: &mut Vec<u8>) -> (written: Result<usize, CodecError>)
    ensures
        final(output)@ == old(output)@ + bytes_encoding(value.spec_bytes(), true),
        written == Ok::<usize, CodecError>(bytes_encoding(value.spec_bytes(), true).len() as usize),
{
    emit_bytes(value.as_bytes(), output, true)
}

/// Emits the bit pattern of a 32-bit floating-point number, little-endian.
pub fn emit_f32(bits: u32, output: &mut Vec<u8>) -> (written: Result<usize, CodecError>)
    ensures
        final(output)@ == old(output)@ + f32_encoding(bits),
        written == Ok::<usize, CodecError>(4),
{
    let ghost start = output@;
    output.push((bits % 256) as u8);
    output.push((bits / 0x100 % 256) as u8);
    output.push((bits / 0x1_0000 % 256) as u8);
    output.push((bits / 0x100_0000) as u8);
    proof {
        assert(output@ =~= start + f32_encoding(bits));
    }
    Ok(4)
}

/// Emits the bit pattern of a 64-bit floating-point number, little-endian.
pub fn emit_f64(bits: u64, output: &mut Vec<u8>) -> (written: Result<usize, CodecError>)
    ensures
        final(output)@ == old(output)@ + f64_encoding(bits),
        written == Ok::<usize, CodecError>(8),
{
    let ghost start = output@;
    let _ = emit_f32((bits % 0x1_0000_0000) as u32, output);
    let _ = emit_f32((bits / 0x1_0000_0000) as u32, output);
    proof {
        assert(output@ =~= start + f64_encoding(bits));
    }
    Ok(8)
}

/// Emits an unsigned 32-bit integer in its minimal variable-length form.
pub fn emit_u32(value: u32, output: &mut Vec<u8>) -> (written: Result<usize, CodecError>)
    ensures
        final(output)@ == old(output)@ + unsigned_encoding(value as nat),
        written == Ok::<usize, CodecError>(unsigned_encoding(value as nat).len() as usize),
{
    Ok(encode_unsigned(value as u64, output))
}

/// Emits a host-size unsigned integer. It is widened first, so the bytes do
/// not depend on the host's word size.
pub fn emit_usize(size: usize, output: &mut Vec<u8>) -> (written: Result<usize, CodecError>)
    ensures
        final(output)@ == old(output)@ + unsigned_encoding(size as nat),
        written == Ok::<usize, CodecError>(unsigned_encoding(size as nat).len() as usize),
{
    Ok(encode_unsigned(size as u64, output))
}

/// Emits an unsigned 64-bit integer in its minimal variable-length form.
pub fn emit_u64(value: u64, output: &mut Vec<u8>) -> (written: Result<usize, CodecError>)
    ensures
        final(output)@ == old(output)@ + unsigned_encoding(value as nat),
        written == Ok::<usize, CodecError>(unsigned_encoding(value as nat).len() as usize),
{
    Ok(encode_unsigned(value, output))
}

/// Emits a signed 32-bit integer in its minimal variable-length form.
pub fn emit_i32(value: i32, output: &mut Vec<u8>) -> (written: Result<usize, CodecError>)
    ensures
        final(output)@ == old(output)@ + signed_encoding(value as int),
        written == Ok::<usize, CodecError>(signed_encoding(value as int).len() as usize),
{
    Ok(encode_signed(value as i64, output))
}

/// Emits a signed 64-bit integer in its minimal variable-length form.
pub fn emit_i64(value: i64, output: &mut Vec<u8>) -> (written: Result<usize, CodecError>)
    ensures
        final(output)@ == old(output)@ + signed_encoding(value as int),
        written == Ok::<usize, CodecError>(signed_encoding(value as int).len() as usize),
{
    Ok(encode_signed(value, output))
}

/// Emits each item in order, with nothing before or between them.
pub fn emit_repeated<T: Codec>(items: &[T], output: &mut Vec<u8>) -> (written: Result<
    usize,
    CodecError,
>)
    ensures
        final(output)@ == old(output)@ + repeated_encoding(items@),
        written == Ok::<usize, CodecError>(repeated_encoding(items@).len() as usize),
{
    let ghost start = output@;
    let start_len: usize = output.len();
    let mut i: usize = 0;
    while i < items.len()
        invariant
            i <= items@.len(),
            start_len == start.len(),
            output@ == start + repeated_encoding(items@.take(i as int)),
        decreases items@.len() - i,
    {
        let ghost before = output@;
        let _ = items[i].emit(output);
        proof {
            let longer = items@.take(i + 1);
            assert(longer.drop_last() =~= items@.take(i as int));
            assert(longer.last() == items@[i as int]);
            assert(output@ =~= start + repeated_encoding(longer));
        }
        i = i + 1;
    }
    proof {
        assert(items@.take(i as int) =~= items@);
    }
    Ok(output.len() - start_len)
}

/// Emits the number of items, then each item in order.
pub fn emit_vector<T: Codec>(items: &[T], output: &mut Vec<u8>) -> (written: Result<
    usize,
    CodecError,
>)
    ensures
        final(output)@ == old(output)@ + vector_encoding(items@),
        written == Ok::<usize, CodecError>(vector_encoding(items@).len() as usize),
{
    let ghost start = output@;
    let start_len: usize = output.len();
    let _ = emit_usize(items.len(), output);
    let _ = emit_repeated(items, output);
    proof {
        assert(output@ =~= start + vector_encoding(items@));
    }
    Ok(output.len() - start_len)
}

impl Codec for u8 {
    open spec fn encoding(&self) -> Seq<u8> {
        seq![*self]
    }

    open spec fn decoding(input: Seq<u8>, pos: int, strict: bool) -> Result<(Self, int), CodecError> {
        byte_decoding(input, pos)
    }

    fn emit(&self, output: &mut Vec<u8>) -> (written: Result<usize, CodecError>) {
        let ghost start = output@;
        let written = emit_byte(*self, output);
        proof {
            assert(output@ =~= start + self.encoding());
        }
        written
    }

    fn decode(input: &[u8], pos: usize, strict: bool) -> (result: Result<(Self, usize), CodecError>) {
        decode_byte(input, pos)
    }

    proof fn lemma_round_trip(&self, input: Seq<u8>, pos: int, strict: bool) {
        assert(input[pos] == self.encoding()[0]);
    }

    proof fn lemma_strict_canonical(input: Seq<u8>, pos: int) {
    }
}

/// An index or another unsigned 32-bit integer, in variable-length form.
impl Codec for u32 {
    open spec fn encoding(&self) -> Seq<u8> {
        unsigned_encoding(*self as nat)
    }

    open spec fn decoding(input: Seq<u8>, pos: int, strict: bool) -> Result<(Self, int), CodecError> {
        match unsigned_decoding(input, pos, 32, strict) {
            Ok((value, next)) => Ok((value as u32, next)),
            Err(e) => Err(e),
        }
    }

    fn emit(&self, output: &mut Vec<u8>) -> (written: Result<usize, CodecError>) {
        emit_u32(*self, output)
    }

    fn decode(input: &[u8], pos: usize, strict: bool) -> (result: Result<(Self, usize), CodecError>) {
        decode_u32(input, pos, strict)
    }

    proof fn lemma_round_trip(&self, input: Seq<u8>, pos: int, strict: bool) {
        lemma2_to64();
        lemma_unsigned_round_trip(input, pos, *self as nat, 32, strict);
    }

    proof fn lemma_strict_canonical(input: Seq<u8>, pos: int) {
        lemma2_to64();
        lemma_unsigned_strict_occurs(input, pos, 32);
    }
}

/// Reads a single byte.
pub fn decode_byte(input: &[u8], pos: usize) -> (result: Result<(u8, usize), CodecError>)
    ensures
        match result {
            Ok((value, next)) => byte_decoding(input@, pos as int) == Ok::<(u8, int), CodecError>(
                (value, next as int),
            ),
            Err(e) => byte_decoding(input@, pos as int) == Err::<(u8, int), CodecError>(e),
        },
{
    if pos < input.len() {
        Ok((input[pos], pos + 1))
    } else {
        Err(CodecError::UnexpectedEndOfInput)
    }
}

/// Reads an unsigned 32-bit integer in variable-length form.
pub fn decode_u32(input: &[u8], pos: usize, strict: bool) -> (result: Result<
    (u32, usize),
    CodecError,
>)
    ensures
        match result {
            Ok((value, next)) => {
                &&& unsigned_decoding(input@, pos as int, 32, strict) == Ok::<
                    (nat, int),
                    CodecError,
                >((value as nat, next as int))
                &&& pos < next <= input@.len()
            },
            Err(e) => unsigned_decoding(input@, pos as int, 32, strict) == Err::<
                (nat, int),
                CodecError,
            >(e),
        },
{
    proof {
        lemma2_to64();
    }
    match decode_unsigned(input, pos, 32, strict) {
        Ok((value, next)) => Ok((value as u32, next)),
        Err(e) => Err(e),
    }
}

/// Reads an unsigned 64-bit integer in variable-length form.
pub fn decode_u64(input: &[u8], pos: usize, strict: bool) -> (result: Result<
    (u64, usize),
    CodecError,
>)
    ensures
        match result {
            Ok((value, next)) => {
                &&& unsigned_decoding(input@, pos as int, 64, strict) == Ok::<
                    (nat, int),
                    CodecError,
                >((value as nat, next as int))
                &&& pos < next <= input@.len()
            },
            Err(e) => unsigned_decoding(input@, pos as int, 64, strict) == Err::<
                (nat, int),
                CodecError,
            >(e),
        },
{
    decode_unsigned(input, pos, 64, strict)
}

/// Reads a signed 32-bit integer in variable-length form.
pub fn decode_i32(input: &[u8], pos: usize, strict: bool) -> (result: Result<
    (i32, usize),
    CodecError,
>)
    ensures
        match result {
            Ok((value, next)) => {
                &&& signed_decoding(input@, pos as int, 32, strict) == Ok::<(int, int), CodecError>(
                    (value as int, next as int),
                )
                &&& pos < next <= input@.len()
            },
            Err(e) => signed_decoding(input@, pos as int, 32, strict) == Err::<
                (int, int),
                CodecError,
            >(e),
        },
{
    proof {
        lemma2_to64();
    }
    match decode_signed(input, pos, 32, strict) {
        Ok((value, next)) => Ok((value as i32, next)),
        Err(e) => Err(e),
    }
}

/// Reads a signed 64-bit integer in variable-length form.
pub fn decode_i64(input: &[u8], pos: usize, strict: bool) -> (result: Result<
    (i64, usize),
    CodecError,
>)
    ensures
        match result {
            Ok((value, next)) => {
                &&& signed_decoding(input@, pos as int, 64, strict) == Ok::<(int, int), CodecError>(
                    (value as int, next as int),
                )
                &&& pos < next <= input@.len()
            },
            Err(e) => signed_decoding(input@, pos as int, 64, strict) == Err::<
                (int, int),
                CodecError,
            >(e),
        },
{
    decode_signed(input, pos, 64, strict)
}

/// Reads the bit pattern of a 32-bit floating-point number.
pub fn decode_f32(input: &[u8], pos: usize) -> (result: Result<(u32, usize), CodecError>)
    ensures
        match result {
            Ok((bits, next)) => f32_decoding(input@, pos as int) == Ok::<(u32, int), CodecError>(
                (bits, next as int),
            ),
            Err(e) => f32_decoding(input@, pos as int) == Err::<(u32, int), CodecError>(e),
        },
{
    if pos > input.len() || input.len() - pos < 4 {
        return Err(CodecError::UnexpectedEndOfInput);
    }
    let bits: u32 = (input[pos] as u32) + 0x100 * (input[pos + 1] as u32) + 0x1_0000 * (input[pos
        + 2] as u32) + 0x100_0000 * (input[pos + 3] as u32);
    Ok((bits, pos + 4))
}

/// Reads the bit pattern of a 64-bit floating-point number.
pub fn decode_f64(input: &[u8], pos: usize) -> (result: Result<(u64, usize), CodecError>)
    ensures
        match result {
            Ok((bits, next)) => f64_decoding(input@, pos as int) == Ok::<(u64, int), CodecError>(
                (bits, next as int),
            ),
            Err(e) => f64_decoding(input@, pos as int) == Err::<(u64, int), CodecError>(e),
        },
{
    if pos > input.len() || input.len() - pos < 8 {
        return Err(CodecError::UnexpectedEndOfInput);
    }
    let low: u32 = match decode_f32(input, pos) {
        Ok((low, _)) => low,
        Err(e) => { return Err(e); },
    };
    let high: u32 = match decode_f32(input, pos + 4) {
        Ok((high, _)) => high,
        Err(e) => { return Err(e); },
    };
    let bits: u64 = low as u64 + 0x1_0000_0000 * (high as u64);
    Ok((bits, pos + 8))
}

/// Reads a counted run of bytes. A count above `max_length` gives
/// `LimitExceeded`; nothing is allocated for a run that the input cannot hold.
pub fn decode_bytes(input: &[u8], pos: usize, max_length: usize, strict: bool) -> (result: Result<
    (Vec<u8>, usize),
    CodecError,
>)
    ensures
        match result {
            Ok((bytes, next)) => bytes_decoding(input@, pos as int, max_length as nat, strict)
                == Ok::<(Seq<u8>, int), CodecError>((bytes@, next as int)),
            Err(e) => bytes_decoding(input@, pos as int, max_length as nat, strict) == Err::<
                (Seq<u8>, int),
                CodecError,
            >(e),
        },
{
    let (count, start) = match decode_unsigned(input, pos, 64, strict) {
        Ok(pair) => pair,
        Err(e) => { return Err(e); },
    };
    if count > max_length as u64 {
        return Err(CodecError::LimitExceeded);
    }
    if count > (input.len() - start) as u64 {
        return Err(CodecError::UnexpectedEndOfInput);
    }
    let end: usize = start + count as usize;
    let mut bytes: Vec<u8> = Vec::new();
    bytes.extend_from_slice(vstd::slice::slice_subrange(input, start, end));
    proof {
        assert(bytes@ =~= input@.subrange(start as int, end as int));
    }
    Ok((bytes, end))
}

/// Reading stops at the first item that cannot be read: the same error comes
/// out however many more items were asked for.
proof fn lemma_repeated_error_stays<T: Codec>(
    input: Seq<u8>,
    pos: int,
    fewer: nat,
    count: nat,
    strict: bool,
)
    requires
        fewer <= count,
        repeated_decoding::<T>(input, pos, fewer, strict) is Err,
    ensures
        repeated_decoding::<T>(input, pos, count, strict) == repeated_decoding::<T>(
            input,
            pos,
            fewer,
            strict,
        ),
    decreases count,
{
    if fewer < count {
        lemma_repeated_error_stays::<T>(input, pos, fewer, (count - 1) as nat, strict);
    }
}

/// Reads `count` items one after the other.
pub fn decode_repeated<T: Codec>(input: &[u8], pos: usize, count: usize, strict: bool) -> (result:
    Result<(Vec<T>, usize), CodecError>)
    ensures
        match result {
            Ok((items, next)) => {
                &&& repeated_decoding::<T>(input@, pos as int, count as nat, strict) == Ok::<
                    (Seq<T>, int),
                    CodecError,
                >((items@, next as int))
                &&& pos <= next
                &&& next <= input@.len() || next == pos
            },
            Err(e) => repeated_decoding::<T>(input@, pos as int, count as nat, strict) == Err::<
                (Seq<T>, int),
                CodecError,
            >(e),
        },
{
    let mut items: Vec<T> = Vec::new();
    let mut at: usize = pos;
    let mut done: usize = 0;
    while done < count
        invariant
            done <= count,
            pos <= at,
            at <= input@.len() || at == pos,
            repeated_decoding::<T>(input@, pos as int, done as nat, strict) == Ok::<
                (Seq<T>, int),
                CodecError,
            >((items@, at as int)),
        decreases count - done,
    {
        match T::decode(input, at, strict) {
            Ok((item, next)) => {
                items.push(item);
                at = next;
                done = done + 1;
            },
            Err(e) => {
                proof {
                    lemma_repeated_error_stays::<T>(
                        input@,
                        pos as int,
                        (done + 1) as nat,
                        count as nat,
                        strict,
                    );
                }
                return Err(e);
            },
        }
    }
    Ok((items, at))
}

/// Reads a vector: its count, then that many items. A count above
/// `max_length` gives `LimitExceeded` before any item is read, and the items
/// are collected one by one, so a count that the input cannot back ends in
/// `UnexpectedEndOfInput` without a large allocation.
pub fn decode_vector<T: Codec>(input: &[u8], pos: usize, max_length: usize, strict: bool) -> (result:
    Result<(Vec<T>, usize), CodecError>)
    ensures
        match result {
            Ok((items, next)) => {
                &&& vector_decoding::<T>(input@, pos as int, max_length as nat, strict) == Ok::<
                    (Seq<T>, int),
                    CodecError,
                >((items@, next as int))
                &&& pos < next <= input@.len()
            },
            Err(e) => vector_decoding::<T>(input@, pos as int, max_length as nat, strict) == Err::<
                (Seq<T>, int),
                CodecError,
            >(e),
        },
{
    let (count, start) = match decode_unsigned(input, pos, 64, strict) {
        Ok(pair) => pair,
        Err(e) => { return Err(e); },
    };
    if count > max_length as u64 {
        return Err(CodecError::LimitExceeded);
    }
    decode_repeated(input, start, count as usize, strict)
}

/// Round trip for fixed-width bit patterns.
pub proof fn lemma_f32_round_trip(input: Seq<u8>, pos: int, bits: u32)
    requires
        occurs_at(input, pos, f32_encoding(bits)),
    ensures
        f32_decoding(input, pos) == Ok::<(u32, int), CodecError>((bits, pos + 4)),
{
    let e = f32_encoding(bits);
    assert(input[pos] == e[0] && input[pos + 1] == e[1] && input[pos + 2] == e[2] && input[pos + 3]
        == e[3]);
}

/// Round trip for fixed-width bit patterns.
pub proof fn lemma_f64_round_trip(input: Seq<u8>, pos: int, bits: u64)
    requires
        occurs_at(input, pos, f64_encoding(bits)),
    ensures
        f64_decoding(input, pos) == Ok::<(u64, int), CodecError>((bits, pos + 8)),
{
    let low = (bits % 0x1_0000_0000) as u32;
    let high = (bits / 0x1_0000_0000) as u32;
    crate::leb128::lemma_occurs_split(input, pos, f32_encoding(low), f32_encoding(high));
    lemma_f32_round_trip(input, pos, low);
    lemma_f32_round_trip(input, pos + 4, high);
}

/// Round trip for counted byte runs within the length bound.
pub proof fn lemma_bytes_round_trip(
    input: Seq<u8>,
    pos: int,
    value: Seq<u8>,
    max_length: nat,
    strict: bool,
)
    requires
        value.len() <= max_length,
        value.len() <= u64::MAX,
        occurs_at(input, pos, bytes_encoding(value, true)),
    ensures
        bytes_decoding(input, pos, max_length, strict) == Ok::<(Seq<u8>, int), CodecError>(
            (value, pos + bytes_encoding(value, true).len()),
        ),
{
    lemma2_to64();
    let prefix = unsigned_encoding(value.len());
    crate::leb128::lemma_occurs_split(input, pos, prefix, value);
    lemma_unsigned_round_trip(input, pos, value.len(), 64, strict);
    let next = pos + prefix.len();
    assert(input.subrange(next, next + value.len()) =~= value) by {
        assert forall|i: int| 0 <= i < value.len() implies input[next + i] == value[i] by {
            assert(input[next + i] == #[trigger] value[i]);
        }
    }
}

/// Framing of bare repetition: where the encodings of some items stand one
/// behind the other, reading as many items gives them back in order. This
/// holds for no items as well.
pub proof fn lemma_repeated_round_trip<T: Codec>(
    input: Seq<u8>,
    pos: int,
    items: Seq<T>,
    strict: bool,
)
    requires
        occurs_at(input, pos, repeated_encoding(items)),
    ensures
        repeated_decoding::<T>(input, pos, items.len(), strict) == Ok::<(Seq<T>, int), CodecError>(
            (items, pos + repeated_encoding(items).len()),
        ),
    decreases items.len(),
{
    if items.len() == 0 {
        assert(items =~= Seq::<T>::empty());
    } else {
        let front = items.drop_last();
        crate::leb128::lemma_occurs_split(
            input,
            pos,
            repeated_encoding(front),
            items.last().encoding(),
        );
        lemma_repeated_round_trip::<T>(input, pos, front, strict);
        items.last().lemma_round_trip(input, pos + repeated_encoding(front).len(), strict);
        assert(front.push(items.last()) =~= items);
    }
}

/// Vector framing: where the encoding of a vector within the length bound
/// stands, reading a vector gives back its items in order. This holds for the
/// empty vector as well.
pub proof fn lemma_vector_round_trip<T: Codec>(
    input: Seq<u8>,
    pos: int,
    items: Seq<T>,
    max_length: nat,
    strict: bool,
)
    requires
        items.len() <= max_length,
        items.len() <= u64::MAX,
        occurs_at(input, pos, vector_encoding(items)),
    ensures
        vector_decoding::<T>(input, pos, max_length, strict) == Ok::<(Seq<T>, int), CodecError>(
            (items, pos + vector_encoding(items).len()),
        ),
{
    lemma2_to64();
    let prefix = unsigned_encoding(items.len());
    crate::leb128::lemma_occurs_split(input, pos, prefix, repeated_encoding(items));
    lemma_unsigned_round_trip(input, pos, items.len(), 64, strict);
    lemma_repeated_round_trip::<T>(input, pos + prefix.len(), items, strict);
}

/// Strict reading of fixed-width patterns: the bytes read are the pattern's.
pub proof fn lemma_f32_canonical(input: Seq<u8>, pos: int)
    requires
        f32_decoding(input, pos) is Ok,
    ensures
        ({
            let (bits, next) = f32_decoding(input, pos)->Ok_0;
            occurs_at(input, pos, f32_encoding(bits)) && next == pos + 4
        }),
{
    let (bits, _) = f32_decoding(input, pos)->Ok_0;
    let b0 = input[pos] as int;
    let b1 = input[pos + 1] as int;
    let b2 = input[pos + 2] as int;
    let b3 = input[pos + 3] as int;
    assert(bits == b0 + 0x100 * (b1 + 0x100 * (b2 + 0x100 * b3)));
    assert(bits % 0x100 == b0 && bits / 0x100 == b1 + 0x100 * (b2 + 0x100 * b3));
    assert(bits / 0x1_0000 == b2 + 0x100 * b3);
    assert(bits / 0x100_0000 == b3);
    let encoding = f32_encoding(bits);
    assert(encoding[0] == b0 && encoding[1] == b1 && encoding[2] == b2 && encoding[3] == b3);
}

/// Strict reading of fixed-width patterns: the bytes read are the pattern's.
pub proof fn lemma_f64_canonical(input: Seq<u8>, pos: int)
    requires
        f64_decoding(input, pos) is Ok,
    ensures
        ({
            let (bits, next) = f64_decoding(input, pos)->Ok_0;
            occurs_at(input, pos, f64_encoding(bits)) && next == pos + 8
        }),
{
    lemma_f32_canonical(input, pos);
    lemma_f32_canonical(input, pos + 4);
    let (bits, _) = f64_decoding(input, pos)->Ok_0;
    let (low, _) = f32_decoding(input, pos)->Ok_0;
    let (high, _) = f32_decoding(input, pos + 4)->Ok_0;
    assert(bits % 0x1_0000_0000 == low && bits / 0x1_0000_0000 == high);
    crate::leb128::lemma_occurs_join(input, pos, f32_encoding(low), f32_encoding(high));
}

/// Strict reading of repeated items: the bytes read are the items' bytes.
pub proof fn lemma_repeated_canonical<T: Codec>(input: Seq<u8>, pos: int, count: nat)
    requires
        0 <= pos <= input.len(),
        repeated_decoding::<T>(input, pos, count, true) is Ok,
    ensures
        ({
            let (items, next) = repeated_decoding::<T>(input, pos, count, true)->Ok_0;
            &&& items.len() == count
            &&& occurs_at(input, pos, repeated_encoding(items))
            &&& next == pos + repeated_encoding(items).len()
        }),
    decreases count,
{
    if count > 0 {
        lemma_repeated_canonical::<T>(input, pos, (count - 1) as nat);
        let (front, middle) = repeated_decoding::<T>(input, pos, (count - 1) as nat, true)->Ok_0;
        T::lemma_strict_canonical(input, middle);
        let (last, _) = T::decoding(input, middle, true)->Ok_0;
        let items = front.push(last);
        assert(items.drop_last() =~= front);
        crate::leb128::lemma_occurs_join(input, pos, repeated_encoding(front), last.encoding());
    }
}

/// Strict reading of a vector: the bytes read are the vector's bytes, and
/// the vector is within the length bound.
pub proof fn lemma_vector_canonical<T: Codec>(input: Seq<u8>, pos: int, max_length: nat)
    requires
        vector_decoding::<T>(input, pos, max_length, true) is Ok,
    ensures
        ({
            let (items, next) = vector_decoding::<T>(input, pos, max_length, true)->Ok_0;
            &&& items.len() <= max_length
            &&& occurs_at(input, pos, vector_encoding(items))
            &&& next == pos + vector_encoding(items).len()
        }),
{
    lemma_unsigned_strict_occurs(input, pos, 64);
    let (count, start) = unsigned_decoding(input, pos, 64, true)->Ok_0;
    lemma_repeated_canonical::<T>(input, start, count);
    let (items, _) = repeated_decoding::<T>(input, start, count, true)->Ok_0;
    crate::leb128::lemma_occurs_join(
        input,
        pos,
        unsigned_encoding(count),
        repeated_encoding(items),
    );
}

/// Strict reading of a counted byte run: the bytes read are the count and
/// the run, and the run is within the length bound.
pub proof fn lemma_bytes_canonical(input: Seq<u8>, pos: int, max_length: nat)
    requires
        bytes_decoding(input, pos, max_length, true) is Ok,
    ensures
        ({
            let (value, next) = bytes_decoding(input, pos, max_length, true)->Ok_0;
            &&& value.len() <= max_length
            &&& occurs_at(input, pos, bytes_encoding(value, true))
            &&& next == pos + bytes_encoding(value, true).len()
        }),
{
    lemma_unsigned_strict_occurs(input, pos, 64);
    let (count, start) = unsigned_decoding(input, pos, 64, true)->Ok_0;
    let value = input.subrange(start, start + count);
    assert(occurs_at(input, start, value));
    crate::leb128::lemma_occurs_join(input, pos, unsigned_encoding(count), value);
}

} // verus!
