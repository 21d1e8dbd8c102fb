//! Variable-length integers: seven value bits per byte, least significant
//! group first, the high bit of a byte set on every byte but the last.

use crate::error::CodecError;
use vstd::arithmetic::power2::{lemma2_to64, lemma2_to64_rest, lemma_pow2_adds, lemma_pow2_strictly_increases, pow2};
use vstd::prelude::*;

verus! {

/// `bytes` stands in `input` from position `pos` on.
pub open spec fn occurs_at(input: Seq<u8>, pos: int, bytes: Seq<u8>) -> bool {
    &&& 0 <= pos
    &&& pos + bytes.len() <= input.len()
    &&& forall|i: int| 0 <= i < bytes.len() ==> input[pos + i] == #[trigger] bytes[i]
}

/// Where two runs of bytes stand one behind the other, each stands at its place.
pub proof fn lemma_occurs_split(input: Seq<u8>, pos: int, first: Seq<u8>, second: Seq<u8>)
    requires
        occurs_at(input, pos, first + second),
    ensures
        occurs_at(input, pos, first),
        occurs_at(input, pos + first.len(), second),
{
    let both = first + second;
    assert forall|i: int| 0 <= i < first.len() implies input[pos + i] == #[trigger] first[i] by {
        assert(both[i] == first[i]);
    }
    assert forall|i: int| 0 <= i < second.len() implies input[pos + first.len() + i]
        == #[trigger] second[i] by {
        assert(both[first.len() + i] == second[i]);
    }
}

/// Two runs of bytes that stand one behind the other stand there as one.
pub proof fn lemma_occurs_join(input: Seq<u8>, pos: int, first: Seq<u8>, second: Seq<u8>)
    requires
        occurs_at(input, pos, first),
        occurs_at(input, pos + first.len(), second),
    ensures
        occurs_at(input, pos, first + second),
{
    let both = first + second;
    assert forall|i: int| 0 <= i < both.len() implies input[pos + i] == #[trigger] both[i] by {
        if i < first.len() {
            assert(both[i] == first[i]);
        } else {
            assert(both[i] == second[i - first.len()]);
        }
    }
}

/// The minimal unsigned encoding of `value`.
pub open spec fn unsigned_encoding(value: nat) -> Seq<u8>
    decreases value,
{
    if value < 128 {
        seq![value as u8]
    } else {
        seq![(value % 128 + 128) as u8] + unsigned_encoding(value / 128)
    }
}

/// The minimal signed (two's complement) encoding of `value`.
pub open spec fn signed_encoding(value: int) -> Seq<u8>
    decreases (if value >= 0 { value } else { -value }),
{
    if -64 <= value < 64 {
        seq![(value % 128) as u8]
    } else {
        seq![(value % 128 + 128) as u8] + signed_encoding(value / 128)
    }
}

/// What reading an unsigned integer of `bits` bits at `pos` yields: the value
/// and the position behind it, or the reason why there is none. With `strict`
/// set, an encoding longer than the minimal one is malformed.
pub open spec fn unsigned_decoding(input: Seq<u8>, pos: int, bits: nat, strict: bool) -> Result<
    (nat, int),
    CodecError,
>
    decreases bits,
{
    if pos < 0 || pos >= input.len() {
        Err(CodecError::UnexpectedEndOfInput)
    } else if input[pos] < 128 {
        if bits < 7 && input[pos] >= pow2(bits) {
            Err(CodecError::MalformedInteger)
        } else {
            Ok((input[pos] as nat, pos + 1))
        }
    } else if bits <= 7 {
        Err(CodecError::MalformedInteger)
    } else {
        match unsigned_decoding(input, pos + 1, (bits - 7) as nat, strict) {
            Ok((high, next)) => if strict && high == 0 {
                Err(CodecError::MalformedInteger)
            } else {
                Ok(((input[pos] - 128 + 128 * high) as nat, next))
            },
            Err(e) => Err(e),
        }
    }
}

/// What reading a signed integer of `bits` bits at `pos` yields.
pub open spec fn signed_decoding(input: Seq<u8>, pos: int, bits: nat, strict: bool) -> Result<
    (int, int),
    CodecError,
>
    decreases bits,
{
    if pos < 0 || pos >= input.len() {
        Err(CodecError::UnexpectedEndOfInput)
    } else if input[pos] < 64 {
        if 0 < bits < 7 && input[pos] >= pow2((bits - 1) as nat) {
            Err(CodecError::MalformedInteger)
        } else {
            Ok((input[pos] as int, pos + 1))
        }
    } else if input[pos] < 128 {
        if 0 < bits < 7 && input[pos] < 128 - pow2((bits - 1) as nat) {
            Err(CodecError::MalformedInteger)
        } else {
            Ok((input[pos] - 128, pos + 1))
        }
    } else if bits <= 7 {
        Err(CodecError::MalformedInteger)
    } else {
        match signed_decoding(input, pos + 1, (bits - 7) as nat, strict) {
            Ok((high, next)) => if strict && ((high == 0 && input[pos] < 192) || (high == -1
                && input[pos] >= 192)) {
                Err(CodecError::MalformedInteger)
            } else {
                Ok((input[pos] - 128 + 128 * high, next))
            },
            Err(e) => Err(e),
        }
    }
}

/// Appends the minimal unsigned encoding of `value` and returns its length.
pub fn encode_unsigned(value: u64, output: &mut Vec<u8>) -> (written: usize)
    ensures
        final(output)@ == old(output)@ + unsigned_encoding(value as nat),
        written == unsigned_encoding(value as nat).len(),
{
    let ghost start = output@;
    let start_len: usize = output.len();
    let mut rest: u64 = value;
    while rest >= 128
        invariant
            start_len == start.len(),
            output@ + unsigned_encoding(rest as nat) == start + unsigned_encoding(value as nat),
        decreases rest,
    {
        let ghost before = output@;
        let byte: u8 = (rest % 128 + 128) as u8;
        output.push(byte);
        proof {
            assert(before.push(byte) + unsigned_encoding((rest / 128) as nat) =~= before
                + unsigned_encoding(rest as nat));
        }
        rest = rest / 128;
    }
    let ghost before = output@;
    output.push(rest as u8);
    proof {
        assert(before.push(rest as u8) =~= before + unsigned_encoding(rest as nat));
    }
    output.len() - start_len
}

/// Appends the minimal signed encoding of `value` and returns its length.
pub fn encode_signed(value: i64, output: &mut Vec<u8>) -> (written: usize)
    ensures
        final(output)@ == old(output)@ + signed_encoding(value as int),
        written == signed_encoding(value as int).len(),
{
    let ghost start = output@;
    let start_len: usize = output.len();
    let negative: bool = value < 0;
    // For a negative value the loop works on its one's complement, -1 - value.
    let mut rest: u64 = if negative { (-(value + 1)) as u64 } else { value as u64 };
    while rest >= 64
        invariant
            start_len == start.len(),
            rest <= 0x7fff_ffff_ffff_ffff,
            output@ + signed_encoding(if negative { -1 - rest } else { rest as int }) == start
                + signed_encoding(value as int),
        decreases rest,
    {
        let ghost before = output@;
        let ghost current: int = if negative { -1 - rest } else { rest as int };
        let low: u8 = (rest % 128) as u8;
        let byte: u8 = if negative { 255 - low } else { 128 + low };
        output.push(byte);
        proof {
            assert(current / 128 == if negative { -1 - (rest / 128) } else { (rest / 128) as int });
            assert(current % 128 + 128 == byte);
            assert(before.push(byte) + signed_encoding(current / 128) =~= before
                + signed_encoding(current));
        }
        rest = rest / 128;
    }
    let ghost before = output@;
    let ghost current: int = if negative { -1 - rest } else { rest as int };
    let byte: u8 = if negative { 127 - (rest as u8) } else { rest as u8 };
    output.push(byte);
    proof {
        assert(current % 128 == byte);
        assert(before.push(byte) =~= before + signed_encoding(current));
    }
    output.len() - start_len
}


/// Two to the power `bits`, for the few bits that a last byte may hold.
fn small_power(bits: u32) -> (power: u8)
    requires
        bits < 7,
    ensures
        power == pow2(bits as nat),
{
    proof {
        lemma2_to64();
    }
    if bits == 0 {
        1
    } else if bits == 1 {
        2
    } else if bits == 2 {
        4
    } else if bits == 3 {
        8
    } else if bits == 4 {
        16
    } else if bits == 5 {
        32
    } else {
        64
    }
}

/// Reads an unsigned integer of at most `bits` bits at `pos`.
/// Returns the value and the position behind its last byte.
pub fn decode_unsigned(input: &[u8], pos: usize, bits: u32, strict: bool) -> (result: Result<
    (u64, usize),
    CodecError,
>)
    requires
        bits <= 64,
    ensures
        match result {
            Ok((value, next)) => {
                &&& unsigned_decoding(input@, pos as int, bits as nat, strict) == Ok::<
                    (nat, int),
                    CodecError,
                >((value as nat, next as int))
                &&& value < pow2(bits as nat)
                &&& pos < next <= input@.len()
            },
            Err(e) => unsigned_decoding(input@, pos as int, bits as nat, strict) == Err::<
                (nat, int),
                CodecError,
            >(e),
        },
    decreases bits,
{
    if pos >= input.len() {
        return Err(CodecError::UnexpectedEndOfInput);
    }
    let byte: u8 = input[pos];
    proof {
        lemma2_to64();
        if bits >= 7 {
            lemma_pow2_adds(7, (bits - 7) as nat);
            lemma_power_at_least(bits as nat, 7);
        }
    }
    if byte < 128 {
        if bits < 7 && byte >= small_power(bits) {
            Err(CodecError::MalformedInteger)
        } else {
            Ok((byte as u64, pos + 1))
        }
    } else if bits <= 7 {
        Err(CodecError::MalformedInteger)
    } else {
        match decode_unsigned(input, pos + 1, bits - 7, strict) {
            Ok((high, next)) => {
                if strict && high == 0 {
                    Err(CodecError::MalformedInteger)
                } else {
                    proof {
                        lemma_power_at_most_64(bits as nat);
                    }
                    Ok(((byte - 128) as u64 + 128 * high, next))
                }
            },
            Err(e) => Err(e),
        }
    }
}

/// Reads a signed integer of at most `bits` bits at `pos`.
/// Returns the value and the position behind its last byte.
pub fn decode_signed(input: &[u8], pos: usize, bits: u32, strict: bool) -> (result: Result<
    (i64, usize),
    CodecError,
>)
    requires
        1 <= bits <= 64,
    ensures
        match result {
            Ok((value, next)) => {
                &&& signed_decoding(input@, pos as int, bits as nat, strict) == Ok::<
                    (int, int),
                    CodecError,
                >((value as int, next as int))
                &&& -pow2((bits - 1) as nat) <= value < pow2((bits - 1) as nat)
                &&& pos < next <= input@.len()
            },
            Err(e) => signed_decoding(input@, pos as int, bits as nat, strict) == Err::<
                (int, int),
                CodecError,
            >(e),
        },
    decreases bits,
{
    if pos >= input.len() {
        return Err(CodecError::UnexpectedEndOfInput);
    }
    let byte: u8 = input[pos];
    proof {
        lemma2_to64();
        if bits >= 8 {
            lemma_pow2_adds(7, (bits - 8) as nat);
        }
        if bits >= 7 {
            lemma_power_at_least((bits - 1) as nat, 6);
        }
    }
    if byte < 64 {
        if bits < 7 && byte >= small_power(bits - 1) {
            Err(CodecError::MalformedInteger)
        } else {
            Ok((byte as i64, pos + 1))
        }
    } else if byte < 128 {
        if bits < 7 && byte < 128 - small_power(bits - 1) {
            Err(CodecError::MalformedInteger)
        } else {
            Ok((byte as i64 - 128, pos + 1))
        }
    } else if bits <= 7 {
        Err(CodecError::MalformedInteger)
    } else {
        match decode_signed(input, pos + 1, bits - 7, strict) {
            Ok((high, next)) => {
                if strict && ((high == 0 && byte < 192) || (high == -1 && byte >= 192)) {
                    Err(CodecError::MalformedInteger)
                } else {
                    proof {
                        lemma2_to64_rest();
                        lemma_power_at_least(63, (bits - 1) as nat);
                        assert(pow2((bits - 1) as nat) == 128 * pow2((bits - 8) as nat)) by {
                            lemma2_to64();
                            lemma_pow2_adds(7, (bits - 8) as nat);
                        }
                    }
                    Ok(((byte - 128) as i64 + 128 * high, next))
                }
            },
            Err(e) => Err(e),
        }
    }
}

proof fn lemma_power_at_most_64(bits: nat)
    requires
        bits <= 64,
    ensures
        pow2(bits) <= 0x1_0000_0000_0000_0000,
{
    lemma2_to64();
    if bits < 64 {
        lemma_pow2_strictly_increases(bits, 64);
    }
}

proof fn lemma_power_at_least(bits: nat, low: nat)
    requires
        low <= bits,
    ensures
        pow2(low) <= pow2(bits),
{
    if low < bits {
        lemma_pow2_strictly_increases(low, bits);
    }
}

/// Round trip: where the encoding of a value that fits `bits` bits stands in
/// the input, reading gives back that value and the position behind the
/// encoding, in strict and in tolerant mode alike.
pub proof fn lemma_unsigned_round_trip(
    input: Seq<u8>,
    pos: int,
    value: nat,
    bits: nat,
    strict: bool,
)
    requires
        value < pow2(bits),
        occurs_at(input, pos, unsigned_encoding(value)),
    ensures
        unsigned_decoding(input, pos, bits, strict) == Ok::<(nat, int), CodecError>(
            (value, pos + unsigned_encoding(value).len()),
        ),
    decreases value,
{
    let encoding = unsigned_encoding(value);
    assert(input[pos] == encoding[0]);
    lemma2_to64();
    if value >= 128 {
        if bits <= 7 {
            lemma_power_at_least(7, bits);
        }
        lemma_pow2_adds(7, (bits - 7) as nat);
        let rest = unsigned_encoding(value / 128);
        assert forall|i: int| 0 <= i < rest.len() implies input[pos + 1 + i] == #[trigger] rest[i] by {
            assert(encoding[i + 1] == rest[i]);
        }
        lemma_unsigned_round_trip(input, pos + 1, value / 128, (bits - 7) as nat, strict);
    }
}

/// Minimality: whatever bytes are read as a value, they are at least as many
/// as the encoding of that value; and where they are exactly as many, or
/// reading was strict, they are that encoding. So the encoding is the one
/// shortest form of a value, and strict reading accepts no other.
pub proof fn lemma_unsigned_minimal(input: Seq<u8>, pos: int, bits: nat, strict: bool)
    requires
        unsigned_decoding(input, pos, bits, strict) is Ok,
    ensures
        ({
            let (value, next) = unsigned_decoding(input, pos, bits, strict)->Ok_0;
            &&& value < pow2(bits)
            &&& 0 <= pos < next <= input.len()
            &&& unsigned_encoding(value).len() <= next - pos
            &&& (strict || unsigned_encoding(value).len() == next - pos) ==> input.subrange(
                pos,
                next,
            ) == unsigned_encoding(value)
        }),
    decreases bits,
{
    let (value, next) = unsigned_decoding(input, pos, bits, strict)->Ok_0;
    lemma2_to64();
    if input[pos] < 128 {
        if bits >= 7 {
            lemma_power_at_least(bits, 7);
        }
        assert(input.subrange(pos, next) =~= unsigned_encoding(value));
    } else {
        lemma_pow2_adds(7, (bits - 7) as nat);
        lemma_unsigned_minimal(input, pos + 1, (bits - 7) as nat, strict);
        let (high, _) = unsigned_decoding(input, pos + 1, (bits - 7) as nat, strict)->Ok_0;
        if high > 0 {
            assert(value / 128 == high && value % 128 == input[pos] - 128);
            if strict || unsigned_encoding(value).len() == next - pos {
                assert(input.subrange(pos, next) =~= seq![input[pos]] + input.subrange(
                    pos + 1,
                    next,
                ));
            }
        }
    }
}

/// Round trip for signed integers: where the encoding of a value that fits
/// `bits` bits in two's complement stands in the input, reading gives back
/// that value and the position behind the encoding.
pub proof fn lemma_signed_round_trip(
    input: Seq<u8>,
    pos: int,
    value: int,
    bits: nat,
    strict: bool,
)
    requires
        bits >= 1,
        -pow2((bits - 1) as nat) <= value < pow2((bits - 1) as nat),
        occurs_at(input, pos, signed_encoding(value)),
    ensures
        signed_decoding(input, pos, bits, strict) == Ok::<(int, int), CodecError>(
            (value, pos + signed_encoding(value).len()),
        ),
    decreases (if value >= 0 { value } else { -value }),
{
    let encoding = signed_encoding(value);
    assert(input[pos] == encoding[0]);
    lemma2_to64();
    if !(-64 <= value < 64) {
        if bits <= 7 {
            lemma_power_at_least(6, (bits - 1) as nat);
        }
        lemma_pow2_adds(7, (bits - 8) as nat);
        let rest = signed_encoding(value / 128);
        assert forall|i: int| 0 <= i < rest.len() implies input[pos + 1 + i] == #[trigger] rest[i] by {
            assert(encoding[i + 1] == rest[i]);
        }
        lemma_signed_round_trip(input, pos + 1, value / 128, (bits - 7) as nat, strict);
    }
}

/// Minimality for signed integers: the bytes read as a value are at least as
/// many as its encoding, and are that encoding where they are exactly as many
/// or reading was strict.
pub proof fn lemma_signed_minimal(input: Seq<u8>, pos: int, bits: nat, strict: bool)
    requires
        bits >= 1,
        signed_decoding(input, pos, bits, strict) is Ok,
    ensures
        ({
            let (value, next) = signed_decoding(input, pos, bits, strict)->Ok_0;
            &&& -pow2((bits - 1) as nat) <= value < pow2((bits - 1) as nat)
            &&& 0 <= pos < next <= input.len()
            &&& signed_encoding(value).len() <= next - pos
            &&& (strict || signed_encoding(value).len() == next - pos) ==> input.subrange(
                pos,
                next,
            ) == signed_encoding(value)
        }),
    decreases bits,
{
    let (value, next) = signed_decoding(input, pos, bits, strict)->Ok_0;
    lemma2_to64();
    if input[pos] < 128 {
        if bits >= 7 {
            lemma_power_at_least((bits - 1) as nat, 6);
        }
        assert(input.subrange(pos, next) =~= signed_encoding(value));
    } else {
        lemma_pow2_adds(7, (bits - 8) as nat);
        lemma_signed_minimal(input, pos + 1, (bits - 7) as nat, strict);
        let (high, _) = signed_decoding(input, pos + 1, (bits - 7) as nat, strict)->Ok_0;
        assert(value / 128 == high && value % 128 == input[pos] - 128);
        if !(-64 <= value < 64) {
            if strict || signed_encoding(value).len() == next - pos {
                assert(input.subrange(pos, next) =~= seq![input[pos]] + input.subrange(
                    pos + 1,
                    next,
                ));
            }
        }
    }
}

/// What strict reading accepts as an unsigned integer is the encoding of
/// the integer that it yields.
pub proof fn lemma_unsigned_strict_occurs(input: Seq<u8>, pos: int, bits: nat)
    requires
        unsigned_decoding(input, pos, bits, true) is Ok,
    ensures
        ({
            let (value, next) = unsigned_decoding(input, pos, bits, true)->Ok_0;
            &&& value < pow2(bits)
            &&& occurs_at(input, pos, unsigned_encoding(value))
            &&& next == pos + unsigned_encoding(value).len()
            &&& next > pos
        }),
{
    lemma_unsigned_minimal(input, pos, bits, true);
    let (value, next) = unsigned_decoding(input, pos, bits, true)->Ok_0;
    let encoding = unsigned_encoding(value);
    assert(input.subrange(pos, next).len() == next - pos);
    assert forall|i: int| 0 <= i < encoding.len() implies input[pos + i] == #[trigger] encoding[i] by {
        assert(input.subrange(pos, next)[i] == input[pos + i]);
    }
}

/// What strict reading accepts as a signed integer is the encoding of the
/// integer that it yields.
pub proof fn lemma_signed_strict_occurs(input: Seq<u8>, pos: int, bits: nat)
    requires
        bits >= 1,
        signed_decoding(input, pos, bits, true) is Ok,
    ensures
        ({
            let (value, next) = signed_decoding(input, pos, bits, true)->Ok_0;
            &&& -pow2((bits - 1) as nat) <= value < pow2((bits - 1) as nat)
            &&& occurs_at(input, pos, signed_encoding(value))
            &&& next == pos + signed_encoding(value).len()
            &&& next > pos
        }),
{
    lemma_signed_minimal(input, pos, bits, true);
    let (value, next) = signed_decoding(input, pos, bits, true)->Ok_0;
    let encoding = signed_encoding(value);
    assert(input.subrange(pos, next).len() == next - pos);
    assert forall|i: int| 0 <= i < encoding.len() implies input[pos + i] == #[trigger] encoding[i] by {
        assert(input.subrange(pos, next)[i] == input[pos + i]);
    }
}

} // verus!
