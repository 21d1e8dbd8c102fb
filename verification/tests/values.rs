use wasm_ast::{
    decode_byte, decode_bytes, decode_f32, decode_f64, decode_i32, decode_i64, decode_repeated,
    decode_u32, decode_u64, decode_vector, emit_byte, emit_bytes, emit_f32, emit_f64, emit_i32,
    emit_i64, emit_name, emit_repeated, emit_u32, emit_u64, emit_usize, emit_vector, CodecError,
    ValueType,
};

#[test]
fn test_vectored() {
    let bytes: [u8; 4] = [1, 2, 3, 4];
    let mut buffer: Vec<u8> = Vec::new();

    let emitted = emit_vector(&bytes, &mut buffer).unwrap();

    assert_eq!(emitted, 1 + bytes.len());
    assert_eq!(buffer[0] as usize, bytes.len());
    assert_eq!(&bytes[..], &buffer[1..]);
}

fn unsigned(value: u64) -> Vec<u8> {
    let mut buffer = Vec::new();
    let written = emit_u64(value, &mut buffer).unwrap();
    assert_eq!(written, buffer.len());
    buffer
}

fn signed(value: i64) -> Vec<u8> {
    let mut buffer = Vec::new();
    let written = emit_i64(value, &mut buffer).unwrap();
    assert_eq!(written, buffer.len());
    buffer
}

#[test]
fn unsigned_known_encodings() {
    assert_eq!(unsigned(0), vec![0x00]);
    assert_eq!(unsigned(1), vec![0x01]);
    assert_eq!(unsigned(127), vec![0x7F]);
    assert_eq!(unsigned(128), vec![0x80, 0x01]);
    assert_eq!(unsigned(624485), vec![0xE5, 0x8E, 0x26]);
    assert_eq!(unsigned(u32::MAX as u64), vec![0xFF, 0xFF, 0xFF, 0xFF, 0x0F]);
    assert_eq!(
        unsigned(u64::MAX),
        vec![0xFF, 0xFF, 0xFF, 0xFF, 0xFF, 0xFF, 0xFF, 0xFF, 0xFF, 0x01]
    );
}

#[test]
fn signed_known_encodings() {
    assert_eq!(signed(0), vec![0x00]);
    assert_eq!(signed(-1), vec![0x7F]);
    assert_eq!(signed(63), vec![0x3F]);
    assert_eq!(signed(64), vec![0xC0, 0x00]);
    assert_eq!(signed(-64), vec![0x40]);
    assert_eq!(signed(-65), vec![0xBF, 0x7F]);
    assert_eq!(signed(-123456), vec![0xC0, 0xBB, 0x78]);
    assert_eq!(signed(i32::MIN as i64), vec![0x80, 0x80, 0x80, 0x80, 0x78]);
    assert_eq!(signed(i32::MAX as i64), vec![0xFF, 0xFF, 0xFF, 0xFF, 0x07]);
    assert_eq!(
        signed(i64::MIN),
        vec![0x80, 0x80, 0x80, 0x80, 0x80, 0x80, 0x80, 0x80, 0x80, 0x7F]
    );
    assert_eq!(
        signed(i64::MAX),
        vec![0xFF, 0xFF, 0xFF, 0xFF, 0xFF, 0xFF, 0xFF, 0xFF, 0xFF, 0x00]
    );
}

#[test]
fn emit_widths_agree() {
    let mut a = Vec::new();
    let mut b = Vec::new();
    let mut c = Vec::new();
    assert_eq!(emit_u32(300, &mut a), Ok(2));
    assert_eq!(emit_u64(300, &mut b), Ok(2));
    assert_eq!(emit_usize(300, &mut c), Ok(2));
    assert_eq!(a, vec![0xAC, 0x02]);
    assert_eq!(a, b);
    assert_eq!(a, c);
    let mut d = Vec::new();
    let mut e = Vec::new();
    assert_eq!(emit_i32(-300, &mut d), Ok(2));
    assert_eq!(emit_i64(-300, &mut e), Ok(2));
    assert_eq!(d, vec![0xD4, 0x7D]);
    assert_eq!(d, e);
}

#[test]
fn integer_round_trips_at_the_boundaries() {
    for value in [0u64, 1, 127, 128, 16383, 16384, u32::MAX as u64, u64::MAX] {
        for strict in [false, true] {
            let bytes = unsigned(value);
            assert_eq!(decode_u64(&bytes, 0, strict), Ok((value, bytes.len())));
        }
    }
    for value in [0i64, -1, 63, 64, -64, -65, i32::MIN as i64, i32::MAX as i64, i64::MIN, i64::MAX]
    {
        for strict in [false, true] {
            let bytes = signed(value);
            assert_eq!(decode_i64(&bytes, 0, strict), Ok((value, bytes.len())));
        }
    }
    for value in [0i32, -1, i32::MIN, i32::MAX] {
        let mut bytes = Vec::new();
        emit_i32(value, &mut bytes).unwrap();
        assert_eq!(decode_i32(&bytes, 0, true), Ok((value, bytes.len())));
    }
    for value in [0u32, 1, u32::MAX] {
        let mut bytes = Vec::new();
        emit_u32(value, &mut bytes).unwrap();
        assert_eq!(decode_u32(&bytes, 0, true), Ok((value, bytes.len())));
    }
}

#[test]
fn decoding_reads_from_the_given_position() {
    let bytes = [0xFF, 0xE5, 0x8E, 0x26, 0x00];
    assert_eq!(decode_u32(&bytes, 1, true), Ok((624485, 4)));
}

#[test]
fn integer_too_wide_is_malformed() {
    assert_eq!(
        decode_u32(&[0xFF, 0xFF, 0xFF, 0xFF, 0x1F], 0, false),
        Err(CodecError::MalformedInteger)
    );
    assert_eq!(
        decode_u32(&[0x80, 0x80, 0x80, 0x80, 0x80, 0x00], 0, false),
        Err(CodecError::MalformedInteger)
    );
    assert_eq!(
        decode_i32(&[0xFF, 0xFF, 0xFF, 0xFF, 0x0F], 0, false),
        Err(CodecError::MalformedInteger)
    );
    assert_eq!(
        decode_i64(&[0x80, 0x80, 0x80, 0x80, 0x80, 0x80, 0x80, 0x80, 0x80, 0x7E], 0, false),
        Err(CodecError::MalformedInteger)
    );
    assert_eq!(
        decode_u64(&[0xFF, 0xFF, 0xFF, 0xFF, 0xFF, 0xFF, 0xFF, 0xFF, 0xFF, 0x02], 0, false),
        Err(CodecError::MalformedInteger)
    );
}

#[test]
fn integer_cut_short_is_unexpected_end() {
    assert_eq!(decode_u32(&[], 0, false), Err(CodecError::UnexpectedEndOfInput));
    assert_eq!(decode_u32(&[0x80], 0, false), Err(CodecError::UnexpectedEndOfInput));
    assert_eq!(decode_i64(&[0xFF, 0xFF], 0, true), Err(CodecError::UnexpectedEndOfInput));
    assert_eq!(decode_u64(&[0x01], 1, true), Err(CodecError::UnexpectedEndOfInput));
}

#[test]
fn padded_integer_is_malformed_only_when_strict() {
    assert_eq!(decode_u32(&[0x80, 0x00], 0, false), Ok((0, 2)));
    assert_eq!(decode_u32(&[0x80, 0x00], 0, true), Err(CodecError::MalformedInteger));
    assert_eq!(decode_u32(&[0x85, 0x80, 0x00], 0, false), Ok((5, 3)));
    assert_eq!(decode_u32(&[0x85, 0x80, 0x00], 0, true), Err(CodecError::MalformedInteger));
    assert_eq!(decode_i32(&[0xFF, 0x7F], 0, false), Ok((-1, 2)));
    assert_eq!(decode_i32(&[0xFF, 0x7F], 0, true), Err(CodecError::MalformedInteger));
    assert_eq!(decode_i32(&[0x80, 0x00], 0, false), Ok((0, 2)));
    assert_eq!(decode_i32(&[0x80, 0x00], 0, true), Err(CodecError::MalformedInteger));
    assert_eq!(decode_i32(&[0xC0, 0x00], 0, true), Ok((64, 2)));
    assert_eq!(decode_i32(&[0xBF, 0x7F], 0, true), Ok((-65, 2)));
}

#[test]
fn bytes_and_bit_patterns() {
    let mut buffer = Vec::new();
    assert_eq!(emit_byte(0xAB, &mut buffer), Ok(1));
    assert_eq!(emit_f32(1.5f32.to_bits(), &mut buffer), Ok(4));
    assert_eq!(emit_f64((-2.25f64).to_bits(), &mut buffer), Ok(8));
    let mut expected = vec![0xAB];
    expected.extend_from_slice(&1.5f32.to_le_bytes());
    expected.extend_from_slice(&(-2.25f64).to_le_bytes());
    assert_eq!(buffer, expected);
    assert_eq!(decode_byte(&buffer, 0), Ok((0xAB, 1)));
    assert_eq!(decode_f32(&buffer, 1), Ok((1.5f32.to_bits(), 5)));
    assert_eq!(decode_f64(&buffer, 5), Ok(((-2.25f64).to_bits(), 13)));
    assert_eq!(decode_byte(&buffer, 13), Err(CodecError::UnexpectedEndOfInput));
    assert_eq!(decode_f32(&buffer, 10), Err(CodecError::UnexpectedEndOfInput));
    assert_eq!(decode_f64(&buffer, 6), Err(CodecError::UnexpectedEndOfInput));
    assert_eq!(decode_f32(&[0x78, 0x56, 0x34, 0x12], 0), Ok((0x1234_5678, 4)));
}

#[test]
fn byte_runs_and_names() {
    let mut buffer = Vec::new();
    assert_eq!(emit_bytes(&[9, 8, 7], &mut buffer, true), Ok(4));
    assert_eq!(emit_bytes(&[6, 5], &mut buffer, false), Ok(2));
    assert_eq!(buffer, vec![3, 9, 8, 7, 6, 5]);
    assert_eq!(decode_bytes(&buffer, 0, 16, true), Ok((vec![9, 8, 7], 4)));
    assert_eq!(decode_bytes(&buffer, 0, 2, true), Err(CodecError::LimitExceeded));
    assert_eq!(decode_bytes(&[5, 1, 2], 0, 16, true), Err(CodecError::UnexpectedEndOfInput));
    assert_eq!(decode_bytes(&[0], 0, 16, true), Ok((vec![], 1)));

    let mut name = Vec::new();
    assert_eq!(emit_name("héllo", &mut name), Ok(7));
    assert_eq!(name, vec![6, b'h', 0xC3, 0xA9, b'l', b'l', b'o']);
    let mut empty = Vec::new();
    assert_eq!(emit_name("", &mut empty), Ok(1));
    assert_eq!(empty, vec![0]);
}

#[test]
fn vectors_frame_their_items() {
    let labels: Vec<u32> = vec![0, 300, 7];
    let mut buffer = vec![0xEE];
    assert_eq!(emit_vector(&labels, &mut buffer), Ok(5));
    assert_eq!(buffer, vec![0xEE, 3, 0, 0xAC, 0x02, 7]);
    assert_eq!(decode_vector::<u32>(&buffer, 1, 100, true), Ok((labels.clone(), 6)));

    let mut bare = Vec::new();
    assert_eq!(emit_repeated(&labels, &mut bare), Ok(4));
    assert_eq!(bare, vec![0, 0xAC, 0x02, 7]);
    assert_eq!(decode_repeated::<u32>(&bare, 0, 3, true), Ok((labels, 4)));
    assert_eq!(decode_repeated::<u32>(&bare, 0, 4, true), Err(CodecError::UnexpectedEndOfInput));

    let kinds = vec![ValueType::I32, ValueType::ExternalReference];
    let mut tagged = Vec::new();
    assert_eq!(emit_vector(&kinds, &mut tagged), Ok(3));
    assert_eq!(tagged, vec![2, 0x7F, 0x6F]);
    assert_eq!(decode_vector::<ValueType>(&tagged, 0, 2, true), Ok((kinds, 3)));
    assert_eq!(
        decode_vector::<ValueType>(&[1, 0x00], 0, 2, true),
        Err(CodecError::InvalidImmediate)
    );
}

#[test]
fn empty_vector_round_trips() {
    let none: Vec<u8> = Vec::new();
    let mut buffer = Vec::new();
    assert_eq!(emit_vector(&none, &mut buffer), Ok(1));
    assert_eq!(buffer, vec![0]);
    assert_eq!(decode_vector::<u8>(&buffer, 0, 0, true), Ok((none.clone(), 1)));
    let mut bare = Vec::new();
    assert_eq!(emit_repeated(&none, &mut bare), Ok(0));
    assert!(bare.is_empty());
    assert_eq!(decode_repeated::<u8>(&bare, 0, 0, true), Ok((none, 0)));
}

#[test]
fn huge_declared_count_fails_without_the_items() {
    // The count claims 2^32 - 1 items; four bytes follow.
    let input = [0xFF, 0xFF, 0xFF, 0xFF, 0x0F, 1, 2, 3, 4];
    assert_eq!(
        decode_vector::<u8>(&input, 0, usize::MAX, true),
        Err(CodecError::UnexpectedEndOfInput)
    );
    assert_eq!(decode_vector::<u8>(&input, 0, 1000, true), Err(CodecError::LimitExceeded));
    assert_eq!(
        decode_bytes(&input, 0, usize::MAX, true),
        Err(CodecError::UnexpectedEndOfInput)
    );
    assert_eq!(decode_vector::<u8>(&[], 0, 10, true), Err(CodecError::UnexpectedEndOfInput));
}
