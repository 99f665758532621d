use ix_codec::{
    decode_text, encode_verified, from_text, push_u32_le, read_u32_le, to_text, verify_text,
    AccountMetaData, CodecError, InstructionData,
};

fn account(fill: u8, is_signer: bool, is_writable: bool) -> AccountMetaData {
    AccountMetaData { pubkey: [fill; 32], is_signer, is_writable }
}

fn sample() -> InstructionData {
    InstructionData {
        program_id: [0x01; 32],
        accounts: vec![account(0x02, true, false)],
        data: vec![0xAA, 0xBB],
    }
}

fn empty_record() -> InstructionData {
    InstructionData { program_id: [0x07; 32], accounts: vec![], data: vec![] }
}

#[test]
fn sample_encodes_to_76_bytes_in_layout_order() {
    let bytes = sample().to_bytes();
    assert_eq!(bytes.len(), 32 + 4 + (32 + 1 + 1) + 4 + 2);
    assert_eq!(bytes.len(), 76);
    let mut expected: Vec<u8> = vec![0x01; 32];
    expected.extend_from_slice(&[1, 0, 0, 0]);
    expected.extend_from_slice(&[0x02; 32]);
    expected.extend_from_slice(&[1, 0]);
    expected.extend_from_slice(&[2, 0, 0, 0]);
    expected.extend_from_slice(&[0xAA, 0xBB]);
    assert_eq!(bytes, expected);
}

#[test]
fn sample_text_decodes_to_identical_record() {
    let record = sample();
    let text = encode_verified(&record).unwrap();
    assert_eq!(text, to_text(&record.to_bytes()));
    assert!(!text.contains('='));
    let decoded = decode_text(&text).unwrap();
    assert_eq!(decoded, record);
    assert_eq!(verify_text(&text, &record), Ok(()));
}

#[test]
fn empty_record_is_40_bytes_and_round_trips() {
    let record = empty_record();
    let bytes = record.to_bytes();
    assert_eq!(bytes.len(), 40);
    assert_eq!(InstructionData::from_bytes(&bytes), Ok(record.clone()));
    let text = encode_verified(&record).unwrap();
    assert_eq!(decode_text(&text), Ok(record));
}

#[test]
fn round_trip_keeps_every_field() {
    let record = InstructionData {
        program_id: [0xFE; 32],
        accounts: vec![account(0x10, false, true), account(0x11, true, true), account(0x12, false, false)],
        data: (0u8..=255).collect(),
    };
    let bytes = record.to_bytes();
    assert_eq!(bytes.len(), 40 + 3 * 34 + 256);
    assert_eq!(InstructionData::from_bytes(&bytes), Ok(record));
}

#[test]
fn account_order_is_preserved() {
    let a = account(0x0A, true, false);
    let b = account(0x0B, false, true);
    let c = account(0x0C, true, true);
    let record = InstructionData { program_id: [0; 32], accounts: vec![a, b, c], data: vec![1] };
    let decoded = InstructionData::from_bytes(&record.to_bytes()).unwrap();
    assert_eq!(decoded.accounts, vec![a, b, c]);
    assert_ne!(decoded.accounts, vec![b, a, c]);
}

#[test]
fn missing_last_byte_is_truncated_input() {
    for record in [sample(), empty_record()] {
        let mut bytes = record.to_bytes();
        bytes.pop();
        assert_eq!(InstructionData::from_bytes(&bytes), Err(CodecError::TruncatedInput));
    }
}

#[test]
fn every_proper_prefix_is_truncated_input() {
    let bytes = sample().to_bytes();
    for n in 0..bytes.len() {
        assert_eq!(InstructionData::from_bytes(&bytes[..n]), Err(CodecError::TruncatedInput));
    }
}

#[test]
fn extra_byte_is_trailing_bytes() {
    for record in [sample(), empty_record()] {
        let mut bytes = record.to_bytes();
        bytes.push(0);
        assert_eq!(InstructionData::from_bytes(&bytes), Err(CodecError::TrailingBytes));
    }
}

#[test]
fn flag_byte_other_than_zero_or_one_is_rejected() {
    let mut bytes = sample().to_bytes();
    bytes[32 + 4 + 32] = 2;
    assert_eq!(InstructionData::from_bytes(&bytes), Err(CodecError::InvalidFlag));
    let mut bytes = sample().to_bytes();
    bytes[32 + 4 + 33] = 0xFF;
    assert_eq!(InstructionData::from_bytes(&bytes), Err(CodecError::InvalidFlag));
}

#[test]
fn huge_declared_count_without_bytes_is_truncated_input() {
    let mut bytes: Vec<u8> = vec![0; 32];
    bytes.extend_from_slice(&[0xFF, 0xFF, 0xFF, 0xFF]);
    assert_eq!(InstructionData::from_bytes(&bytes), Err(CodecError::TruncatedInput));
    let mut bytes = empty_record().to_bytes();
    let n = bytes.len();
    bytes[n - 4..].copy_from_slice(&[0xFF, 0xFF, 0xFF, 0x7F]);
    assert_eq!(InstructionData::from_bytes(&bytes), Err(CodecError::TruncatedInput));
}

#[test]
fn counts_are_little_endian() {
    let mut out: Vec<u8> = vec![9];
    push_u32_le(&mut out, 0x0102_0304);
    assert_eq!(out, vec![9, 4, 3, 2, 1]);
    assert_eq!(read_u32_le(&out, 1), 0x0102_0304);
    assert_eq!(read_u32_le(&[0xFF, 0xFF, 0xFF, 0xFF], 0), u32::MAX);
}

#[test]
fn text_round_trip_for_all_short_inputs() {
    assert_eq!(to_text(&[]), "");
    assert_eq!(from_text(""), Ok(vec![]));
    for len in 0..70usize {
        let b: Vec<u8> = (0..len).map(|i| (i * 37 + 11) as u8).collect();
        assert_eq!(from_text(&to_text(&b)), Ok(b));
    }
}

#[test]
fn text_is_unpadded_standard_base64() {
    assert_eq!(to_text(b"hello"), "aGVsbG8");
    assert_eq!(to_text(&[0xFB, 0xFF]), "+/8");
    assert_eq!(from_text("aGVsbG8"), Ok(b"hello".to_vec()));
}

#[test]
fn malformed_text_is_invalid_encoding() {
    assert_eq!(from_text("aGVsbG8="), Err(CodecError::InvalidEncoding));
    assert_eq!(from_text("a"), Err(CodecError::InvalidEncoding));
    assert_eq!(from_text("aGV!"), Err(CodecError::InvalidEncoding));
    assert_eq!(from_text("aGVsbG9"), Err(CodecError::InvalidEncoding));
    assert_eq!(decode_text("aGV sbG8"), Err(CodecError::InvalidEncoding));
    assert_eq!(verify_text("@@", &sample()), Err(CodecError::InvalidEncoding));
}

#[test]
fn text_of_other_record_is_round_trip_mismatch() {
    let text = encode_verified(&empty_record()).unwrap();
    assert_eq!(verify_text(&text, &sample()), Err(CodecError::RoundTripMismatch));
}

#[test]
fn text_of_bad_binary_reports_binary_error() {
    let mut bytes = sample().to_bytes();
    bytes.push(1);
    assert_eq!(decode_text(&to_text(&bytes)), Err(CodecError::TrailingBytes));
    assert_eq!(verify_text(&to_text(&bytes[..10]), &sample()), Err(CodecError::TruncatedInput));
}

#[test]
fn layout_matches_borsh_field_order_encoding() {
    let ours = sample().to_bytes();
    let theirs = borsh::to_vec(&([0x01u8; 32], vec![([0x02u8; 32], true, false)], vec![0xAAu8, 0xBB])).unwrap();
    assert_eq!(ours, theirs);
    let back: ([u8; 32], Vec<([u8; 32], bool, bool)>, Vec<u8>) = borsh::from_slice(&ours).unwrap();
    assert_eq!(back.1, vec![([0x02u8; 32], true, false)]);
    assert_eq!(back.2, vec![0xAA, 0xBB]);
}
