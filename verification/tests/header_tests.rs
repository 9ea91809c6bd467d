use qisa_header::header::Header;
use qisa_header::header::HeaderError;
use qisa_header::header::QISA_HEADER_SIZE;
use qisa_header::header::QISA_VERSION;

fn sample_header() -> Header {
    Header::new(2, 1, 10, 64, 128, 64, 256)
}

#[test]
fn new_sets_version_flags_and_zero_checksum() {
    let h = sample_header();
    assert_eq!(h.version, QISA_VERSION);
    assert_eq!(h.flags, 0);
    assert_eq!(h.logical_qubit_count, 2);
    assert_eq!(h.classical_register_count, 1);
    assert_eq!(h.instruction_count, 10);
    assert_eq!(h.constant_pool_offset, 64);
    assert_eq!(h.instruction_stream_offset, 128);
    assert_eq!(h.constant_pool_size, 64);
    assert_eq!(h.instruction_stream_size, 256);
    assert_eq!(h.header_checksum, 0);
}

#[test]
fn scenario_layout_and_round_trip() {
    let h = sample_header();
    let buf = h.serialize();
    assert_eq!(buf.len(), 64);
    assert_eq!(u32::from_le_bytes([buf[8], buf[9], buf[10], buf[11]]), 2);
    assert_eq!(u32::from_le_bytes([buf[12], buf[13], buf[14], buf[15]]), 1);
    assert_eq!(
        u64::from_le_bytes([buf[40], buf[41], buf[42], buf[43], buf[44], buf[45], buf[46], buf[47]]),
        64
    );
    let parsed = Header::parse(&buf).expect("a freshly serialized header must parse");
    let mut expected = h;
    expected.header_checksum = parsed.header_checksum;
    assert_eq!(parsed, expected);
    assert_ne!(parsed.header_checksum, 0);
}

#[test]
fn serialized_bytes_match_golden_value() {
    let buf = sample_header().serialize();
    let expected: [u8; 64] = [
        77, 84, 85, 65, 1, 0, 0, 0, 2, 0, 0, 0, 1, 0, 0, 0, 10, 0, 0, 0, 0, 0, 0, 0, 64, 0, 0, 0,
        0, 0, 0, 0, 128, 0, 0, 0, 0, 0, 0, 0, 64, 0, 0, 0, 0, 0, 0, 0, 0, 1, 0, 0, 0, 0, 0, 0, 41,
        59, 220, 175, 36, 13, 237, 138,
    ];
    assert_eq!(buf, expected);
    let parsed = Header::parse(&buf).unwrap();
    assert_eq!(parsed.header_checksum, 0x8aed0d24afdc3b29);
}

#[test]
fn round_trip_recovers_every_field() {
    let h = Header::new(
        u32::MAX,
        0,
        u64::MAX,
        1,
        0x0123456789abcdef,
        0xfedcba9876543210,
        42,
    );
    let parsed = Header::parse(&h.serialize()).unwrap();
    assert_eq!(parsed.version, h.version);
    assert_eq!(parsed.flags, h.flags);
    assert_eq!(parsed.logical_qubit_count, h.logical_qubit_count);
    assert_eq!(parsed.classical_register_count, h.classical_register_count);
    assert_eq!(parsed.instruction_count, h.instruction_count);
    assert_eq!(parsed.constant_pool_offset, h.constant_pool_offset);
    assert_eq!(parsed.instruction_stream_offset, h.instruction_stream_offset);
    assert_eq!(parsed.constant_pool_size, h.constant_pool_size);
    assert_eq!(parsed.instruction_stream_size, h.instruction_stream_size);
}

#[test]
fn short_inputs_fail_too_small() {
    let buf = sample_header().serialize();
    for len in 0..QISA_HEADER_SIZE {
        assert_eq!(Header::parse(&buf[0..len]), Err(HeaderError::TooSmall));
    }
}

#[test]
fn all_zero_buffer_fails_invalid_magic() {
    let zeros = [0u8; 64];
    assert_eq!(Header::parse(&zeros), Err(HeaderError::InvalidMagic));
}

#[test]
fn magic_corruption_fails_invalid_magic() {
    let buf = sample_header().serialize();
    for i in 0..4 {
        for bit in 0..8 {
            let mut corrupted = buf;
            corrupted[i] ^= 1u8 << bit;
            assert_eq!(Header::parse(&corrupted), Err(HeaderError::InvalidMagic));
        }
    }
}

#[test]
fn bit_flip_in_covered_window_fails_checksum_mismatch() {
    let buf = sample_header().serialize();
    for i in 4..56 {
        for bit in 0..8 {
            let mut corrupted = buf;
            corrupted[i] ^= 1u8 << bit;
            assert_eq!(Header::parse(&corrupted), Err(HeaderError::ChecksumMismatch));
        }
    }
}

#[test]
fn stored_checksum_corruption_fails_checksum_mismatch() {
    let buf = sample_header().serialize();
    for i in 56..64 {
        let mut corrupted = buf;
        corrupted[i] ^= 0x80;
        assert_eq!(Header::parse(&corrupted), Err(HeaderError::ChecksumMismatch));
    }
}

#[test]
fn serialization_is_deterministic() {
    let h1 = sample_header();
    let h2 = sample_header();
    assert_eq!(h1.serialize(), h2.serialize());
    // The stored checksum field does not feed the output: it is recomputed.
    let mut h3 = sample_header();
    h3.header_checksum = 0xdeadbeef;
    assert_eq!(h3.serialize(), h1.serialize());
}

#[test]
fn trailing_payload_bytes_are_ignored() {
    let h = sample_header();
    let buf = h.serialize();
    let mut file = buf.to_vec();
    file.extend_from_slice(&[0xAB; 320]);
    assert_eq!(Header::parse(&file), Header::parse(&buf));
}

#[test]
fn parsed_header_reserializes_to_same_bytes() {
    let buf = sample_header().serialize();
    let parsed = Header::parse(&buf).unwrap();
    assert_eq!(parsed.serialize(), buf);
}
