use qisa_header::checksum::fnv1a_64;
use qisa_header::checksum::FNV_OFFSET_BASIS;

#[test]
fn fnv1a_of_empty_input_is_offset_basis() {
    assert_eq!(fnv1a_64(&[]), FNV_OFFSET_BASIS);
    assert_eq!(fnv1a_64(&[]), 0xcbf29ce484222325);
}

#[test]
fn fnv1a_matches_known_vectors() {
    assert_eq!(fnv1a_64(b"a"), 0xaf63dc4c8601ec8c);
    assert_eq!(fnv1a_64(b"foobar"), 0x85944171f73967e8);
}

#[test]
fn fnv1a_changes_when_one_byte_changes() {
    let original: [u8; 4] = [0x10, 0x20, 0x30, 0x40];
    let baseline = fnv1a_64(&original);
    for i in 0..original.len() {
        let mut altered = original;
        altered[i] ^= 0x01;
        assert_ne!(fnv1a_64(&altered), baseline);
    }
}
