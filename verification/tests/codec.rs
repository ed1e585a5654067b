use docstore_scan::codec::{decode_be, encode_be};
use docstore_scan::lex::lex_lt_exec;

#[test]
fn encode_width_and_bytes() {
    assert_eq!(encode_be(0), vec![0, 0, 0, 0, 0, 0, 0, 0]);
    assert_eq!(encode_be(1), vec![0, 0, 0, 0, 0, 0, 0, 1]);
    assert_eq!(
        encode_be(0x0102030405060708),
        vec![1, 2, 3, 4, 5, 6, 7, 8]
    );
    assert_eq!(encode_be(0x4d2), vec![0, 0, 0, 0, 0, 0, 0x04, 0xd2]);
    assert_eq!(
        encode_be(u64::MAX),
        vec![0xff, 0xff, 0xff, 0xff, 0xff, 0xff, 0xff, 0xff]
    );
}

#[test]
fn round_trip() {
    let samples = [
        0u64,
        1,
        255,
        256,
        0x4d2,
        0x0102030405060708,
        1 << 56,
        u64::MAX - 1,
        u64::MAX,
    ];
    for id in samples {
        assert_eq!(decode_be(&encode_be(id)), id);
    }
}

#[test]
fn decode_reads_leading_bytes_only() {
    let mut key = encode_be(42);
    key.extend_from_slice(&[9, 9, 9, 9]);
    assert_eq!(decode_be(&key), 42);
}

#[test]
fn encoding_preserves_numeric_order() {
    let samples = [0u64, 1, 2, 255, 256, 257, 0x4d2, 1 << 32, u64::MAX - 1, u64::MAX];
    for &a in &samples {
        for &b in &samples {
            assert_eq!(lex_lt_exec(&encode_be(a), &encode_be(b)), a < b);
        }
    }
}

#[test]
fn lex_compare_byte_strings() {
    assert!(lex_lt_exec(&[], &[0]));
    assert!(!lex_lt_exec(&[0], &[]));
    assert!(!lex_lt_exec(&[], &[]));
    assert!(lex_lt_exec(&[1, 2], &[1, 2, 0]));
    assert!(lex_lt_exec(&[1, 2, 3], &[1, 3]));
    assert!(!lex_lt_exec(&[1, 3], &[1, 2, 3]));
    assert!(!lex_lt_exec(&[5, 5], &[5, 5]));
}
