use docstore_scan::codec::encode_be;
use docstore_scan::scanner::{scan_collections, scan_step, ScanStep, StoreError};

fn doc_key(id: u64, suffix: &[u8]) -> Vec<u8> {
    let mut k = encode_be(id);
    k.extend_from_slice(suffix);
    k
}

#[test]
fn seek_skip_reports_each_collection_once() {
    let keys = vec![
        doc_key(1, &[0, 1]),
        doc_key(1, &[0, 2]),
        doc_key(1, &[7]),
        doc_key(3, &[]),
        doc_key(3, &[42]),
        doc_key(7, &[1, 2, 3]),
    ];
    let out = scan_collections(&keys);
    assert_eq!(out.ids, vec![1, 3, 7]);
    assert_eq!(out.error, None);
}

#[test]
fn empty_family_yields_empty_sequence() {
    let keys: Vec<Vec<u8>> = Vec::new();
    let out = scan_collections(&keys);
    assert_eq!(out.ids, Vec::<u64>::new());
    assert_eq!(out.error, None);
}

#[test]
fn boundary_id_terminates_without_overflow() {
    let keys = vec![doc_key(u64::MAX, &[5, 5])];
    let out = scan_collections(&keys);
    assert_eq!(out.ids, vec![u64::MAX]);
    assert_eq!(out.error, None);
}

#[test]
fn boundary_id_after_other_collections() {
    let keys = vec![
        doc_key(2, &[1]),
        doc_key(u64::MAX, &[1]),
        doc_key(u64::MAX, &[2]),
    ];
    let out = scan_collections(&keys);
    assert_eq!(out.ids, vec![2, u64::MAX]);
    assert_eq!(out.error, None);
}

#[test]
fn malformed_key_stops_the_scan() {
    let keys = vec![doc_key(1, &[9]), vec![1, 2, 3]];
    let out = scan_collections(&keys);
    assert_eq!(out.ids, vec![1]);
    assert_eq!(out.error, Some(StoreError::MalformedKey(vec![1, 2, 3])));
}

#[test]
fn malformed_first_key_emits_nothing() {
    let keys = vec![vec![0, 0, 0], doc_key(1, &[])];
    let out = scan_collections(&keys);
    assert_eq!(out.ids, Vec::<u64>::new());
    assert_eq!(out.error, Some(StoreError::MalformedKey(vec![0, 0, 0])));
}

#[test]
fn non_contiguous_ids_in_ascending_order() {
    let keys = vec![
        doc_key(0, &[1]),
        doc_key(0, &[2]),
        doc_key(5, &[]),
        doc_key(1 << 40, &[0]),
    ];
    let out = scan_collections(&keys);
    assert_eq!(out.ids, vec![0, 5, 1 << 40]);
    assert_eq!(out.error, None);
}

#[test]
fn step_emits_id_and_seek_target() {
    let key = doc_key(0x4d2, &[1, 2, 3]);
    match scan_step(&key) {
        ScanStep::Emit { id, next_seek } => {
            assert_eq!(id, 0x4d2);
            assert_eq!(next_seek, encode_be(0x4d3));
        }
        _ => panic!("expected an emit step"),
    }
}

#[test]
fn step_stops_at_greatest_id() {
    let key = doc_key(u64::MAX, &[1]);
    match scan_step(&key) {
        ScanStep::EmitLast { id } => assert_eq!(id, u64::MAX),
        _ => panic!("expected the terminal step"),
    }
}

#[test]
fn step_reports_short_key() {
    match scan_step(&[1, 2]) {
        ScanStep::Malformed { key } => assert_eq!(key, vec![1, 2]),
        _ => panic!("expected a malformed-key step"),
    }
}
