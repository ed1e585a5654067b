use docstore_scan::schema::{
    definitions, describe_all, documents, edge_index, edge_index_in_domain, edge_index_prefix,
    fulltext_index, geo_index, primary_index, replicated_logs, vpack_index, zkd_index,
    BlockIndexStrategy, KeyComparator, PrefixExtractor, EDGE_SUFFIX_WIDTH, FIXED_PREFIX_WIDTH,
};

#[test]
fn registry_lists_all_families_in_order() {
    let all = describe_all();
    let names: Vec<&str> = all.iter().map(|d| d.name).collect();
    assert_eq!(
        names,
        vec![
            "default",
            "Documents",
            "PrimaryIndex",
            "EdgeIndex",
            "VPackIndex",
            "GeoIndex",
            "FulltextIndex",
            "ReplicatedLogs",
            "ZkdIndex",
        ]
    );
}

#[test]
fn registry_is_deterministic() {
    assert_eq!(describe_all(), describe_all());
}

#[test]
fn definitions_family_is_fully_default() {
    let d = definitions();
    assert_eq!(d.name, "default");
    assert_eq!(d.comparator, KeyComparator::LexicographicBytes);
    assert_eq!(d.prefix_extractor, None);
    assert_eq!(d.block_index, BlockIndexStrategy::OrderedBinarySearch);
    assert!(!d.optimize_filters_for_hits);
}

#[test]
fn documents_family_tunes_filters_only() {
    let d = documents();
    assert_eq!(d.name, "Documents");
    assert_eq!(d.comparator, KeyComparator::LexicographicBytes);
    assert_eq!(d.prefix_extractor, None);
    assert_eq!(d.block_index, BlockIndexStrategy::OrderedBinarySearch);
    assert!(d.optimize_filters_for_hits);
}

#[test]
fn index_families_share_fixed_prefix_shape() {
    for (d, name) in [
        (primary_index(), "PrimaryIndex"),
        (geo_index(), "GeoIndex"),
        (fulltext_index(), "FulltextIndex"),
        (replicated_logs(), "ReplicatedLogs"),
        (zkd_index(), "ZkdIndex"),
    ] {
        assert_eq!(d.name, name);
        assert_eq!(d.comparator, KeyComparator::LexicographicBytes);
        assert_eq!(
            d.prefix_extractor,
            Some(PrefixExtractor::FixedLength(FIXED_PREFIX_WIDTH))
        );
        assert_eq!(d.block_index, BlockIndexStrategy::OrderedBinarySearch);
        assert!(d.optimize_filters_for_hits);
    }
}

#[test]
fn edge_index_uses_hash_index_and_custom_extractor() {
    let d = edge_index();
    assert_eq!(d.name, "EdgeIndex");
    assert_eq!(d.comparator, KeyComparator::LexicographicBytes);
    assert_eq!(d.prefix_extractor, Some(PrefixExtractor::EdgeSuffixStrip));
    assert_eq!(d.block_index, BlockIndexStrategy::HashPrefix);
    assert!(d.optimize_filters_for_hits);
}

#[test]
fn vpack_index_installs_custom_comparator() {
    let d = vpack_index();
    assert_eq!(d.name, "VPackIndex");
    assert_eq!(d.comparator, KeyComparator::StructuredValueOrder);
    assert_eq!(
        d.prefix_extractor,
        Some(PrefixExtractor::FixedLength(FIXED_PREFIX_WIDTH))
    );
    assert_eq!(d.block_index, BlockIndexStrategy::OrderedBinarySearch);
    assert!(d.optimize_filters_for_hits);
}

#[test]
fn every_hash_indexed_family_has_an_extractor() {
    for d in describe_all() {
        if d.block_index == BlockIndexStrategy::HashPrefix {
            assert!(d.prefix_extractor.is_some());
        }
    }
}

#[test]
fn edge_extractor_keeps_sentinel_terminated_keys() {
    let boundary = [7u8, 7, 7, 0];
    assert_eq!(edge_index_prefix(&boundary), &boundary);
    let single = [0u8];
    assert_eq!(edge_index_prefix(&single), &single);
    let long_boundary = [9u8, 8, 7, 6, 5, 4, 3, 2, 1, 0];
    assert_eq!(edge_index_prefix(&long_boundary), &long_boundary);
}

#[test]
fn edge_extractor_strips_trailing_suffix() {
    let key = [1u8, 2, 3, 4, 5, 6, 7, 8, 9, 10];
    assert_eq!(edge_index_prefix(&key), &[1]);
    let exact: Vec<u8> = (1..=EDGE_SUFFIX_WIDTH as u8).collect();
    assert_eq!(edge_index_prefix(&exact), &[] as &[u8]);
    let vertex_edge = [5u8, 5, 5, 5, 1, 2, 3, 4, 5, 6, 7, 8, 9];
    assert_eq!(edge_index_prefix(&vertex_edge), &[5, 5, 5, 5]);
}

#[test]
fn edge_domain_excludes_boundary_keys() {
    assert!(!edge_index_in_domain(&[1, 2, 0]));
    assert!(!edge_index_in_domain(&[0]));
    assert!(edge_index_in_domain(&[1, 2, 3]));
    assert!(edge_index_in_domain(&[]));
}
