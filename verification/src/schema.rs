//! Column-family schema registry.
//!
//! For each logical family of the store this module gives the physical
//! configuration needed to open a pre-existing database correctly: comparator
//! identity, prefix-extraction strategy, block-index strategy and filter
//! tuning. The list is part of the on-disk format's contract: an open call
//! must present exactly these descriptors, by name and comparator identity,
//! or fail.

use vstd::prelude::*;

verus! {

/// Number of trailing bytes the edge-index prefix extractor strips from a
/// non-boundary key: an eight-byte discriminator and one direction byte.
pub const EDGE_SUFFIX_WIDTH: usize = 9;

/// Final byte marking an edge-index key as a range-scan boundary, which the
/// prefix extractor must leave unchanged.
pub const EDGE_SENTINEL: u8 = 0;

/// Width in bytes of the fixed leading identifier the index families
/// prefix-extract: the platform word the engine allocates identifiers in.
pub const FIXED_PREFIX_WIDTH: usize = 8;

/// Identity of the total order a family applies to its keys. Persisted as
/// part of the on-disk format: a store created under one comparator is never
/// safely readable under another.
#[derive(Clone, Copy, Debug, PartialEq, Eq)]
pub enum KeyComparator {
    /// Plain lexicographic byte order, the store's default.
    LexicographicBytes,
    /// Engine-specific order over a structured, self-describing binary value
    /// encoding, supplied by the engine and passed through opaquely.
    StructuredValueOrder,
}

/// Prefix-extraction strategy of a family.
#[derive(Clone, Copy, Debug, PartialEq, Eq)]
pub enum PrefixExtractor {
    /// The leading fixed-width identifier is the prefix.
    FixedLength(usize),
    /// Edge-index strategy: strip the fixed trailing suffix, unless the key
    /// ends in the sentinel byte and is a range-scan boundary.
    EdgeSuffixStrip,
}

/// How a data block's internal index is laid out.
#[derive(Clone, Copy, Debug, PartialEq, Eq)]
pub enum BlockIndexStrategy {
    /// Binary-searchable ordered index, the default.
    OrderedBinarySearch,
    /// Hash index over extracted prefixes: faster point and prefix lookups,
    /// no ordered range scans. Requires a prefix extractor.
    HashPrefix,
}

/// Physical configuration of one column family, as the open call must
/// present it.
#[derive(Clone, Copy, Debug, PartialEq, Eq)]
pub struct FamilyDescriptor {
    /// Family name, unique within one open call.
    pub name: &'static str,
    /// Key-order identity.
    pub comparator: KeyComparator,
    /// Prefix-extraction strategy, if the family has one.
    pub prefix_extractor: Option<PrefixExtractor>,
    /// Block-index layout.
    pub block_index: BlockIndexStrategy,
    /// Whether bloom filters are tuned for hit-heavy read workloads.
    pub optimize_filters_for_hits: bool,
}

impl FamilyDescriptor {
    /// A descriptor is well formed when a hash-based block index comes with
    /// the prefix extractor it needs.
    pub open spec fn wf(self) -> bool {
        self.block_index is HashPrefix ==> self.prefix_extractor is Some
    }
}

/// The definitions family: fully default configuration, stores engine and
/// collection metadata.
pub open spec fn is_definitions_desc(d: FamilyDescriptor) -> bool {
    &&& d.name@ == "default"@
    &&& d.comparator == KeyComparator::LexicographicBytes
    &&& d.prefix_extractor is None
    &&& d.block_index == BlockIndexStrategy::OrderedBinarySearch
    &&& !d.optimize_filters_for_hits
}

/// The documents family: default layout with read-heavy filter tuning.
pub open spec fn is_documents_desc(d: FamilyDescriptor) -> bool {
    &&& d.name@ == "Documents"@
    &&& d.comparator == KeyComparator::LexicographicBytes
    &&& d.prefix_extractor is None
    &&& d.block_index == BlockIndexStrategy::OrderedBinarySearch
    &&& d.optimize_filters_for_hits
}

/// The shape shared by the ordinary index families: fixed-width identifier
/// prefix, read-heavy filter tuning, default ordered layout.
pub open spec fn is_fixed_prefix_desc(d: FamilyDescriptor, name: Seq<char>) -> bool {
    &&& d.name@ == name
    &&& d.comparator == KeyComparator::LexicographicBytes
    &&& d.prefix_extractor == Some(PrefixExtractor::FixedLength(FIXED_PREFIX_WIDTH))
    &&& d.block_index == BlockIndexStrategy::OrderedBinarySearch
    &&& d.optimize_filters_for_hits
}

/// The edge-index family: custom suffix-stripping extractor and hash-based
/// block index.
pub open spec fn is_edge_index_desc(d: FamilyDescriptor) -> bool {
    &&& d.name@ == "EdgeIndex"@
    &&& d.comparator == KeyComparator::LexicographicBytes
    &&& d.prefix_extractor == Some(PrefixExtractor::EdgeSuffixStrip)
    &&& d.block_index == BlockIndexStrategy::HashPrefix
    &&& d.optimize_filters_for_hits
}

/// The structured-value index family: fixed-prefix shape plus the
/// engine-specific value comparator.
pub open spec fn is_vpack_index_desc(d: FamilyDescriptor) -> bool {
    &&& d.name@ == "VPackIndex"@
    &&& d.comparator == KeyComparator::StructuredValueOrder
    &&& d.prefix_extractor == Some(PrefixExtractor::FixedLength(FIXED_PREFIX_WIDTH))
    &&& d.block_index == BlockIndexStrategy::OrderedBinarySearch
    &&& d.optimize_filters_for_hits
}

/// Builds the definitions-family descriptor.
pub fn definitions() -> (r: FamilyDescriptor)
    ensures
        is_definitions_desc(r),
        r.wf(),
{
    FamilyDescriptor {
        name: "default",
        comparator: KeyComparator::LexicographicBytes,
        prefix_extractor: None,
        block_index: BlockIndexStrategy::OrderedBinarySearch,
        optimize_filters_for_hits: false,
    }
}

/// Builds the documents-family descriptor.
pub fn documents() -> (r: FamilyDescriptor)
    ensures
        is_documents_desc(r),
        r.wf(),
{
    FamilyDescriptor {
        name: "Documents",
        comparator: KeyComparator::LexicographicBytes,
        prefix_extractor: None,
        block_index: BlockIndexStrategy::OrderedBinarySearch,
        optimize_filters_for_hits: true,
    }
}

/// Builds a descriptor of the shared fixed-prefix shape under the given name.
fn fixed_prefix_family(name: &'static str) -> (r: FamilyDescriptor)
    ensures
        is_fixed_prefix_desc(r, name@),
        r.wf(),
{
    FamilyDescriptor {
        name,
        comparator: KeyComparator::LexicographicBytes,
        prefix_extractor: Some(PrefixExtractor::FixedLength(FIXED_PREFIX_WIDTH)),
        block_index: BlockIndexStrategy::OrderedBinarySearch,
        optimize_filters_for_hits: true,
    }
}

/// Builds the primary-index descriptor.
pub fn primary_index() -> (r: FamilyDescriptor)
    ensures
        is_fixed_prefix_desc(r, "PrimaryIndex"@),
        r.wf(),
{
    fixed_prefix_family("PrimaryIndex")
}

/// Builds the edge-index descriptor.
pub fn edge_index() -> (r: FamilyDescriptor)
    ensures
        is_edge_index_desc(r),
        r.wf(),
{
    FamilyDescriptor {
        name: "EdgeIndex",
        comparator: KeyComparator::LexicographicBytes,
        prefix_extractor: Some(PrefixExtractor::EdgeSuffixStrip),
        block_index: BlockIndexStrategy::HashPrefix,
        optimize_filters_for_hits: true,
    }
}

/// Builds the structured-value index descriptor.
pub fn vpack_index() -> (r: FamilyDescriptor)
    ensures
        is_vpack_index_desc(r),
        r.wf(),
{
    FamilyDescriptor {
        name: "VPackIndex",
        comparator: KeyComparator::StructuredValueOrder,
        prefix_extractor: Some(PrefixExtractor::FixedLength(FIXED_PREFIX_WIDTH)),
        block_index: BlockIndexStrategy::OrderedBinarySearch,
        optimize_filters_for_hits: true,
    }
}

/// Builds the geo-index descriptor.
pub fn geo_index() -> (r: FamilyDescriptor)
    ensures
        is_fixed_prefix_desc(r, "GeoIndex"@),
        r.wf(),
{
    fixed_prefix_family("GeoIndex")
}

/// Builds the fulltext-index descriptor.
pub fn fulltext_index() -> (r: FamilyDescriptor)
    ensures
        is_fixed_prefix_desc(r, "FulltextIndex"@),
        r.wf(),
{
    fixed_prefix_family("FulltextIndex")
}

/// Builds the replicated-log storage descriptor.
pub fn replicated_logs() -> (r: FamilyDescriptor)
    ensures
        is_fixed_prefix_desc(r, "ReplicatedLogs"@),
        r.wf(),
{
    fixed_prefix_family("ReplicatedLogs")
}

/// Builds the structured-key-distance index descriptor.
pub fn zkd_index() -> (r: FamilyDescriptor)
    ensures
        is_fixed_prefix_desc(r, "ZkdIndex"@),
        r.wf(),
{
    fixed_prefix_family("ZkdIndex")
}

/// The full ordered descriptor list an open call must present: same output
/// on every call, each descriptor well formed, names pairwise distinct, each
/// family pinned down.
#[verifier::rlimit(50)]
pub fn describe_all() -> (r: Vec<FamilyDescriptor>)
    ensures
        r@.len() == 9,
        forall|i: int| 0 <= i < r@.len() ==> (#[trigger] r@[i]).wf(),
        forall|i: int, j: int|
            0 <= i < j < r@.len() ==> (#[trigger] r@[i]).name@ != (#[trigger] r@[j]).name@,
        is_definitions_desc(r@[0]),
        is_documents_desc(r@[1]),
        is_fixed_prefix_desc(r@[2], "PrimaryIndex"@),
        is_edge_index_desc(r@[3]),
        is_vpack_index_desc(r@[4]),
        is_fixed_prefix_desc(r@[5], "GeoIndex"@),
        is_fixed_prefix_desc(r@[6], "FulltextIndex"@),
        is_fixed_prefix_desc(r@[7], "ReplicatedLogs"@),
        is_fixed_prefix_desc(r@[8], "ZkdIndex"@),
{
    let mut v: Vec<FamilyDescriptor> = Vec::new();
    v.push(definitions());
    v.push(documents());
    v.push(primary_index());
    v.push(edge_index());
    v.push(vpack_index());
    v.push(geo_index());
    v.push(fulltext_index());
    v.push(replicated_logs());
    v.push(zkd_index());
    proof {
        // Name uniqueness: the nine names differ pairwise already in their
        // first character, once the literals are revealed.
        reveal_strlit("default");
        reveal_strlit("Documents");
        reveal_strlit("PrimaryIndex");
        reveal_strlit("EdgeIndex");
        reveal_strlit("VPackIndex");
        reveal_strlit("GeoIndex");
        reveal_strlit("FulltextIndex");
        reveal_strlit("ReplicatedLogs");
        reveal_strlit("ZkdIndex");
        assert(v@[0].name@ == "default"@);
        assert(v@[1].name@ == "Documents"@);
        assert(v@[2].name@ == "PrimaryIndex"@);
        assert(v@[3].name@ == "EdgeIndex"@);
        assert(v@[4].name@ == "VPackIndex"@);
        assert(v@[5].name@ == "GeoIndex"@);
        assert(v@[6].name@ == "FulltextIndex"@);
        assert(v@[7].name@ == "ReplicatedLogs"@);
        assert(v@[8].name@ == "ZkdIndex"@);
        assert(v@[0].name@[0] != v@[1].name@[0]);
        assert(v@[0].name@ != v@[1].name@);
        assert(v@[0].name@[0] != v@[2].name@[0]);
        assert(v@[0].name@ != v@[2].name@);
        assert(v@[0].name@[0] != v@[3].name@[0]);
        assert(v@[0].name@ != v@[3].name@);
        assert(v@[0].name@[0] != v@[4].name@[0]);
        assert(v@[0].name@ != v@[4].name@);
        assert(v@[0].name@[0] != v@[5].name@[0]);
        assert(v@[0].name@ != v@[5].name@);
        assert(v@[0].name@[0] != v@[6].name@[0]);
        assert(v@[0].name@ != v@[6].name@);
        assert(v@[0].name@[0] != v@[7].name@[0]);
        assert(v@[0].name@ != v@[7].name@);
        assert(v@[0].name@[0] != v@[8].name@[0]);
        assert(v@[0].name@ != v@[8].name@);
        assert(v@[1].name@[0] != v@[2].name@[0]);
        assert(v@[1].name@ != v@[2].name@);
        assert(v@[1].name@[0] != v@[3].name@[0]);
        assert(v@[1].name@ != v@[3].name@);
        assert(v@[1].name@[0] != v@[4].name@[0]);
        assert(v@[1].name@ != v@[4].name@);
        assert(v@[1].name@[0] != v@[5].name@[0]);
        assert(v@[1].name@ != v@[5].name@);
        assert(v@[1].name@[0] != v@[6].name@[0]);
        assert(v@[1].name@ != v@[6].name@);
        assert(v@[1].name@[0] != v@[7].name@[0]);
        assert(v@[1].name@ != v@[7].name@);
        assert(v@[1].name@[0] != v@[8].name@[0]);
        assert(v@[1].name@ != v@[8].name@);
        assert(v@[2].name@[0] != v@[3].name@[0]);
        assert(v@[2].name@ != v@[3].name@);
        assert(v@[2].name@[0] != v@[4].name@[0]);
        assert(v@[2].name@ != v@[4].name@);
        assert(v@[2].name@[0] != v@[5].name@[0]);
        assert(v@[2].name@ != v@[5].name@);
        assert(v@[2].name@[0] != v@[6].name@[0]);
        assert(v@[2].name@ != v@[6].name@);
        assert(v@[2].name@[0] != v@[7].name@[0]);
        assert(v@[2].name@ != v@[7].name@);
        assert(v@[2].name@[0] != v@[8].name@[0]);
        assert(v@[2].name@ != v@[8].name@);
        assert(v@[3].name@[0] != v@[4].name@[0]);
        assert(v@[3].name@ != v@[4].name@);
        assert(v@[3].name@[0] != v@[5].name@[0]);
        assert(v@[3].name@ != v@[5].name@);
        assert(v@[3].name@[0] != v@[6].name@[0]);
        assert(v@[3].name@ != v@[6].name@);
        assert(v@[3].name@[0] != v@[7].name@[0]);
        assert(v@[3].name@ != v@[7].name@);
        assert(v@[3].name@[0] != v@[8].name@[0]);
        assert(v@[3].name@ != v@[8].name@);
        assert(v@[4].name@[0] != v@[5].name@[0]);
        assert(v@[4].name@ != v@[5].name@);
        assert(v@[4].name@[0] != v@[6].name@[0]);
        assert(v@[4].name@ != v@[6].name@);
        assert(v@[4].name@[0] != v@[7].name@[0]);
        assert(v@[4].name@ != v@[7].name@);
        assert(v@[4].name@[0] != v@[8].name@[0]);
        assert(v@[4].name@ != v@[8].name@);
        assert(v@[5].name@[0] != v@[6].name@[0]);
        assert(v@[5].name@ != v@[6].name@);
        assert(v@[5].name@[0] != v@[7].name@[0]);
        assert(v@[5].name@ != v@[7].name@);
        assert(v@[5].name@[0] != v@[8].name@[0]);
        assert(v@[5].name@ != v@[8].name@);
        assert(v@[6].name@[0] != v@[7].name@[0]);
        assert(v@[6].name@ != v@[7].name@);
        assert(v@[6].name@[0] != v@[8].name@[0]);
        assert(v@[6].name@ != v@[8].name@);
        assert(v@[7].name@[0] != v@[8].name@[0]);
        assert(v@[7].name@ != v@[8].name@);
        assert forall|i: int, j: int| 0 <= i < j < v@.len() implies (#[trigger] v@[i]).name@ != (
        #[trigger] v@[j]).name@ by {
            assert(i == 0 || i == 1 || i == 2 || i == 3 || i == 4 || i == 5 || i == 6 || i == 7
                || i == 8);
            assert(j == 1 || j == 2 || j == 3 || j == 4 || j == 5 || j == 6 || j == 7 || j == 8);
        }
    }
    v
}

/// A key ends in the sentinel byte, marking it as a range-scan boundary.
pub open spec fn is_sentinel_terminated(k: Seq<u8>) -> bool {
    k.len() > 0 && k.last() == EDGE_SENTINEL
}

/// The prefix the edge-index extractor assigns to a key: boundary keys are
/// their own prefix; every other key loses its trailing suffix.
pub open spec fn edge_prefix_spec(k: Seq<u8>) -> Seq<u8>
    recommends
        is_sentinel_terminated(k) || k.len() >= EDGE_SUFFIX_WIDTH,
{
    if is_sentinel_terminated(k) {
        k
    } else {
        k.subrange(0, k.len() - EDGE_SUFFIX_WIDTH)
    }
}

/// Whether the extractor's domain predicate admits a key: boundary keys are
/// excluded so the store never applies prefix-based filtering to them.
pub fn edge_index_in_domain(key: &[u8]) -> (r: bool)
    ensures
        r == !is_sentinel_terminated(key@),
{
    if key.len() == 0 {
        true
    } else {
        let last = *vstd::slice::slice_index_get(key, key.len() - 1);
        last != EDGE_SENTINEL
    }
}

/// The edge-index prefix extractor: returns a sentinel-terminated key
/// unchanged and strips the trailing suffix from any other key.
pub fn edge_index_prefix<'a>(key: &'a [u8]) -> (r: &'a [u8])
    requires
        is_sentinel_terminated(key@) || key@.len() >= EDGE_SUFFIX_WIDTH,
    ensures
        r@ == edge_prefix_spec(key@),
{
    if edge_index_in_domain(key) {
        vstd::slice::slice_subrange(key, 0, key.len() - EDGE_SUFFIX_WIDTH)
    } else {
        key
    }
}

} // verus!
