//! Seek-skip collection scan over the documents family.
//!
//! Every document key starts with an eight-byte big-endian collection
//! identifier. Instead of visiting every key, the scan decodes the identifier
//! under the cursor, emits it, and re-seeks to the encoding of the next
//! identifier: one seek per distinct collection rather than one read per
//! document. The scan over the ordered key space is verified here; the
//! unverified shell drives the same decisions through [`scan_step`] against
//! the live store iterator.

use crate::codec::{
    decode_be, enc_spec, encode_be, id_of, lemma_id_monotone, lemma_key_lt_enc, wf_key, ID_WIDTH,
};
use crate::lex::{lemma_lex_le_lt_trans, lex_le, lex_lt, lex_lt_exec};
use vstd::prelude::*;

verus! {

/// Failure kinds of the recovery tool.
#[derive(Debug, PartialEq, Eq)]
pub enum StoreError {
    /// The store could not be opened: missing path, permissions, or a
    /// persisted family list that disagrees with the schema registry.
    StoreOpenFailed,
    /// The documents family handle could not be resolved after open.
    FamilyNotFound,
    /// A key shorter than the identifier width was met during the scan;
    /// carries the offending key's raw bytes.
    MalformedKey(Vec<u8>),
}

/// The decision the scan takes at one cursor position.
pub enum ScanStep {
    /// Emit the identifier, then re-seek the cursor to the first key at or
    /// after `next_seek`.
    Emit { id: u64, next_seek: Vec<u8> },
    /// Emit the identifier and stop: the identifier space is exhausted, so
    /// every remaining key belongs to this collection.
    EmitLast { id: u64 },
    /// Stop: the key cannot carry an identifier.
    Malformed { key: Vec<u8> },
}

/// What the scan found: the identifiers emitted, and the malformed-key
/// failure that cut the scan short, if one did.
pub struct ScanOutcome {
    /// Distinct collection identifiers, in ascending order.
    pub ids: Vec<u64>,
    /// `None` when the scan ran to the end of the key space.
    pub error: Option<StoreError>,
}

/// The byte strings of a sequence of keys.
pub open spec fn key_views(keys: Seq<Vec<u8>>) -> Seq<Seq<u8>> {
    keys.map_values(|k: Vec<u8>| k@)
}

/// The keys stand in the store's lexicographic order.
pub open spec fn sorted_keys(ks: Seq<Seq<u8>>) -> bool {
    forall|i: int, j: int| 0 <= i < j < ks.len() ==> #[trigger] lex_le(ks[i], ks[j])
}

/// A sequence of identifiers is strictly ascending: each one distinct,
/// each one larger than the last.
pub open spec fn strictly_ascending(ids: Seq<u64>) -> bool {
    forall|p: int, q: int| 0 <= p < q < ids.len() ==> ids[p] < ids[q]
}

/// Some key among the first `n` is well formed and carries identifier `x`.
pub open spec fn has_id_before(ks: Seq<Seq<u8>>, x: u64, n: int) -> bool {
    exists|j: int| 0 <= j < n && wf_key(#[trigger] ks[j]) && id_of(ks[j]) == x
}

/// Some key is well formed and carries identifier `x`.
pub open spec fn has_id(ks: Seq<Seq<u8>>, x: u64) -> bool {
    has_id_before(ks, x, ks.len() as int)
}

/// Every key is long enough to carry an identifier.
pub open spec fn all_wf(ks: Seq<Seq<u8>>) -> bool {
    forall|i: int| 0 <= i < ks.len() ==> wf_key(#[trigger] ks[i])
}

/// The decision at one cursor position: decode the leading identifier, and
/// either hand back the seek target that skips the rest of its collection,
/// stop after the greatest representable identifier, or stop on a key too
/// short to decode.
pub fn scan_step(key: &[u8]) -> (r: ScanStep)
    ensures
        key@.len() < ID_WIDTH ==> (r matches ScanStep::Malformed { key: k } && k@ == key@),
        key@.len() >= ID_WIDTH && id_of(key@) < u64::MAX ==> (r matches ScanStep::Emit {
            id,
            next_seek,
        } && id == id_of(key@) && next_seek@ == enc_spec((id_of(key@) + 1) as u64)),
        key@.len() >= ID_WIDTH && id_of(key@) == u64::MAX ==> (r matches ScanStep::EmitLast { id }
            && id == u64::MAX),
{
    if key.len() < ID_WIDTH {
        ScanStep::Malformed { key: vstd::slice::slice_to_vec(key) }
    } else {
        let id = decode_be(key);
        if id == u64::MAX {
            ScanStep::EmitLast { id }
        } else {
            ScanStep::Emit { id, next_seek: encode_be(id + 1) }
        }
    }
}

/// Positions a cursor: the first index at or after `from` whose key is not
/// lexicographically below `target`, as the store's own seek would.
fn seek_ge(keys: &Vec<Vec<u8>>, from: usize, target: &Vec<u8>) -> (r: usize)
    requires
        from <= keys@.len(),
    ensures
        from <= r <= keys@.len(),
        forall|j: int| from <= j < r ==> lex_lt(#[trigger] key_views(keys@)[j], target@),
        r < keys@.len() ==> !lex_lt(key_views(keys@)[r as int], target@),
{
    let ghost ks = key_views(keys@);
    let mut i: usize = from;
    while i < keys.len()
        invariant
            from <= i <= keys@.len(),
            ks == key_views(keys@),
            forall|j: int| from <= j < i ==> lex_lt(#[trigger] ks[j], target@),
        decreases keys@.len() - i,
    {
        if !lex_lt_exec(keys[i].as_slice(), target.as_slice()) {
            return i;
        }
        i = i + 1;
    }
    i
}

/// Scans the ordered key space of the documents family and reports each
/// distinct collection identifier once, in ascending order, by seek-skip.
///
/// On a key too short to carry an identifier the scan stops and reports the
/// offending bytes; identifiers found up to that point are kept. A key space
/// whose keys are all well formed is scanned without error, and then an
/// identifier is reported exactly when some key carries it.
pub fn scan_collections(keys: &Vec<Vec<u8>>) -> (r: ScanOutcome)
    requires
        sorted_keys(key_views(keys@)),
    ensures
        strictly_ascending(r.ids@),
        forall|x: u64| r.ids@.contains(x) ==> has_id(key_views(keys@), x),
        r.error is None ==> (forall|x: u64|
            has_id(key_views(keys@), x) ==> r.ids@.contains(x)),
        all_wf(key_views(keys@)) ==> r.error is None,
        r.error matches Some(e) ==> (e matches StoreError::MalformedKey(k) && k@.len() < ID_WIDTH
            && key_views(keys@).contains(k@)),
        r.error matches Some(StoreError::MalformedKey(k)) ==> (forall|x: u64|
            r.ids@.contains(x) ==> exists|j: int|
                0 <= j < key_views(keys@).len() && wf_key(#[trigger] key_views(keys@)[j]) && id_of(
                    key_views(keys@)[j],
                ) == x && lex_le(key_views(keys@)[j], k@)),
        r.error matches Some(StoreError::MalformedKey(k)) ==> (forall|j: int|
            0 <= j < key_views(keys@).len() && wf_key(#[trigger] key_views(keys@)[j]) && lex_lt(
                key_views(keys@)[j],
                k@,
            ) ==> r.ids@.contains(id_of(key_views(keys@)[j]))),
{
    let ghost ks = key_views(keys@);
    let mut ids: Vec<u64> = Vec::new();
    let mut i: usize = 0;
    while i < keys.len()
        invariant
            i <= keys@.len(),
            ks == key_views(keys@),
            sorted_keys(ks),
            strictly_ascending(ids@),
            forall|x: u64| ids@.contains(x) ==> has_id_before(ks, x, i as int),
            forall|j: int|
                0 <= j < i ==> (wf_key(#[trigger] ks[j]) ==> ids@.contains(id_of(ks[j]))),
            ids@.len() == 0 ==> i == 0,
            ids@.len() > 0 ==> ids@.last() < u64::MAX,
            ids@.len() > 0 ==> forall|j: int|
                0 <= j < i ==> lex_lt(#[trigger] ks[j], enc_spec((ids@.last() + 1) as u64)),
            ids@.len() > 0 && i < keys@.len() ==> !lex_lt(
                ks[i as int],
                enc_spec((ids@.last() + 1) as u64),
            ),
        decreases keys@.len() - i,
    {
        let key_len = keys[i].len();
        if key_len < ID_WIDTH {
            let bad = vstd::slice::slice_to_vec(keys[i].as_slice());
            proof {
                assert(ks[i as int] == bad@);
                assert(ks.contains(bad@));
                assert(!wf_key(ks[i as int]));
                assert forall|x: u64| ids@.contains(x) implies exists|j: int|
                    0 <= j < ks.len() && wf_key(#[trigger] ks[j]) && id_of(ks[j]) == x && lex_le(
                        ks[j],
                        bad@,
                    ) by {
                    let w = choose|j: int|
                        0 <= j < i && wf_key(#[trigger] ks[j]) && id_of(ks[j]) == x;
                    assert(lex_le(ks[w], ks[i as int]));
                    assert(0 <= w < ks.len() && wf_key(ks[w]) && id_of(ks[w]) == x && lex_le(
                        ks[w],
                        bad@,
                    ));
                }
                assert forall|j: int|
                    0 <= j < ks.len() && wf_key(#[trigger] ks[j]) && lex_lt(
                        ks[j],
                        bad@,
                    ) implies ids@.contains(id_of(ks[j])) by {
                    if j == i {
                        crate::lex::lemma_lex_irrefl(ks[j]);
                    } else if j > i {
                        assert(lex_le(ks[i as int], ks[j]));
                    }
                }
            }
            return ScanOutcome { ids, error: Some(StoreError::MalformedKey(bad)) };
        }
        let id = decode_be(keys[i].as_slice());
        proof {
            if ids@.len() > 0 {
                lemma_key_lt_enc(ks[i as int], (ids@.last() + 1) as u64);
                assert(id > ids@.last());
            }
        }
        let ghost old_ids = ids@;
        ids.push(id);
        proof {
            assert forall|x: u64| ids@.contains(x) implies has_id_before(ks, x, i + 1) by {
                let p = choose|p: int| 0 <= p < ids@.len() && ids@[p] == x;
                if p < old_ids.len() {
                    assert(old_ids.contains(x));
                    let w = choose|j: int|
                        0 <= j < i && wf_key(#[trigger] ks[j]) && id_of(ks[j]) == x;
                    assert(0 <= w < i + 1 && wf_key(ks[w]) && id_of(ks[w]) == x);
                } else {
                    assert(x == id);
                    assert(wf_key(ks[i as int]) && id_of(ks[i as int]) == id);
                }
            }
            assert forall|p: int, q: int| 0 <= p < q < ids@.len() implies ids@[p] < ids@[q] by {
                if q < old_ids.len() {
                } else {
                    if old_ids.len() > 0 && p < old_ids.len() {
                        assert(old_ids[p] <= old_ids.last());
                    }
                }
            }
        }
        if id == u64::MAX {
            proof {
                assert forall|x: u64| has_id(ks, x) implies ids@.contains(x) by {
                    let j = choose|j: int|
                        0 <= j < ks.len() && wf_key(#[trigger] ks[j]) && id_of(ks[j]) == x;
                    if j < i {
                        assert(old_ids.contains(x));
                        assert(ids@ == old_ids.push(id));
                        let p = choose|p: int| 0 <= p < old_ids.len() && old_ids[p] == x;
                        assert(ids@[p] == x);
                    } else if j == i {
                        assert(ids@.last() == x);
                    } else {
                        assert(lex_le(ks[i as int], ks[j]));
                        lemma_id_monotone(ks[i as int], ks[j]);
                        assert(x == u64::MAX);
                        assert(ids@.last() == x);
                    }
                }
                assert forall|x: u64| ids@.contains(x) implies has_id(ks, x) by {
                    assert(has_id_before(ks, x, i + 1));
                    let w = choose|j: int|
                        0 <= j < i + 1 && wf_key(#[trigger] ks[j]) && id_of(ks[j]) == x;
                    assert(0 <= w < ks.len() && wf_key(ks[w]) && id_of(ks[w]) == x);
                }
            }
            return ScanOutcome { ids, error: None };
        }
        let target = encode_be(id + 1);
        let ghost prev = i as int;
        i = seek_ge(keys, i + 1, &target);
        proof {
            lemma_key_lt_enc(ks[prev], (id + 1) as u64);
            assert(lex_lt(ks[prev], enc_spec((id + 1) as u64)));
            assert forall|j: int| 0 <= j < i implies lex_lt(
                #[trigger] ks[j],
                enc_spec((ids@.last() + 1) as u64),
            ) by {
                if j < prev {
                    assert(lex_le(ks[j], ks[prev]));
                    lemma_lex_le_lt_trans(ks[j], ks[prev], enc_spec((id + 1) as u64));
                } else if j == prev {
                } else {
                }
            }
            assert forall|j: int|
                0 <= j < i && wf_key(#[trigger] ks[j]) implies ids@.contains(id_of(ks[j])) by {
                if j < prev {
                    assert(old_ids.contains(id_of(ks[j])));
                    let p = choose|p: int| 0 <= p < old_ids.len() && old_ids[p] == id_of(ks[j]);
                    assert(ids@[p] == id_of(ks[j]));
                } else if j == prev {
                    assert(ids@.last() == id);
                } else {
                    assert(lex_lt(ks[j], enc_spec((id + 1) as u64)));
                    lemma_key_lt_enc(ks[j], (id + 1) as u64);
                    assert(lex_le(ks[prev], ks[j]));
                    lemma_id_monotone(ks[prev], ks[j]);
                    assert(id_of(ks[j]) == id);
                    assert(ids@.last() == id);
                }
            }
        }
    }
    proof {
        assert forall|x: u64| ids@.contains(x) implies has_id(ks, x) by {
            assert(has_id_before(ks, x, i as int));
        }
        assert forall|x: u64| has_id(ks, x) implies ids@.contains(x) by {
            let j = choose|j: int|
                0 <= j < ks.len() && wf_key(#[trigger] ks[j]) && id_of(ks[j]) == x;
            assert(0 <= j < i);
        }
    }
    ScanOutcome { ids, error: None }
}

} // verus!
