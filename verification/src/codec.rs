//! Fixed-width big-endian codec for collection identifiers.
//!
//! Every key of the documents family starts with an eight-byte big-endian
//! unsigned collection identifier. Big-endian order makes the store's
//! lexicographic key order agree with numeric identifier order, which is what
//! the seek-skip scan relies on.

use crate::lex::{
    lemma_lex_lt_le_trans, lemma_lex_on_prefix, lemma_prefix_le, lex_le, lex_lt,
};
use vstd::prelude::*;

verus! {

/// Width in bytes of the collection identifier at the head of a document key.
pub const ID_WIDTH: usize = 8;

/// The eight big-endian bytes of a collection identifier.
pub open spec fn enc_spec(id: u64) -> Seq<u8> {
    seq![
        (id >> 56) as u8,
        (id >> 48) as u8,
        (id >> 40) as u8,
        (id >> 32) as u8,
        (id >> 24) as u8,
        (id >> 16) as u8,
        (id >> 8) as u8,
        id as u8,
    ]
}

/// The collection identifier carried by the first eight bytes of a key.
pub open spec fn id_of(k: Seq<u8>) -> u64
    recommends
        k.len() >= 8,
{
    (((k[0] as u64) << 56) | ((k[1] as u64) << 48) | ((k[2] as u64) << 40) | ((k[3] as u64) << 32)
        | ((k[4] as u64) << 24) | ((k[5] as u64) << 16) | ((k[6] as u64) << 8) | (k[7] as u64))
}

/// A key is well formed when it is long enough to carry an identifier.
pub open spec fn wf_key(k: Seq<u8>) -> bool {
    k.len() >= ID_WIDTH
}

/// Encoding then decoding gives the identifier back: the codec loses nothing.
pub proof fn lemma_round_trip(id: u64)
    ensures
        id_of(enc_spec(id)) == id,
{
    assert(((((id >> 56) as u8 as u64) << 56) | (((id >> 48) as u8 as u64) << 48) | (((id
        >> 40) as u8 as u64) << 40) | (((id >> 32) as u8 as u64) << 32) | (((id
        >> 24) as u8 as u64) << 24) | (((id >> 16) as u8 as u64) << 16) | (((id
        >> 8) as u8 as u64) << 8) | (id as u8 as u64)) == id) by (bit_vector);
}

/// Decoding then encoding gives the eight bytes back: the identifier
/// determines its encoding.
pub proof fn lemma_bytes_round_trip(s: Seq<u8>)
    requires
        s.len() == 8,
    ensures
        enc_spec(id_of(s)) == s,
{
    let b0 = s[0];
    let b1 = s[1];
    let b2 = s[2];
    let b3 = s[3];
    let b4 = s[4];
    let b5 = s[5];
    let b6 = s[6];
    let b7 = s[7];
    let n = id_of(s);
    assert(n == (((b0 as u64) << 56) | ((b1 as u64) << 48) | ((b2 as u64) << 40) | ((b3 as u64)
        << 32) | ((b4 as u64) << 24) | ((b5 as u64) << 16) | ((b6 as u64) << 8) | (b7 as u64)));
    assert({
        let m = (((b0 as u64) << 56) | ((b1 as u64) << 48) | ((b2 as u64) << 40) | ((b3 as u64)
            << 32) | ((b4 as u64) << 24) | ((b5 as u64) << 16) | ((b6 as u64) << 8) | (
        b7 as u64));
        (m >> 56) as u8 == b0 && (m >> 48) as u8 == b1 && (m >> 40) as u8 == b2 && (m
            >> 32) as u8 == b3 && (m >> 24) as u8 == b4 && (m >> 16) as u8 == b5 && (m
            >> 8) as u8 == b6 && m as u8 == b7
    }) by (bit_vector);
    assert(enc_spec(n) =~= s);
}

/// Lexicographic comparison of eight key bytes against an encoded identifier
/// is numeric comparison of the identifiers.
proof fn lemma_lex8_vs_id(x: Seq<u8>, n: u64)
    requires
        x.len() == 8,
    ensures
        lex_lt(x, enc_spec(n)) == (id_of(x) < n),
{
    let b0 = x[0];
    let b1 = x[1];
    let b2 = x[2];
    let b3 = x[3];
    let b4 = x[4];
    let b5 = x[5];
    let b6 = x[6];
    let b7 = x[7];
    let c0 = (n >> 56) as u8;
    let c1 = (n >> 48) as u8;
    let c2 = (n >> 40) as u8;
    let c3 = (n >> 32) as u8;
    let c4 = (n >> 24) as u8;
    let c5 = (n >> 16) as u8;
    let c6 = (n >> 8) as u8;
    let c7 = n as u8;
    let y = enc_spec(n);
    let x1 = x.drop_first();
    let y1 = y.drop_first();
    let x2 = x1.drop_first();
    let y2 = y1.drop_first();
    let x3 = x2.drop_first();
    let y3 = y2.drop_first();
    let x4 = x3.drop_first();
    let y4 = y3.drop_first();
    let x5 = x4.drop_first();
    let y5 = y4.drop_first();
    let x6 = x5.drop_first();
    let y6 = y5.drop_first();
    let x7 = x6.drop_first();
    let y7 = y6.drop_first();
    assert(x7.len() == 1 && y7.len() == 1 && x7[0] == b7 && y7[0] == c7);
    assert(!lex_lt(x7.drop_first(), y7.drop_first()));
    assert(lex_lt(x7, y7) == (b7 < c7));
    assert(lex_lt(x6, y6) == (b6 < c6 || (b6 == c6 && (b7 < c7))));
    assert(lex_lt(x5, y5) == (b5 < c5 || (b5 == c5 && (b6 < c6 || (b6 == c6 && (b7 < c7))))));
    assert(lex_lt(x4, y4) == (b4 < c4 || (b4 == c4 && (b5 < c5 || (b5 == c5 && (b6 < c6 || (b6
        == c6 && (b7 < c7))))))));
    assert(lex_lt(x3, y3) == (b3 < c3 || (b3 == c3 && (b4 < c4 || (b4 == c4 && (b5 < c5 || (b5
        == c5 && (b6 < c6 || (b6 == c6 && (b7 < c7))))))))));
    assert(lex_lt(x2, y2) == (b2 < c2 || (b2 == c2 && (b3 < c3 || (b3 == c3 && (b4 < c4 || (b4
        == c4 && (b5 < c5 || (b5 == c5 && (b6 < c6 || (b6 == c6 && (b7 < c7))))))))))));
    assert(lex_lt(x1, y1) == (b1 < c1 || (b1 == c1 && (b2 < c2 || (b2 == c2 && (b3 < c3 || (b3
        == c3 && (b4 < c4 || (b4 == c4 && (b5 < c5 || (b5 == c5 && (b6 < c6 || (b6 == c6 && (b7
        < c7))))))))))))));
    assert(lex_lt(x, y) == (b0 < c0 || (b0 == c0 && (b1 < c1 || (b1 == c1 && (b2 < c2 || (b2
        == c2 && (b3 < c3 || (b3 == c3 && (b4 < c4 || (b4 == c4 && (b5 < c5 || (b5 == c5 && (b6
        < c6 || (b6 == c6 && (b7 < c7))))))))))))))));
    assert((b0 < (n >> 56) as u8 || (b0 == (n >> 56) as u8 && (b1 < (n >> 48) as u8 || (b1 == (n
        >> 48) as u8 && (b2 < (n >> 40) as u8 || (b2 == (n >> 40) as u8 && (b3 < (n
        >> 32) as u8 || (b3 == (n >> 32) as u8 && (b4 < (n >> 24) as u8 || (b4 == (n
        >> 24) as u8 && (b5 < (n >> 16) as u8 || (b5 == (n >> 16) as u8 && (b6 < (n
        >> 8) as u8 || (b6 == (n >> 8) as u8 && (b7 < n as u8))))))))))))))) == ((((b0 as u64)
        << 56) | ((b1 as u64) << 48) | ((b2 as u64) << 40) | ((b3 as u64) << 32) | ((b4 as u64)
        << 24) | ((b5 as u64) << 16) | ((b6 as u64) << 8) | (b7 as u64)) < n)) by (bit_vector);
}

/// Comparing a well-formed key against an encoded identifier under the
/// store's lexicographic order is comparing identifiers numerically.
pub proof fn lemma_key_lt_enc(k: Seq<u8>, n: u64)
    requires
        k.len() >= 8,
    ensures
        lex_lt(k, enc_spec(n)) == (id_of(k) < n),
{
    let k8 = k.subrange(0, 8);
    lemma_lex_on_prefix(k, enc_spec(n));
    assert(id_of(k8) == id_of(k));
    lemma_lex8_vs_id(k8, n);
}

/// Big-endian encoding preserves numeric order under lexicographic
/// comparison: the ordering guarantee the seek-skip scan needs.
pub proof fn lemma_enc_order(a: u64, b: u64)
    ensures
        (a < b) == lex_lt(enc_spec(a), enc_spec(b)),
{
    lemma_key_lt_enc(enc_spec(a), b);
    lemma_round_trip(a);
}

/// Keys in lexicographic order carry identifiers in numeric order.
pub proof fn lemma_id_monotone(x: Seq<u8>, y: Seq<u8>)
    requires
        x.len() >= 8,
        y.len() >= 8,
        lex_le(x, y),
    ensures
        id_of(x) <= id_of(y),
{
    if id_of(y) < id_of(x) {
        lemma_key_lt_enc(y, id_of(x));
        let x8 = x.subrange(0, 8);
        assert(id_of(x8) == id_of(x));
        lemma_bytes_round_trip(x8);
        lemma_prefix_le(x8, x);
        lemma_lex_lt_le_trans(y, x8, x);
    }
}

/// Encodes a collection identifier as its eight big-endian key bytes.
pub fn encode_be(id: u64) -> (r: Vec<u8>)
    ensures
        r@ == enc_spec(id),
        r@.len() == 8,
{
    let mut v: Vec<u8> = Vec::new();
    v.push((id >> 56) as u8);
    v.push((id >> 48) as u8);
    v.push((id >> 40) as u8);
    v.push((id >> 32) as u8);
    v.push((id >> 24) as u8);
    v.push((id >> 16) as u8);
    v.push((id >> 8) as u8);
    v.push(id as u8);
    proof {
        assert(v@ =~= enc_spec(id));
    }
    v
}

/// Decodes the leading eight key bytes as a big-endian collection identifier.
pub fn decode_be(k: &[u8]) -> (r: u64)
    requires
        k@.len() >= 8,
    ensures
        r == id_of(k@),
{
    let b0 = *vstd::slice::slice_index_get(k, 0);
    let b1 = *vstd::slice::slice_index_get(k, 1);
    let b2 = *vstd::slice::slice_index_get(k, 2);
    let b3 = *vstd::slice::slice_index_get(k, 3);
    let b4 = *vstd::slice::slice_index_get(k, 4);
    let b5 = *vstd::slice::slice_index_get(k, 5);
    let b6 = *vstd::slice::slice_index_get(k, 6);
    let b7 = *vstd::slice::slice_index_get(k, 7);
    (((b0 as u64) << 56) | ((b1 as u64) << 48) | ((b2 as u64) << 40) | ((b3 as u64) << 32) | ((
    b4 as u64) << 24) | ((b5 as u64) << 16) | ((b6 as u64) << 8) | (b7 as u64))
}

} // verus!
