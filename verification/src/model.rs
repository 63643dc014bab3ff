//! The abstract model of the store: the content is a map from key bytes to
//! value bytes, text travels as its UTF-8 encoding, and an atomic batch is a
//! sequence of byte pairs folded into the content in order.

use vstd::prelude::*;
use vstd::utf8::decode_utf8;
use vstd::utf8::encode_utf8;
use vstd::utf8::valid_utf8;

verus! {

/// The content after an atomic batch: its pairs inserted first to last, so a
/// later pair overwrites an earlier one with the same key.
pub open spec fn apply_pairs(
    m: Map<Seq<u8>, Seq<u8>>,
    ps: Seq<(Seq<u8>, Seq<u8>)>,
) -> Map<Seq<u8>, Seq<u8>>
    decreases ps.len(),
{
    if ps.len() == 0 {
        m
    } else {
        apply_pairs(m, ps.drop_last()).insert(ps.last().0, ps.last().1)
    }
}

/// The byte-level image of a sequence of text pairs, in order.
pub open spec fn encoded_pairs(ps: Seq<(String, String)>) -> Seq<(Seq<u8>, Seq<u8>)> {
    ps.map_values(|p: (String, String)| (encode_utf8(p.0@), encode_utf8(p.1@)))
}

/// What one slot of a multi-key read holds for the text key `k` against
/// content `m`: the decoded stored value, the empty string when the key is
/// absent, and the error marker when the stored bytes are not valid text.
pub open spec fn lookup_text(m: Map<Seq<u8>, Seq<u8>>, k: Seq<char>) -> Seq<char> {
    let kb = encode_utf8(k);
    if m.contains_key(kb) {
        if valid_utf8(m[kb]) {
            decode_utf8(m[kb])
        } else {
            "error"@
        }
    } else {
        Seq::<char>::empty()
    }
}

} // verus!
