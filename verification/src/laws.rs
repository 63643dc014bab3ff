//! The laws the store obeys, stated over the abstract content that every
//! operation's contract speaks of and proved once and for all.

use crate::model::apply_pairs;
use crate::model::lookup_text;
use crate::store::log_map;
use vstd::prelude::*;
use vstd::utf8::decode_utf8;
use vstd::utf8::encode_utf8;
use vstd::utf8::encode_utf8_decode_utf8;
use vstd::utf8::encode_utf8_valid_utf8;
use vstd::utf8::valid_utf8;

verus! {

/// Round trip on the text path: after a `put` of (`k`, `v`) the content holds
/// the encoded value under the encoded key, the stored bytes are valid UTF-8,
/// and a following `get` of `k` decodes them back to exactly `v`.
pub proof fn lemma_put_get_round_trip(m: Map<Seq<u8>, Seq<u8>>, k: Seq<char>, v: Seq<char>)
    ensures
        m.insert(encode_utf8(k), encode_utf8(v)).contains_key(encode_utf8(k)),
        valid_utf8(m.insert(encode_utf8(k), encode_utf8(v))[encode_utf8(k)]),
        decode_utf8(m.insert(encode_utf8(k), encode_utf8(v))[encode_utf8(k)]) == v,
{
    encode_utf8_valid_utf8(v);
    encode_utf8_decode_utf8(v);
}

/// Round trip on the binary path: after a `put_bytes` of (`k`, `v`) the
/// content holds exactly `v` under the key, so a following `get_bytes` of `k`
/// returns `v`.
pub proof fn lemma_put_get_bytes_round_trip(m: Map<Seq<u8>, Seq<u8>>, k: Seq<u8>, v: Seq<u8>)
    ensures
        m.insert(k, v).contains_key(k),
        m.insert(k, v)[k] == v,
{
}

/// A key never written stays absent: a write or a delete under any other key,
/// and a delete of the key itself, all leave it out of the content, so `get`
/// keeps returning the absent value.
pub proof fn lemma_unwritten_key_absent(
    m: Map<Seq<u8>, Seq<u8>>,
    k: Seq<u8>,
    other: Seq<u8>,
    v: Seq<u8>,
)
    requires
        !m.contains_key(k),
        other != k,
    ensures
        !m.insert(other, v).contains_key(k),
        !m.remove(other).contains_key(k),
        !m.remove(k).contains_key(k),
{
}

/// After a `delete` of `k` the content no longer holds `k`, whether or not it
/// was present before: a following `get` returns absent.
pub proof fn lemma_delete_then_get_absent(m: Map<Seq<u8>, Seq<u8>>, k: Seq<u8>)
    ensures
        !m.remove(k).contains_key(k),
{
}

/// Every pair of a batch is visible once the batch lands: a pair whose key no
/// later pair of the same batch writes again is stored exactly as given.
pub proof fn lemma_batch_pair_visible(
    m: Map<Seq<u8>, Seq<u8>>,
    ps: Seq<(Seq<u8>, Seq<u8>)>,
    i: int,
)
    requires
        0 <= i < ps.len(),
        forall|j: int| i < j < ps.len() ==> (#[trigger] ps[j]).0 != ps[i].0,
    ensures
        apply_pairs(m, ps).contains_key(ps[i].0),
        apply_pairs(m, ps)[ps[i].0] == ps[i].1,
    decreases ps.len(),
{
    if i < ps.len() - 1 {
        assert(ps.drop_last()[i] == ps[i]);
        lemma_batch_pair_visible(m, ps.drop_last(), i);
    }
}

/// A batch touches no key outside it: a key no pair of the batch writes is
/// held, and valued, exactly as before the batch.
pub proof fn lemma_batch_other_key_untouched(
    m: Map<Seq<u8>, Seq<u8>>,
    ps: Seq<(Seq<u8>, Seq<u8>)>,
    k: Seq<u8>,
)
    requires
        forall|j: int| 0 <= j < ps.len() ==> (#[trigger] ps[j]).0 != k,
    ensures
        apply_pairs(m, ps).contains_key(k) == m.contains_key(k),
        m.contains_key(k) ==> apply_pairs(m, ps)[k] == m[k],
    decreases ps.len(),
{
    if ps.len() > 0 {
        assert(forall|j: int|
            0 <= j < ps.drop_last().len() ==> (#[trigger] ps.drop_last()[j]).0 != k);
        lemma_batch_other_key_untouched(m, ps.drop_last(), k);
    }
}

/// Retention across a reopen: a flush settles the whole content durably, a
/// host saves the write log, and a store recovered from a log that replays
/// to that content holds every key of it unchanged — what was flushed and
/// saved is what a new handle at the same directory reads.
pub proof fn lemma_recover_retains_flushed(
    flushed: Map<Seq<u8>, Seq<u8>>,
    entries: Seq<(Vec<u8>, Option<Vec<u8>>)>,
    k: Seq<u8>,
)
    requires
        log_map(entries) == flushed,
        flushed.contains_key(k),
    ensures
        log_map(entries).contains_key(k),
        log_map(entries)[k] == flushed[k],
{
}

/// What a multi-key read slot holds: exactly the value a key was last written
/// with, and the empty string for a key the content does not hold.
pub proof fn lemma_multi_get_slots(m: Map<Seq<u8>, Seq<u8>>, k: Seq<char>, v: Seq<char>)
    ensures
        lookup_text(m.insert(encode_utf8(k), encode_utf8(v)), k) == v,
        !m.contains_key(encode_utf8(k)) ==> lookup_text(m, k) == Seq::<char>::empty(),
{
    encode_utf8_valid_utf8(v);
    encode_utf8_decode_utf8(v);
}

} // verus!
