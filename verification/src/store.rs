//! The store itself: an append-only write log with last-write-wins reads and
//! delete tombstones — the shape of a log-structured store — together with
//! the write-ahead-log toggle and the compression choice made at open time.
//! Every operation's effect is stated over two maps from key bytes to value
//! bytes: the store's view, its visible content, and `durable`, the part of
//! it already settled durably. A host persists the write log in the store's
//! directory and reopens the store from it with [`RocksDB::recover`].

use crate::model::apply_pairs;
use crate::model::encoded_pairs;
use crate::model::lookup_text;
use crate::text::bytes_as_str;
use vstd::prelude::*;
use vstd::slice::slice_to_vec;
use vstd::utf8::decode_utf8;
use vstd::utf8::encode_utf8;
use vstd::utf8::encode_utf8_decode_utf8;
use vstd::utf8::valid_utf8;

verus! {

/// Why a read did not produce text.
#[derive(Clone, Copy, Debug, PartialEq, Eq, Structural)]
pub enum DbError {
    /// The stored bytes were not valid UTF-8 where text was required.
    InvalidUtf8,
}

/// The content a write log denotes, read entry by entry: a stored value
/// overwrites whatever its key held before, a tombstone takes the key out.
pub open spec fn log_map(s: Seq<(Vec<u8>, Option<Vec<u8>>)>) -> Map<Seq<u8>, Seq<u8>>
    decreases s.len(),
{
    if s.len() == 0 {
        Map::<Seq<u8>, Seq<u8>>::empty()
    } else {
        match s.last().1 {
            Some(v) => log_map(s.drop_last()).insert(s.last().0@, v@),
            None => log_map(s.drop_last()).remove(s.last().0@),
        }
    }
}

/// Entries past `i` that never mention the key `k` do not change what the log
/// says about `k`: the whole log and the prefix before `i` agree on it.
proof fn lemma_log_map_unmatched_suffix(s: Seq<(Vec<u8>, Option<Vec<u8>>)>, i: int, k: Seq<u8>)
    requires
        0 <= i <= s.len(),
        forall|j: int| i <= j < s.len() ==> (#[trigger] s[j]).0@ != k,
    ensures
        log_map(s).contains_key(k) == log_map(s.take(i)).contains_key(k),
        log_map(s).contains_key(k) ==> log_map(s)[k] == log_map(s.take(i))[k],
    decreases s.len() - i,
{
    if i == s.len() {
        assert(s.take(i) =~= s);
    } else {
        let d = s.drop_last();
        assert(forall|j: int| i <= j < d.len() ==> (#[trigger] d[j]).0@ != k);
        lemma_log_map_unmatched_suffix(d, i, k);
        assert(d.take(i) =~= s.take(i));
        assert(s[s.len() - 1].0@ != k);
    }
}

/// Byte-for-byte equality of two slices.
fn bytes_eq(a: &[u8], b: &[u8]) -> (r: bool)
    ensures
        r == (a@ == b@),
{
    if a.len() != b.len() {
        return false;
    }
    let mut i: usize = 0;
    while i < a.len()
        invariant
            a@.len() == b@.len(),
            i <= a@.len(),
            forall|j: int| 0 <= j < i ==> a@[j] == b@[j],
        decreases a@.len() - i,
    {
        if a[i] != b[i] {
            return false;
        }
        i = i + 1;
    }
    proof {
        assert(a@ =~= b@);
    }
    true
}

/// Text equality, decided on the UTF-8 bytes: two texts are equal exactly
/// when their encodings are.
fn str_eq(a: &str, b: &str) -> (r: bool)
    ensures
        r == (a@ == b@),
{
    let r = bytes_eq(a.as_bytes(), b.as_bytes());
    proof {
        if encode_utf8(a@) == encode_utf8(b@) {
            encode_utf8_decode_utf8(a@);
            encode_utf8_decode_utf8(b@);
        }
    }
    r
}

/// True exactly when the caller asked for Snappy compression by name; any
/// other or absent choice means the Zstd default.
pub fn compression_is_snappy(compression: &Option<&str>) -> (snappy: bool)
    ensures
        snappy == (compression matches Some(c) && c@ == "snappy"@),
{
    match compression {
        Some(c) => str_eq(c, "snappy"),
        None => false,
    }
}

/// One open store: the shared handle all operations go through. Its view is
/// the content, a map from key bytes to value bytes; beside the content it
/// carries the durably settled part of it, the directory it was opened at,
/// the compression choice, and the durability mode for single-key writes.
pub struct RocksDB {
    log: Vec<(Vec<u8>, Option<Vec<u8>>)>,
    durable: Ghost<Map<Seq<u8>, Seq<u8>>>,
    wal: bool,
    snappy: bool,
    dir: String,
}

impl View for RocksDB {
    type V = Map<Seq<u8>, Seq<u8>>;

    closed spec fn view(&self) -> Map<Seq<u8>, Seq<u8>> {
        log_map(self.log@)
    }
}

impl RocksDB {
    /// True when single-key writes go through the write-ahead log before they
    /// are acknowledged.
    pub closed spec fn wal_enabled(&self) -> bool {
        self.wal
    }

    /// True when the store compresses with Snappy; false means the Zstd
    /// default.
    pub closed spec fn snappy_compression(&self) -> bool {
        self.snappy
    }

    /// The directory the store was opened at.
    pub closed spec fn directory(&self) -> Seq<char> {
        self.dir@
    }

    /// The content already settled durably: what survives losing everything
    /// that is not yet flushed. A write made with the write-ahead log on
    /// settles at once; one made with it off, and every batch write (batches
    /// always bypass the log), settles only at the next flush.
    pub closed spec fn durable(&self) -> Map<Seq<u8>, Seq<u8>> {
        self.durable@
    }

    /// The open-time configuration: everything about the store but its
    /// content.
    pub open spec fn configured_like(&self, other: &RocksDB) -> bool {
        &&& self.wal_enabled() == other.wal_enabled()
        &&& self.snappy_compression() == other.snappy_compression()
        &&& self.directory() == other.directory()
    }

    /// Creates a fresh store bound to the directory `path`, holding nothing
    /// yet. `compression` picks the codec: `"snappy"` is recognised, any
    /// other or absent value means the Zstd default. A fresh handle writes
    /// through the write-ahead log. To reopen a directory a previous handle
    /// left a write log in, use [`RocksDB::recover`].
    pub fn new(path: &str, compression: Option<&str>) -> (db: RocksDB)
        ensures
            db@ == Map::<Seq<u8>, Seq<u8>>::empty(),
            db.durable() == Map::<Seq<u8>, Seq<u8>>::empty(),
            db.wal_enabled(),
            db.snappy_compression() == (compression matches Some(c) && c@ == "snappy"@),
            db.directory() == path@,
    {
        let snappy = compression_is_snappy(&compression);
        RocksDB {
            log: Vec::new(),
            durable: Ghost(Map::<Seq<u8>, Seq<u8>>::empty()),
            wal: true,
            snappy,
            dir: path.to_owned(),
        }
    }

    /// Reopens a store from the write log a previous handle left in its
    /// directory: the content is exactly the log's replay, and all of it is
    /// durable — it was read back from storage. The handle starts with the
    /// write-ahead log on, like a fresh one.
    pub fn recover(
        path: &str,
        compression: Option<&str>,
        entries: Vec<(Vec<u8>, Option<Vec<u8>>)>,
    ) -> (db: RocksDB)
        ensures
            db@ == log_map(entries@),
            db.durable() == db@,
            db.wal_enabled(),
            db.snappy_compression() == (compression matches Some(c) && c@ == "snappy"@),
            db.directory() == path@,
    {
        let snappy = compression_is_snappy(&compression);
        let ghost recovered = log_map(entries@);
        RocksDB { log: entries, durable: Ghost(recovered), wal: true, snappy, dir: path.to_owned() }
    }

    /// The write log the content is replayed from, for a host that persists
    /// it in the store's directory: replaying it with [`RocksDB::recover`]
    /// yields exactly the current content.
    pub fn log_entries(&self) -> (entries: &Vec<(Vec<u8>, Option<Vec<u8>>)>)
        ensures
            log_map(entries@) == self@,
    {
        &self.log
    }

    /// Routes every following single-key write through the write-ahead log.
    /// The stored content is untouched.
    pub fn enable_wal(&mut self)
        ensures
            final(self)@ == old(self)@,
            final(self).durable() == old(self).durable(),
            final(self).wal_enabled(),
            final(self).snappy_compression() == old(self).snappy_compression(),
            final(self).directory() == old(self).directory(),
    {
        self.wal = true;
    }

    /// Lets every following single-key write skip the write-ahead log: such
    /// writes trade durability for throughput and settle only at the next
    /// flush. The stored content is untouched.
    pub fn disable_wal(&mut self)
        ensures
            final(self)@ == old(self)@,
            final(self).durable() == old(self).durable(),
            !final(self).wal_enabled(),
            final(self).snappy_compression() == old(self).snappy_compression(),
            final(self).directory() == old(self).directory(),
    {
        self.wal = false;
    }

    /// The value the log currently gives `key`, if any.
    fn lookup(&self, key: &[u8]) -> (r: Option<Vec<u8>>)
        ensures
            match r {
                Some(v) => self@.contains_key(key@) && v@ == self@[key@],
                None => !self@.contains_key(key@),
            },
    {
        let mut i: usize = self.log.len();
        while i > 0
            invariant
                i <= self.log@.len(),
                forall|j: int| i <= j < self.log@.len() ==> (#[trigger] self.log@[j]).0@ != key@,
            decreases i,
        {
            i = i - 1;
            if bytes_eq(self.log[i].0.as_slice(), key) {
                proof {
                    lemma_log_map_unmatched_suffix(self.log@, i as int + 1, key@);
                    assert(self.log@.take(i as int + 1).drop_last() =~= self.log@.take(i as int));
                    assert(self.log@.take(i as int + 1).last() == self.log@[i as int]);
                }
                match &self.log[i].1 {
                    Some(v) => {
                        return Some(slice_to_vec(v.as_slice()));
                    },
                    None => {
                        return None;
                    },
                }
            }
        }
        proof {
            lemma_log_map_unmatched_suffix(self.log@, 0, key@);
            assert(self.log@.take(0) =~= Seq::<(Vec<u8>, Option<Vec<u8>>)>::empty());
        }
        None
    }

    /// Appends one entry to the log; the content changes exactly at its key,
    /// and nothing settles durably.
    fn append(&mut self, key: Vec<u8>, entry: Option<Vec<u8>>)
        ensures
            final(self).configured_like(old(self)),
            final(self).durable() == old(self).durable(),
            entry matches Some(v) ==> final(self)@ == old(self)@.insert(key@, v@),
            entry is None ==> final(self)@ == old(self)@.remove(key@),
    {
        self.log.push((key, entry));
        proof {
            assert(self.log@.drop_last() =~= old(self).log@);
        }
    }

    /// Stores the text `value` under the text `key`, both as their UTF-8
    /// bytes, under the current durability mode: with the write-ahead log on
    /// the pair settles durably at once, with it off only at the next flush.
    /// Either way the pair is visible to every following read.
    pub fn put(&mut self, key: String, value: String)
        ensures
            final(self).configured_like(old(self)),
            final(self)@ == old(self)@.insert(encode_utf8(key@), encode_utf8(value@)),
            final(self).durable() == if old(self).wal_enabled() {
                old(self).durable().insert(encode_utf8(key@), encode_utf8(value@))
            } else {
                old(self).durable()
            },
    {
        let kb = slice_to_vec(key.as_str().as_bytes());
        let vb = slice_to_vec(value.as_str().as_bytes());
        self.append(kb, Some(vb));
        if self.wal {
            self.durable = Ghost(self.durable@.insert(encode_utf8(key@), encode_utf8(value@)));
        }
    }

    /// Stores the raw bytes `value` under the text `key`, under the current
    /// durability mode: with the write-ahead log on the pair settles durably
    /// at once, with it off only at the next flush.
    pub fn put_bytes(&mut self, key: String, value: &[u8])
        ensures
            final(self).configured_like(old(self)),
            final(self)@ == old(self)@.insert(encode_utf8(key@), value@),
            final(self).durable() == if old(self).wal_enabled() {
                old(self).durable().insert(encode_utf8(key@), value@)
            } else {
                old(self).durable()
            },
    {
        let kb = slice_to_vec(key.as_str().as_bytes());
        let vb = slice_to_vec(value);
        self.append(kb, Some(vb));
        if self.wal {
            self.durable = Ghost(self.durable@.insert(encode_utf8(key@), value@));
        }
    }

    /// Returns the text stored under `key`, `None` when the key is absent,
    /// and [`DbError::InvalidUtf8`] when the stored bytes are not valid text.
    pub fn get(&self, key: String) -> (r: Result<Option<String>, DbError>)
        ensures
            match r {
                Ok(Some(v)) => {
                    &&& self@.contains_key(encode_utf8(key@))
                    &&& valid_utf8(self@[encode_utf8(key@)])
                    &&& v@ == decode_utf8(self@[encode_utf8(key@)])
                    &&& encode_utf8(v@) == self@[encode_utf8(key@)]
                },
                Ok(None) => !self@.contains_key(encode_utf8(key@)),
                Err(e) => {
                    &&& e == DbError::InvalidUtf8
                    &&& self@.contains_key(encode_utf8(key@))
                    &&& !valid_utf8(self@[encode_utf8(key@)])
                },
            },
    {
        match self.lookup(key.as_str().as_bytes()) {
            Some(bytes) => match bytes_as_str(bytes.as_slice()) {
                Some(text) => {
                    proof {
                        encode_utf8_decode_utf8(text@);
                    }
                    Ok(Some(text.to_owned()))
                },
                None => Err(DbError::InvalidUtf8),
            },
            None => Ok(None),
        }
    }

    /// Returns the raw bytes stored under the text `key`, or `None` when the
    /// key is absent.
    pub fn get_bytes(&self, key: String) -> (r: Option<Vec<u8>>)
        ensures
            match r {
                Some(v) => self@.contains_key(encode_utf8(key@)) && v@ == self@[encode_utf8(
                    key@,
                )],
                None => !self@.contains_key(encode_utf8(key@)),
            },
    {
        self.lookup(key.as_str().as_bytes())
    }

    /// Removes `key` and reports success; removing an absent key is also a
    /// success, and either way the key is absent afterwards. Like a single
    /// put, the removal settles durably at once with the write-ahead log on,
    /// and only at the next flush with it off.
    pub fn delete(&mut self, key: String) -> (r: bool)
        ensures
            r,
            final(self).configured_like(old(self)),
            final(self)@ == old(self)@.remove(encode_utf8(key@)),
            final(self).durable() == if old(self).wal_enabled() {
                old(self).durable().remove(encode_utf8(key@))
            } else {
                old(self).durable()
            },
    {
        let kb = slice_to_vec(key.as_str().as_bytes());
        self.append(kb, None);
        if self.wal {
            self.durable = Ghost(self.durable@.remove(encode_utf8(key@)));
        }
        true
    }

    /// Writes all pairs as one atomic batch, first to last, always bypassing
    /// the write-ahead log whatever the current durability mode: nothing of
    /// the batch settles durably before the next flush. Returns the number of
    /// pairs written: the full count, since the batch lands as a whole — all
    /// pairs become visible together.
    pub fn batch_put(&mut self, pairs: Vec<(String, String)>) -> (count: u64)
        ensures
            final(self).configured_like(old(self)),
            final(self).durable() == old(self).durable(),
            count == pairs@.len(),
            final(self)@ == apply_pairs(old(self)@, encoded_pairs(pairs@)),
    {
        let mut i: usize = 0;
        while i < pairs.len()
            invariant
                i <= pairs@.len(),
                self.configured_like(old(self)),
                self.durable() == old(self).durable(),
                self@ == apply_pairs(old(self)@, encoded_pairs(pairs@.take(i as int))),
            decreases pairs@.len() - i,
        {
            let ghost done = pairs@.take(i as int);
            let kb = slice_to_vec(pairs[i].0.as_str().as_bytes());
            let vb = slice_to_vec(pairs[i].1.as_str().as_bytes());
            self.append(kb, Some(vb));
            i = i + 1;
            proof {
                assert(pairs@.take(i as int).drop_last() =~= done);
                assert(encoded_pairs(pairs@.take(i as int)).drop_last() =~= encoded_pairs(done));
                assert(encoded_pairs(pairs@.take(i as int)).last() == (
                    encode_utf8(pairs@[i - 1].0@),
                    encode_utf8(pairs@[i - 1].1@),
                ));
            }
        }
        proof {
            assert(pairs@.take(pairs@.len() as int) =~= pairs@);
        }
        pairs.len() as u64
    }

    /// Looks every key up in one multi-key read, preserving input order: the
    /// result has exactly one slot per key. A slot holds the stored text for
    /// its key, the empty string when the key is absent, or the marker
    /// `"error"` when the stored bytes were not valid text.
    pub fn batch_get(&self, keys: Vec<String>) -> (out: Vec<String>)
        ensures
            out@.len() == keys@.len(),
            forall|i: int|
                0 <= i < keys@.len() ==> (#[trigger] out@[i])@ == lookup_text(self@, keys@[i]@),
    {
        let mut out: Vec<String> = Vec::new();
        let mut i: usize = 0;
        while i < keys.len()
            invariant
                i <= keys@.len(),
                out@.len() == i,
                forall|j: int| 0 <= j < i ==> (#[trigger] out@[j])@ == lookup_text(self@, keys@[j]@),
            decreases keys@.len() - i,
        {
            match self.lookup(keys[i].as_str().as_bytes()) {
                Some(bytes) => match bytes_as_str(bytes.as_slice()) {
                    Some(text) => {
                        proof {
                            encode_utf8_decode_utf8(text@);
                        }
                        out.push(text.to_owned());
                    },
                    None => {
                        out.push("error".to_owned());
                    },
                },
                None => {
                    out.push(String::new());
                },
            }
            i = i + 1;
        }
        out
    }

    /// The flush/compaction barrier: once it returns true — and it always
    /// does, also with zero pending writes — the whole content is settled
    /// durably, whatever mix of write-ahead-log modes and batches produced
    /// it, and no background work is outstanding. The content itself is
    /// untouched.
    pub fn flush(&mut self) -> (r: bool)
        ensures
            r,
            final(self)@ == old(self)@,
            final(self).configured_like(old(self)),
            final(self).durable() == old(self)@,
    {
        self.durable = Ghost(log_map(self.log@));
        true
    }

    /// Whether single-key writes currently go through the write-ahead log.
    pub fn is_wal_enabled(&self) -> (b: bool)
        ensures
            b == self.wal_enabled(),
    {
        self.wal
    }

    /// Whether the store compresses with Snappy rather than the Zstd default.
    pub fn uses_snappy(&self) -> (b: bool)
        ensures
            b == self.snappy_compression(),
    {
        self.snappy
    }

    /// The directory the store was opened at.
    pub fn dir_path(&self) -> (p: &str)
        ensures
            p@ == self.directory(),
    {
        self.dir.as_str()
    }
}

} // verus!
