//! Bookkeeping of content stores: the in-memory store with synthetic CIDs,
//! and the CID scheme of the on-disk store (SHA-256 of the content).

use vstd::prelude::*;
use vstd::string::StringExecFns;
use vstd::string::StrSliceExecFns;
use crate::digest::{hex_of_bytes, hex_of_u64, hex_u64, is_hex_char, sha256_hex, sha256_of};
use crate::text::{decode_lossy, same_text, string_from_utf8, strip_prefix, trim, trimmed, utf8_lossy};

verus! {

/// Prefix of blob CIDs of the in-memory store.
pub const MEMORY_BLOB_PREFIX: &'static str = "bafymemb";

/// Prefix of DAG CIDs of the in-memory store.
pub const MEMORY_DAG_PREFIX: &'static str = "bafymemd";

/// Error of a content-store lookup.
#[derive(Debug, Clone, PartialEq, Eq)]
pub enum StoreError {
    /// No blob is stored under this CID.
    UnknownBlob(String),
    /// No DAG node is stored under this CID.
    UnknownDag(String),
}

/// The map that a sequence of stores describes: a later store under a CID
/// replaces an earlier one.
pub open spec fn stored<V>(s: Seq<(Seq<char>, V)>) -> Map<Seq<char>, V>
    decreases s.len(),
{
    if s.len() == 0 {
        Map::empty()
    } else {
        stored(s.drop_last()).insert(s.last().0, s.last().1)
    }
}

/// The synthetic CID of the `n`-th allocation, under `prefix`.
pub open spec fn memory_cid(prefix: Seq<char>, n: u64) -> Seq<char> {
    prefix + hex_of_u64(n)
}

/// The latest store under `k` decides `k`; with no store under `k`, `k` is absent.
proof fn lemma_stored_latest<V>(s: Seq<(Seq<char>, V)>, k: Seq<char>, i: int)
    requires
        -1 <= i < s.len(),
        i >= 0 ==> s[i].0 == k,
        forall|j: int| i < j < s.len() ==> (#[trigger] s[j]).0 != k,
    ensures
        i >= 0 ==> stored(s).contains_key(k) && stored(s)[k] == s[i].1,
        i < 0 ==> !stored(s).contains_key(k),
    decreases s.len(),
{
    if s.len() > 0 {
        let t = s.drop_last();
        if i == s.len() - 1 {
        } else {
            assert forall|j: int| i < j < t.len() implies (#[trigger] t[j]).0 != k by {
                assert(t[j] == s[j]);
            }
            if i >= 0 {
                assert(t[i] == s[i]);
            }
            lemma_stored_latest(t, k, i);
            assert(s.last() == s[s.len() - 1]);
        }
    }
}

/// Every CID in the map is stored at some position.
proof fn lemma_stored_has_position<V>(s: Seq<(Seq<char>, V)>, k: Seq<char>)
    requires
        stored(s).contains_key(k),
    ensures
        exists|i: int| 0 <= i < s.len() && (#[trigger] s[i]).0 == k,
    decreases s.len(),
{
    let t = s.drop_last();
    if s.last().0 != k {
        lemma_stored_has_position(t, k);
        let i = choose|i: int| 0 <= i < t.len() && (#[trigger] t[i]).0 == k;
        assert(s[i] == t[i]);
    } else {
        assert(s[s.len() - 1] == s.last());
    }
}

/// Distinct allocation numbers give distinct CIDs.
pub proof fn law_memory_cids_distinct(prefix: Seq<char>, k: u64, n: u64)
    requires
        memory_cid(prefix, k) == memory_cid(prefix, n),
    ensures
        k == n,
{
    assert(memory_cid(prefix, k).skip(prefix.len() as int) =~= hex_of_u64(k));
    assert(memory_cid(prefix, n).skip(prefix.len() as int) =~= hex_of_u64(n));
    crate::digest::lemma_hex_of_u64_injective(k, n);
}

/// `cid` is the CID of the `k`-th allocation under `prefix`.
pub open spec fn is_cid_of(prefix: Seq<char>, k: u64, cid: Seq<char>) -> bool {
    memory_cid(prefix, k) == cid
}

/// `cid` was handed out under `prefix` among the first `n` allocations.
pub open spec fn allocated_among(prefix: Seq<char>, n: u64, cid: Seq<char>) -> bool {
    exists|k: u64| 1 <= k <= n && #[trigger] memory_cid(prefix, k) == cid
}

/// Every CID in `cids` was handed out under `prefix` among the first `n` allocations.
pub open spec fn allocated_below(cids: Seq<Seq<char>>, prefix: Seq<char>, n: u64) -> bool {
    forall|i: int| 0 <= i < cids.len() ==> #[trigger] allocated_among(prefix, n, cids[i])
}

/// More allocations keep earlier CIDs accounted for.
proof fn lemma_allocated_below_grows(cids: Seq<Seq<char>>, prefix: Seq<char>, n: u64, m: u64)
    requires
        allocated_below(cids, prefix, n),
        n <= m,
    ensures
        allocated_below(cids, prefix, m),
{
    assert forall|i: int| 0 <= i < cids.len() implies #[trigger] allocated_among(prefix, m, cids[i]) by {
        assert(allocated_among(prefix, n, cids[i]));
        let k = choose|k: u64| 1 <= k <= n && #[trigger] memory_cid(prefix, k) == cids[i];
    }
}

/// A CID handed out after the first `n` allocations is not among them.
proof fn lemma_allocated_below_fresh(cids: Seq<Seq<char>>, prefix: Seq<char>, n: u64, m: u64)
    requires
        allocated_below(cids, prefix, n),
        n < m,
    ensures
        forall|i: int| 0 <= i < cids.len() ==> #[trigger] cids[i] != memory_cid(prefix, m),
{
    assert forall|i: int| 0 <= i < cids.len() implies #[trigger] cids[i] != memory_cid(prefix, m) by {
        assert(allocated_among(prefix, n, cids[i]));
        let k = choose|k: u64| 1 <= k <= n && #[trigger] memory_cid(prefix, k) == cids[i];
        if cids[i] == memory_cid(prefix, m) {
            law_memory_cids_distinct(prefix, k, m);
        }
    }
}

/// Adding the `n`-th CID to CIDs allocated below `n` keeps them allocated below `n`.
proof fn lemma_allocated_below_push(cids: Seq<Seq<char>>, prefix: Seq<char>, n: u64)
    requires
        allocated_below(cids, prefix, n),
        n >= 1,
    ensures
        allocated_below(cids.push(memory_cid(prefix, n)), prefix, n),
{
    let t = cids.push(memory_cid(prefix, n));
    assert forall|i: int| 0 <= i < t.len() implies #[trigger] allocated_among(prefix, n, t[i]) by {
        if i < cids.len() {
            assert(t[i] == cids[i]);
            assert(allocated_among(prefix, n, cids[i]));
        } else {
            assert(memory_cid(prefix, n) == t[i]);
        }
    }
}

/// Position of the latest item stored under `key`, if any.
fn find_latest<V>(items: &Vec<(String, V)>, key: &str) -> (r: Option<usize>)
    ensures
        match r {
            Some(i) => i < items@.len() && items@[i as int].0@ == key@ && forall|j: int|
                i < j < items@.len() ==> (#[trigger] items@[j]).0@ != key@,
            None => forall|j: int| 0 <= j < items@.len() ==> (#[trigger] items@[j]).0@ != key@,
        },
{
    let mut i = items.len();
    while i > 0
        invariant
            i <= items@.len(),
            forall|j: int| i <= j < items@.len() ==> (#[trigger] items@[j]).0@ != key@,
        decreases i,
    {
        let j = i - 1;
        if same_text(items[j].0.as_str(), key) {
            return Some(j);
        }
        i = j;
    }
    None
}

/// One call that changes an in-memory store.
pub enum StoreCall {
    /// `add_blob` with these bytes.
    AddBlob(Seq<u8>),
    /// `dag_put_json` with this node.
    PutDag(serde_json::Value),
}

/// The CID that the `i`-th call of `calls` (counting from 0) returned: the
/// `i + 1`-th number handed out, under the blob or the DAG prefix.
pub open spec fn returned_cid(calls: Seq<StoreCall>, i: int) -> Seq<char> {
    match calls[i] {
        StoreCall::AddBlob(_) => memory_cid(MEMORY_BLOB_PREFIX@, (i + 1) as u64),
        StoreCall::PutDag(_) => memory_cid(MEMORY_DAG_PREFIX@, (i + 1) as u64),
    }
}

/// The blobs that the calls `calls`, made on an empty store, leave stored.
pub open spec fn replayed_blobs(calls: Seq<StoreCall>) -> Map<Seq<char>, Seq<u8>>
    decreases calls.len(),
{
    if calls.len() == 0 {
        Map::empty()
    } else {
        let before = replayed_blobs(calls.drop_last());
        match calls.last() {
            StoreCall::AddBlob(data) => before.insert(returned_cid(calls, calls.len() - 1), data),
            StoreCall::PutDag(_) => before,
        }
    }
}

/// The DAG nodes that the calls `calls`, made on an empty store, leave stored.
pub open spec fn replayed_dags(calls: Seq<StoreCall>) -> Map<Seq<char>, serde_json::Value>
    decreases calls.len(),
{
    if calls.len() == 0 {
        Map::empty()
    } else {
        let before = replayed_dags(calls.drop_last());
        match calls.last() {
            StoreCall::AddBlob(_) => before,
            StoreCall::PutDag(value) => before.insert(returned_cid(calls, calls.len() - 1), value),
        }
    }
}

/// In-memory content store with synthetic CIDs: the `n`-th call that stores
/// something gets the CID made of its prefix and `n` as sixteen hexadecimal
/// digits. Its contents are what its calls so far leave stored.
pub struct MemoryStore {
    blobs: Vec<(String, Vec<u8>)>,
    dags: Vec<(String, serde_json::Value)>,
    next: u64,
    log: Ghost<Seq<StoreCall>>,
}

impl Default for MemoryStore {
    /// An empty store.
    fn default() -> (s: Self)
        ensures
            s.calls() == Seq::<StoreCall>::empty(),
            s.blobs() == Map::<Seq<char>, Seq<u8>>::empty(),
            s.dags() == Map::<Seq<char>, serde_json::Value>::empty(),
            s.allocated() == 0,
    {
        MemoryStore::new()
    }
}

impl MemoryStore {
    #[verifier::type_invariant]
    spec fn cids_were_allocated(&self) -> bool {
        &&& allocated_below(self.blobs@.map_values(|p: (String, Vec<u8>)| p.0@), MEMORY_BLOB_PREFIX@, self.next)
        &&& allocated_below(self.dags@.map_values(|p: (String, serde_json::Value)| p.0@), MEMORY_DAG_PREFIX@, self.next)
        &&& self.next == self.log@.len()
        &&& stored(self.blobs@.map_values(|p: (String, Vec<u8>)| (p.0@, p.1@))) == replayed_blobs(self.log@)
        &&& stored(self.dags@.map_values(|p: (String, serde_json::Value)| (p.0@, p.1))) == replayed_dags(self.log@)
    }

    /// The calls that changed this store, in order.
    pub closed spec fn calls(&self) -> Seq<StoreCall> {
        self.log@
    }

    /// Stored blobs by CID.
    pub open spec fn blobs(&self) -> Map<Seq<char>, Seq<u8>> {
        replayed_blobs(self.calls())
    }

    /// Stored DAG nodes by CID.
    pub open spec fn dags(&self) -> Map<Seq<char>, serde_json::Value> {
        replayed_dags(self.calls())
    }

    /// Number of CIDs handed out so far (one per call).
    pub open spec fn allocated(&self) -> u64 {
        self.calls().len() as u64
    }

    /// An empty store.
    pub fn new() -> (s: Self)
        ensures
            s.calls() == Seq::<StoreCall>::empty(),
            s.blobs() == Map::<Seq<char>, Seq<u8>>::empty(),
            s.dags() == Map::<Seq<char>, serde_json::Value>::empty(),
            s.allocated() == 0,
    {
        let s = MemoryStore { blobs: Vec::new(), dags: Vec::new(), next: 0, log: Ghost(Seq::empty()) };
        assert(s.blobs@.map_values(|p: (String, Vec<u8>)| (p.0@, p.1@)) =~= Seq::empty());
        assert(s.dags@.map_values(|p: (String, serde_json::Value)| (p.0@, p.1)) =~= Seq::empty());
        s
    }

    /// Number of CIDs handed out so far.
    pub fn allocated_count(&self) -> (n: u64)
        ensures
            n == self.allocated(),
    {
        proof {
            use_type_invariant(self);
        }
        self.next
    }

    /// The CID of the `n`-th allocation under `prefix`.
    fn cid_for(prefix: &str, n: u64) -> (cid: String)
        ensures
            cid@ == memory_cid(prefix@, n),
    {
        let mut cid = prefix.to_owned();
        let digits = hex_u64(n);
        cid.append(digits.as_str());
        cid
    }

    /// Stores a blob under a fresh CID and returns the CID.
    pub fn add_blob(&mut self, data: &[u8]) -> (cid: String)
        requires
            old(self).allocated() < u64::MAX,
        ensures
            final(self).calls() == old(self).calls().push(StoreCall::AddBlob(data@)),
            final(self).calls().len() <= u64::MAX,
            cid@ == returned_cid(final(self).calls(), old(self).calls().len() as int),
            final(self).allocated() == old(self).allocated() + 1,
            cid@ == memory_cid(MEMORY_BLOB_PREFIX@, final(self).allocated()),
            !old(self).blobs().contains_key(cid@),
            final(self).blobs() == old(self).blobs().insert(cid@, data@),
            final(self).dags() == old(self).dags(),
    {
        proof {
            use_type_invariant(&*self);
        }
        let mut taken = MemoryStore::new();
        std::mem::swap(self, &mut taken);
        proof {
            use_type_invariant(&taken);
        }
        let MemoryStore { blobs, dags, next, log } = taken;
        let ghost s = blobs@.map_values(|p: (String, Vec<u8>)| (p.0@, p.1@));
        let ghost names = blobs@.map_values(|p: (String, Vec<u8>)| p.0@);
        let n = next + 1;
        proof {
            lemma_allocated_below_fresh(names, MEMORY_BLOB_PREFIX@, next, n);
            if stored(s).contains_key(memory_cid(MEMORY_BLOB_PREFIX@, n)) {
                lemma_stored_has_position(s, memory_cid(MEMORY_BLOB_PREFIX@, n));
                let i = choose|i: int| 0 <= i < s.len() && (#[trigger] s[i]).0 == memory_cid(MEMORY_BLOB_PREFIX@, n);
                assert(names[i] == s[i].0);
                assert(!is_cid_of(MEMORY_BLOB_PREFIX@, n, names[i]));
            }
            lemma_allocated_below_grows(
                dags@.map_values(|p: (String, serde_json::Value)| p.0@),
                MEMORY_DAG_PREFIX@,
                next,
                n,
            );
            lemma_allocated_below_grows(names, MEMORY_BLOB_PREFIX@, next, n);
            lemma_allocated_below_push(names, MEMORY_BLOB_PREFIX@, n);
        }
        let cid = Self::cid_for(MEMORY_BLOB_PREFIX, n);
        let mut blobs = blobs;
        blobs.push((cid.clone(), vstd::slice::slice_to_vec(data)));
        let ghost calls = log@.push(StoreCall::AddBlob(data@));
        proof {
            let t = blobs@.map_values(|p: (String, Vec<u8>)| (p.0@, p.1@));
            assert(t.drop_last() =~= s);
            assert(blobs@.map_values(|p: (String, Vec<u8>)| p.0@) =~= names.push(memory_cid(MEMORY_BLOB_PREFIX@, n)));
            assert(calls.drop_last() =~= log@);
        }
        *self = MemoryStore { blobs, dags, next: n, log: Ghost(calls) };
        cid
    }

    /// The blob stored under `cid`.
    pub fn cat_blob(&self, cid: &str) -> (r: Result<Vec<u8>, StoreError>)
        ensures
            match r {
                Ok(data) => self.blobs().contains_key(cid@) && data@ == self.blobs()[cid@],
                Err(e) => !self.blobs().contains_key(cid@) && (e matches StoreError::UnknownBlob(c)
                    && c@ == cid@),
            },
    {
        proof {
            use_type_invariant(self);
        }
        let found = find_latest(&self.blobs, cid);
        let ghost s = self.blobs@.map_values(|p: (String, Vec<u8>)| (p.0@, p.1@));
        match found {
            Some(i) => {
                proof {
                    assert forall|j: int| i < j < s.len() implies (#[trigger] s[j]).0 != cid@ by {
                        assert(s[j].0 == self.blobs@[j].0@);
                    }
                    lemma_stored_latest(s, cid@, i as int);
                }
                Ok(vstd::slice::slice_to_vec(self.blobs[i].1.as_slice()))
            },
            None => {
                proof {
                    assert forall|j: int| -1 < j < s.len() implies (#[trigger] s[j]).0 != cid@ by {
                        assert(s[j].0 == self.blobs@[j].0@);
                    }
                    lemma_stored_latest(s, cid@, -1);
                }
                Err(StoreError::UnknownBlob(cid.to_owned()))
            },
        }
    }

    /// Stores a DAG node under a fresh CID and returns the CID.
    pub fn dag_put_json(&mut self, value: &serde_json::Value) -> (cid: String)
        requires
            old(self).allocated() < u64::MAX,
        ensures
            final(self).calls() == old(self).calls().push(StoreCall::PutDag(*value)),
            final(self).calls().len() <= u64::MAX,
            cid@ == returned_cid(final(self).calls(), old(self).calls().len() as int),
            final(self).allocated() == old(self).allocated() + 1,
            cid@ == memory_cid(MEMORY_DAG_PREFIX@, final(self).allocated()),
            !old(self).dags().contains_key(cid@),
            final(self).dags() == old(self).dags().insert(cid@, *value),
            final(self).blobs() == old(self).blobs(),
    {
        proof {
            use_type_invariant(&*self);
        }
        let mut taken = MemoryStore::new();
        std::mem::swap(self, &mut taken);
        proof {
            use_type_invariant(&taken);
        }
        let MemoryStore { blobs, dags, next, log } = taken;
        let ghost s = dags@.map_values(|p: (String, serde_json::Value)| (p.0@, p.1));
        let ghost names = dags@.map_values(|p: (String, serde_json::Value)| p.0@);
        let n = next + 1;
        proof {
            lemma_allocated_below_fresh(names, MEMORY_DAG_PREFIX@, next, n);
            if stored(s).contains_key(memory_cid(MEMORY_DAG_PREFIX@, n)) {
                lemma_stored_has_position(s, memory_cid(MEMORY_DAG_PREFIX@, n));
                let i = choose|i: int| 0 <= i < s.len() && (#[trigger] s[i]).0 == memory_cid(MEMORY_DAG_PREFIX@, n);
                assert(names[i] == s[i].0);
                assert(!is_cid_of(MEMORY_DAG_PREFIX@, n, names[i]));
            }
            lemma_allocated_below_grows(
                blobs@.map_values(|p: (String, Vec<u8>)| p.0@),
                MEMORY_BLOB_PREFIX@,
                next,
                n,
            );
            lemma_allocated_below_grows(names, MEMORY_DAG_PREFIX@, next, n);
            lemma_allocated_below_push(names, MEMORY_DAG_PREFIX@, n);
        }
        let cid = Self::cid_for(MEMORY_DAG_PREFIX, n);
        let mut dags = dags;
        dags.push((cid.clone(), value.clone()));
        let ghost calls = log@.push(StoreCall::PutDag(*value));
        proof {
            let t = dags@.map_values(|p: (String, serde_json::Value)| (p.0@, p.1));
            assert(t.drop_last() =~= s);
            assert(dags@.map_values(|p: (String, serde_json::Value)| p.0@) =~= names.push(memory_cid(MEMORY_DAG_PREFIX@, n)));
            assert(calls.drop_last() =~= log@);
        }
        *self = MemoryStore { blobs, dags, next: n, log: Ghost(calls) };
        cid
    }

    /// The DAG node stored under `cid`.
    pub fn dag_get_json(&self, cid: &str) -> (r: Result<serde_json::Value, StoreError>)
        ensures
            match r {
                Ok(v) => self.dags().contains_key(cid@) && v == self.dags()[cid@],
                Err(e) => !self.dags().contains_key(cid@) && (e matches StoreError::UnknownDag(c)
                    && c@ == cid@),
            },
    {
        proof {
            use_type_invariant(self);
        }
        let found = find_latest(&self.dags, cid);
        let ghost s = self.dags@.map_values(|p: (String, serde_json::Value)| (p.0@, p.1));
        match found {
            Some(i) => {
                proof {
                    assert forall|j: int| i < j < s.len() implies (#[trigger] s[j]).0 != cid@ by {
                        assert(s[j].0 == self.dags@[j].0@);
                    }
                    lemma_stored_latest(s, cid@, i as int);
                }
                Ok(self.dags[i].1.clone())
            },
            None => {
                proof {
                    assert forall|j: int| -1 < j < s.len() implies (#[trigger] s[j]).0 != cid@ by {
                        assert(s[j].0 == self.dags@[j].0@);
                    }
                    lemma_stored_latest(s, cid@, -1);
                }
                Err(StoreError::UnknownDag(cid.to_owned()))
            },
        }
    }

    /// Pinning is a no-op for the in-memory store.
    pub fn pin(&self, cid: &str) -> (r: Result<(), StoreError>)
        ensures
            r is Ok,
    {
        Ok(())
    }
}

/// Prefix of blob CIDs of the on-disk store (followed by 64 hexadecimal digits of SHA-256).
pub const LOCAL_BLOB_PREFIX: &'static str = "uorx-b-";

/// Prefix of DAG CIDs of the on-disk store (followed by 64 hexadecimal digits of SHA-256).
pub const LOCAL_DAG_PREFIX: &'static str = "uorx-d-";

/// The CID of `content` under `prefix` in the on-disk store.
pub open spec fn local_cid(prefix: Seq<char>, content: Seq<u8>) -> Seq<char> {
    prefix + hex_of_bytes(sha256_of(content))
}

/// A 64-byte text of hexadecimal digits (either case).
pub open spec fn is_digest_text(t: Seq<char>) -> bool {
    &&& vstd::utf8::encode_utf8(t).len() == 64
    &&& forall|i: int| 0 <= i < t.len() ==> is_hex_char(#[trigger] t[i])
}

/// Whether the pin marker keeps the character `c`: ASCII letters and digits
/// and `-`, and the non-ASCII characters that `char::is_alphanumeric` accepts.
pub open spec fn marker_keeps(c: char) -> bool {
    if (c as u32) < 128 {
        ('0' <= c && c <= '9') || ('a' <= c && c <= 'z') || ('A' <= c && c <= 'Z') || c == '-'
    } else {
        char_is_alphanumeric(c)
    }
}

/// The name of the pin marker of `cid`: every character that is neither
/// alphanumeric nor `-` becomes `_`.
pub open spec fn pin_marker(cid: Seq<char>) -> Seq<char> {
    Seq::new(cid.len(), |i: int| if marker_keeps(cid[i]) { cid[i] } else { '_' })
}

/// Whether `char::is_alphanumeric` holds of `c`.
pub uninterp spec fn char_is_alphanumeric(c: char) -> bool;

/// Calls `char::is_alphanumeric` (alphabetic or numeric in Unicode's sense).
/// Stated: the result is `char_is_alphanumeric(c)`, and on ASCII it holds
/// exactly of the ASCII letters and digits.
#[verifier::external_body]
fn is_alphanumeric(c: char) -> (r: bool)
    ensures
        r == char_is_alphanumeric(c),
        (c as u32) < 128 ==> (r <==> (('0' <= c && c <= '9') || ('a' <= c && c <= 'z') || ('A' <= c
            && c <= 'Z'))),
{
    c.is_alphanumeric()
}

/// Why a CID of the on-disk store is refused.
#[derive(Debug, Clone, Copy, PartialEq, Eq)]
pub enum CidError {
    /// The CID does not start with the blob prefix.
    MissingBlobPrefix,
    /// The CID does not start with the DAG prefix.
    MissingDagPrefix,
    /// What follows the blob prefix is not 64 hexadecimal digits.
    InvalidBlobHash,
    /// What follows the DAG prefix is not 64 hexadecimal digits.
    InvalidDagHash,
}

/// A path of the standard library (opaque here).
#[verifier::external_type_specification]
#[verifier::external_body]
pub struct ExPathBuf(std::path::PathBuf);

/// The path `base` joined with `segment`, as `Path::join` computes it.
pub uninterp spec fn path_joined(base: std::path::PathBuf, segment: Seq<char>) -> std::path::PathBuf;

/// Calls `Path::join` on `base` and `segment`. Stated: the result is
/// `path_joined(base, segment)`, a function of the two alone.
#[verifier::external_body]
fn join_path(base: &std::path::PathBuf, segment: &str) -> (p: std::path::PathBuf)
    ensures
        p == path_joined(*base, segment@),
{
    base.join(segment)
}

/// Persistent store on disk, content-addressed by SHA-256 of the stored bytes.
/// Layout below `root`: `blobs/<hex>`, `dags/<hex>`, `pins/<marker>`.
pub struct LocalFsStore {
    root: std::path::PathBuf,
}

impl LocalFsStore {
    /// The directory the store lives in.
    pub closed spec fn root_dir(&self) -> std::path::PathBuf {
        self.root
    }

    /// A store rooted at `root` (the directories are created by the caller).
    pub fn new(root: std::path::PathBuf) -> (s: Self)
        ensures
            s.root_dir() == root,
    {
        LocalFsStore { root }
    }

    /// The directory the store lives in.
    pub fn root(&self) -> (r: &std::path::PathBuf)
        ensures
            *r == self.root_dir(),
    {
        &self.root
    }

    /// The file that holds the blob with digest `hex`: `<root>/blobs/<hex>`.
    pub fn blob_path(&self, hex: &str) -> (p: std::path::PathBuf)
        ensures
            p == path_joined(path_joined(self.root_dir(), "blobs"@), hex@),
    {
        let dir = join_path(&self.root, "blobs");
        join_path(&dir, hex)
    }

    /// The file that holds the DAG node with digest `hex`: `<root>/dags/<hex>`.
    pub fn dag_path(&self, hex: &str) -> (p: std::path::PathBuf)
        ensures
            p == path_joined(path_joined(self.root_dir(), "dags"@), hex@),
    {
        let dir = join_path(&self.root, "dags");
        join_path(&dir, hex)
    }

    /// The marker file that pins `cid`: `<root>/pins/<marker>`, the marker
    /// being `cid` with every character other than alphanumerics and `-`
    /// replaced by `_`.
    pub fn pin_path(&self, cid: &str) -> (p: std::path::PathBuf)
        ensures
            p == path_joined(path_joined(self.root_dir(), "pins"@), pin_marker(cid@)),
    {
        let safe = Self::pin_marker_name(cid);
        let dir = join_path(&self.root, "pins");
        join_path(&dir, safe.as_str())
    }

    /// The CID under which `data` is stored as a blob.
    pub fn blob_cid(data: &[u8]) -> (cid: String)
        ensures
            cid@ == local_cid(LOCAL_BLOB_PREFIX@, data@),
            LOCAL_BLOB_PREFIX@.is_prefix_of(cid@),
            is_digest_text(cid@.skip(LOCAL_BLOB_PREFIX@.len() as int)),
    {
        let mut cid = LOCAL_BLOB_PREFIX.to_owned();
        let hex = sha256_hex(data);
        cid.append(hex.as_str());
        proof {
            reveal_strlit("uorx-b-");
            assert(LOCAL_BLOB_PREFIX@.is_prefix_of(cid@)) by {
                assert(cid@.subrange(0, LOCAL_BLOB_PREFIX@.len() as int) =~= LOCAL_BLOB_PREFIX@);
            }
            assert(cid@.skip(LOCAL_BLOB_PREFIX@.len() as int) =~= hex@);
        }
        cid
    }

    /// The CID under which the JSON text `json` is stored as a DAG node.
    pub fn dag_cid(json: &[u8]) -> (cid: String)
        ensures
            cid@ == local_cid(LOCAL_DAG_PREFIX@, json@),
            LOCAL_DAG_PREFIX@.is_prefix_of(cid@),
            is_digest_text(cid@.skip(LOCAL_DAG_PREFIX@.len() as int)),
    {
        let mut cid = LOCAL_DAG_PREFIX.to_owned();
        let hex = sha256_hex(json);
        cid.append(hex.as_str());
        proof {
            reveal_strlit("uorx-d-");
            assert(LOCAL_DAG_PREFIX@.is_prefix_of(cid@)) by {
                assert(cid@.subrange(0, LOCAL_DAG_PREFIX@.len() as int) =~= LOCAL_DAG_PREFIX@);
            }
            assert(cid@.skip(LOCAL_DAG_PREFIX@.len() as int) =~= hex@);
        }
        cid
    }

    /// The digest part of a blob CID.
    pub fn parse_blob_cid(cid: &str) -> (r: Result<&str, CidError>)
        ensures
            match r {
                Ok(hex) => LOCAL_BLOB_PREFIX@.is_prefix_of(cid@) && hex@ == cid@.skip(
                    LOCAL_BLOB_PREFIX@.len() as int,
                ),
                Err(e) => !LOCAL_BLOB_PREFIX@.is_prefix_of(cid@) && e == CidError::MissingBlobPrefix,
            },
    {
        match strip_prefix(cid, LOCAL_BLOB_PREFIX) {
            Some(hex) => Ok(hex),
            None => Err(CidError::MissingBlobPrefix),
        }
    }

    /// The digest part of a DAG CID.
    pub fn parse_dag_cid(cid: &str) -> (r: Result<&str, CidError>)
        ensures
            match r {
                Ok(hex) => LOCAL_DAG_PREFIX@.is_prefix_of(cid@) && hex@ == cid@.skip(
                    LOCAL_DAG_PREFIX@.len() as int,
                ),
                Err(e) => !LOCAL_DAG_PREFIX@.is_prefix_of(cid@) && e == CidError::MissingDagPrefix,
            },
    {
        match strip_prefix(cid, LOCAL_DAG_PREFIX) {
            Some(hex) => Ok(hex),
            None => Err(CidError::MissingDagPrefix),
        }
    }

    /// Whether `hex` is 64 bytes of hexadecimal digits.
    pub fn is_digest_hex(hex: &str) -> (r: bool)
        ensures
            r == is_digest_text(hex@),
    {
        if hex.as_bytes().len() != 64 {
            return false;
        }
        let n = hex.unicode_len();
        let mut i: usize = 0;
        while i < n
            invariant
                n == hex@.len(),
                i <= n,
                forall|j: int| 0 <= j < i ==> is_hex_char(#[trigger] hex@[j]),
            decreases n - i,
        {
            let c = hex.get_char(i);
            if !(('0' <= c && c <= '9') || ('a' <= c && c <= 'f') || ('A' <= c && c <= 'F')) {
                return false;
            }
            i = i + 1;
        }
        true
    }

    /// The file name of a blob CID: its digest, when the CID is well formed.
    pub fn checked_blob_hex(cid: &str) -> (r: Result<&str, CidError>)
        ensures
            match r {
                Ok(hex) => LOCAL_BLOB_PREFIX@.is_prefix_of(cid@) && hex@ == cid@.skip(
                    LOCAL_BLOB_PREFIX@.len() as int,
                ) && is_digest_text(hex@),
                Err(CidError::MissingBlobPrefix) => !LOCAL_BLOB_PREFIX@.is_prefix_of(cid@),
                Err(CidError::InvalidBlobHash) => LOCAL_BLOB_PREFIX@.is_prefix_of(cid@) && !is_digest_text(cid@.skip(LOCAL_BLOB_PREFIX@.len() as int)),
                Err(_) => false,
            },
    {
        let hex = Self::parse_blob_cid(cid)?;
        if !Self::is_digest_hex(hex) {
            return Err(CidError::InvalidBlobHash);
        }
        Ok(hex)
    }

    /// The file name of a DAG CID: its digest, when the CID is well formed.
    pub fn checked_dag_hex(cid: &str) -> (r: Result<&str, CidError>)
        ensures
            match r {
                Ok(hex) => LOCAL_DAG_PREFIX@.is_prefix_of(cid@) && hex@ == cid@.skip(
                    LOCAL_DAG_PREFIX@.len() as int,
                ) && is_digest_text(hex@),
                Err(CidError::MissingDagPrefix) => !LOCAL_DAG_PREFIX@.is_prefix_of(cid@),
                Err(CidError::InvalidDagHash) => LOCAL_DAG_PREFIX@.is_prefix_of(cid@) && !is_digest_text(cid@.skip(LOCAL_DAG_PREFIX@.len() as int)),
                Err(_) => false,
            },
    {
        let hex = Self::parse_dag_cid(cid)?;
        if !Self::is_digest_hex(hex) {
            return Err(CidError::InvalidDagHash);
        }
        Ok(hex)
    }

    /// The name of the marker file that pins `cid`.
    pub fn pin_marker_name(cid: &str) -> (name: String)
        ensures
            name@ == pin_marker(cid@),
    {
        let n = cid.unicode_len();
        let mut name = String::new();
        let mut i: usize = 0;
        while i < n
            invariant
                n == cid@.len(),
                i <= n,
                name@ == pin_marker(cid@).take(i as int),
            decreases n - i,
        {
            let c = cid.get_char(i);
            if is_alphanumeric(c) || c == '-' {
                name.append(cid.substring_char(i, i + 1));
            } else {
                name.append("_");
                proof {
                    reveal_strlit("_");
                }
            }
            assert(name@ =~= pin_marker(cid@).take(i + 1));
            i = i + 1;
        }
        assert(pin_marker(cid@).take(n as int) =~= pin_marker(cid@));
        name
    }
}

/// Why an `ipfs` command failed.
#[derive(Debug, Clone, PartialEq, Eq)]
pub enum IpfsCliError {
    /// The command exited unsuccessfully; its trimmed stderr.
    Command(String),
    /// The command printed text that is not UTF-8.
    Utf8,
}

/// The `ipfs` executable used when none is configured.
pub const DEFAULT_IPFS_PROGRAM: &'static str = "ipfs";

/// Store backed by the Kubo `ipfs` command-line tool.
#[derive(Debug, Clone)]
pub struct IpfsCliStore {
    pub program: String,
}

impl IpfsCliStore {
    /// A store that runs `program`.
    pub fn new(program: String) -> (s: Self)
        ensures
            s.program == program,
    {
        IpfsCliStore { program }
    }

    /// The result of a finished command that prints text: its trimmed stdout
    /// on success, else its trimmed stderr.
    pub fn text_output(success: bool, stdout: Vec<u8>, stderr: &[u8]) -> (r: Result<String, IpfsCliError>)
        ensures
            match r {
                Ok(t) => success && vstd::utf8::valid_utf8(stdout@) && t@ == trimmed(vstd::utf8::decode_utf8(stdout@)),
                Err(IpfsCliError::Command(m)) => !success && m@ == trimmed(utf8_lossy(stderr@)),
                Err(IpfsCliError::Utf8) => success && !vstd::utf8::valid_utf8(stdout@),
            },
    {
        if !success {
            let err = decode_lossy(stderr);
            return Err(IpfsCliError::Command(trim(err.as_str()).to_owned()));
        }
        match string_from_utf8(stdout) {
            Some(s) => Ok(trim(s.as_str()).to_owned()),
            None => Err(IpfsCliError::Utf8),
        }
    }

    /// The result of a finished command that prints bytes: its stdout on
    /// success, else its trimmed stderr.
    pub fn bytes_output(success: bool, stdout: Vec<u8>, stderr: &[u8]) -> (r: Result<Vec<u8>, IpfsCliError>)
        ensures
            match r {
                Ok(b) => success && b == stdout,
                Err(IpfsCliError::Command(m)) => !success && m@ == trimmed(utf8_lossy(stderr@)),
                Err(IpfsCliError::Utf8) => false,
            },
    {
        if !success {
            let err = decode_lossy(stderr);
            return Err(IpfsCliError::Command(trim(err.as_str()).to_owned()));
        }
        Ok(stdout)
    }
}

/// A blob CID and a DAG CID of the in-memory store never coincide.
pub proof fn law_memory_blob_and_dag_cids_differ(k: u64, n: u64)
    ensures
        memory_cid(MEMORY_BLOB_PREFIX@, k) != memory_cid(MEMORY_DAG_PREFIX@, n),
{
    reveal_strlit("bafymemb");
    reveal_strlit("bafymemd");
    assert(memory_cid(MEMORY_BLOB_PREFIX@, k)[7] != memory_cid(MEMORY_DAG_PREFIX@, n)[7]);
}

/// Two different calls on one in-memory store return different CIDs, even
/// when they store equal data (with at most `u64::MAX` calls in all).
pub proof fn law_memory_calls_return_distinct_cids(calls: Seq<StoreCall>, i: int, j: int)
    requires
        0 <= i < calls.len(),
        0 <= j < calls.len(),
        i != j,
        calls.len() <= u64::MAX,
    ensures
        returned_cid(calls, i) != returned_cid(calls, j),
{
    let ki = (i + 1) as u64;
    let kj = (j + 1) as u64;
    if returned_cid(calls, i) == returned_cid(calls, j) {
        match calls[i] {
            StoreCall::AddBlob(_) => match calls[j] {
                StoreCall::AddBlob(_) => law_memory_cids_distinct(MEMORY_BLOB_PREFIX@, ki, kj),
                StoreCall::PutDag(_) => law_memory_blob_and_dag_cids_differ(ki, kj),
            },
            StoreCall::PutDag(_) => match calls[j] {
                StoreCall::AddBlob(_) => law_memory_blob_and_dag_cids_differ(kj, ki),
                StoreCall::PutDag(_) => law_memory_cids_distinct(MEMORY_DAG_PREFIX@, ki, kj),
            },
        }
    }
}

/// After any calls on an in-memory store (made from empty), a CID reads as a
/// blob exactly when an `add_blob` call among them returned it, and it then
/// reads as the bytes that call stored, whatever calls came after.
pub proof fn law_memory_blobs_after_calls(calls: Seq<StoreCall>)
    requires
        calls.len() <= u64::MAX,
    ensures
        forall|x: Seq<char>|
            #[trigger] replayed_blobs(calls).contains_key(x) <==> exists|i: int|
                0 <= i < calls.len() && calls[i] is AddBlob && #[trigger] returned_cid(calls, i) == x,
        forall|i: int|
            0 <= i < calls.len() && calls[i] is AddBlob ==> replayed_blobs(calls).contains_key(
                #[trigger] returned_cid(calls, i),
            ) && replayed_blobs(calls)[returned_cid(calls, i)] == calls[i]->AddBlob_0,
    decreases calls.len(),
{
    if calls.len() > 0 {
        let p = calls.drop_last();
        let n = calls.len() - 1;
        law_memory_blobs_after_calls(p);
        assert forall|i: int| 0 <= i < n implies #[trigger] returned_cid(calls, i) == returned_cid(p, i) by {
            assert(calls[i] == p[i]);
        }
        assert forall|i: int| 0 <= i < n implies returned_cid(calls, i) != returned_cid(calls, n) by {
            law_memory_calls_return_distinct_cids(calls, i, n);
        }
        assert forall|x: Seq<char>|
            #[trigger] replayed_blobs(calls).contains_key(x) <==> exists|i: int|
                0 <= i < calls.len() && calls[i] is AddBlob && #[trigger] returned_cid(calls, i) == x by {
            if replayed_blobs(p).contains_key(x) {
                let i = choose|i: int| 0 <= i < p.len() && p[i] is AddBlob && #[trigger] returned_cid(p, i) == x;
                assert(calls[i] == p[i] && returned_cid(calls, i) == x);
            }
            if exists|i: int| 0 <= i < calls.len() && calls[i] is AddBlob && #[trigger] returned_cid(calls, i) == x {
                let i = choose|i: int| 0 <= i < calls.len() && calls[i] is AddBlob && #[trigger] returned_cid(calls, i) == x;
                if i < n {
                    assert(p[i] == calls[i] && returned_cid(p, i) == x);
                }
            }
        }
        assert forall|i: int|
            0 <= i < calls.len() && calls[i] is AddBlob implies replayed_blobs(calls).contains_key(
                #[trigger] returned_cid(calls, i),
            ) && replayed_blobs(calls)[returned_cid(calls, i)] == calls[i]->AddBlob_0 by {
            if i < n {
                assert(p[i] == calls[i]);
                assert(returned_cid(p, i) == returned_cid(calls, i));
            }
        }
    }
}

/// After any calls on an in-memory store (made from empty), a CID reads as a
/// DAG node exactly when a `dag_put_json` call among them returned it, and it
/// then reads as the node that call stored, whatever calls came after.
pub proof fn law_memory_dags_after_calls(calls: Seq<StoreCall>)
    requires
        calls.len() <= u64::MAX,
    ensures
        forall|x: Seq<char>|
            #[trigger] replayed_dags(calls).contains_key(x) <==> exists|i: int|
                0 <= i < calls.len() && calls[i] is PutDag && #[trigger] returned_cid(calls, i) == x,
        forall|i: int|
            0 <= i < calls.len() && calls[i] is PutDag ==> replayed_dags(calls).contains_key(
                #[trigger] returned_cid(calls, i),
            ) && replayed_dags(calls)[returned_cid(calls, i)] == calls[i]->PutDag_0,
    decreases calls.len(),
{
    if calls.len() > 0 {
        let p = calls.drop_last();
        let n = calls.len() - 1;
        law_memory_dags_after_calls(p);
        assert forall|i: int| 0 <= i < n implies #[trigger] returned_cid(calls, i) == returned_cid(p, i) by {
            assert(calls[i] == p[i]);
        }
        assert forall|i: int| 0 <= i < n implies returned_cid(calls, i) != returned_cid(calls, n) by {
            law_memory_calls_return_distinct_cids(calls, i, n);
        }
        assert forall|x: Seq<char>|
            #[trigger] replayed_dags(calls).contains_key(x) <==> exists|i: int|
                0 <= i < calls.len() && calls[i] is PutDag && #[trigger] returned_cid(calls, i) == x by {
            if replayed_dags(p).contains_key(x) {
                let i = choose|i: int| 0 <= i < p.len() && p[i] is PutDag && #[trigger] returned_cid(p, i) == x;
                assert(calls[i] == p[i] && returned_cid(calls, i) == x);
            }
            if exists|i: int| 0 <= i < calls.len() && calls[i] is PutDag && #[trigger] returned_cid(calls, i) == x {
                let i = choose|i: int| 0 <= i < calls.len() && calls[i] is PutDag && #[trigger] returned_cid(calls, i) == x;
                if i < n {
                    assert(p[i] == calls[i] && returned_cid(p, i) == x);
                }
            }
        }
        assert forall|i: int|
            0 <= i < calls.len() && calls[i] is PutDag implies replayed_dags(calls).contains_key(
                #[trigger] returned_cid(calls, i),
            ) && replayed_dags(calls)[returned_cid(calls, i)] == calls[i]->PutDag_0 by {
            if i < n {
                assert(p[i] == calls[i]);
                assert(returned_cid(p, i) == returned_cid(calls, i));
            }
        }
    }
}

/// Reading back a blob just stored in the in-memory store gives that blob;
/// every other CID reads as before.
pub proof fn law_memory_blob_read_after_write(
    before: MemoryStore,
    after: MemoryStore,
    cid: Seq<char>,
    data: Seq<u8>,
)
    requires
        after.blobs() == before.blobs().insert(cid, data),
    ensures
        after.blobs().contains_key(cid),
        after.blobs()[cid] == data,
        forall|k: Seq<char>|
            k != cid ==> (#[trigger] after.blobs().contains_key(k) == before.blobs().contains_key(k)),
        forall|k: Seq<char>|
            k != cid && before.blobs().contains_key(k) ==> #[trigger] after.blobs()[k] == before.blobs()[k],
{
}

/// Reading back a DAG node just stored in the in-memory store gives that
/// node; every other CID reads as before.
pub proof fn law_memory_dag_read_after_write(
    before: MemoryStore,
    after: MemoryStore,
    cid: Seq<char>,
    value: serde_json::Value,
)
    requires
        after.dags() == before.dags().insert(cid, value),
    ensures
        after.dags().contains_key(cid),
        after.dags()[cid] == value,
        forall|k: Seq<char>|
            k != cid ==> (#[trigger] after.dags().contains_key(k) == before.dags().contains_key(k)),
        forall|k: Seq<char>|
            k != cid && before.dags().contains_key(k) ==> #[trigger] after.dags()[k] == before.dags()[k],
{
}

/// A CID made of the blob prefix and a digest text is accepted by
/// `checked_blob_hex`, which gives back that digest text.
pub proof fn law_local_blob_cid_parts(hex: Seq<char>)
    ensures
        LOCAL_BLOB_PREFIX@.is_prefix_of(LOCAL_BLOB_PREFIX@ + hex),
        (LOCAL_BLOB_PREFIX@ + hex).skip(LOCAL_BLOB_PREFIX@.len() as int) == hex,
        LOCAL_DAG_PREFIX@.is_prefix_of(LOCAL_DAG_PREFIX@ + hex),
        (LOCAL_DAG_PREFIX@ + hex).skip(LOCAL_DAG_PREFIX@.len() as int) == hex,
{
    assert((LOCAL_BLOB_PREFIX@ + hex).subrange(0, LOCAL_BLOB_PREFIX@.len() as int) =~= LOCAL_BLOB_PREFIX@);
    assert((LOCAL_BLOB_PREFIX@ + hex).skip(LOCAL_BLOB_PREFIX@.len() as int) =~= hex);
    assert((LOCAL_DAG_PREFIX@ + hex).subrange(0, LOCAL_DAG_PREFIX@.len() as int) =~= LOCAL_DAG_PREFIX@);
    assert((LOCAL_DAG_PREFIX@ + hex).skip(LOCAL_DAG_PREFIX@.len() as int) =~= hex);
}

/// A pin marker name has one character per character of the CID: an ASCII
/// letter or digit, `-`, `_`, or a non-ASCII alphanumeric character; so it
/// holds no path separator and no `.`. Kept characters stay in place.
pub proof fn law_pin_marker_characters(cid: Seq<char>)
    ensures
        pin_marker(cid).len() == cid.len(),
        forall|i: int|
            0 <= i < cid.len() ==> {
                let c = #[trigger] pin_marker(cid)[i];
                ||| ('0' <= c && c <= '9') || ('a' <= c && c <= 'z') || ('A' <= c && c <= 'Z')
                ||| c == '-' || c == '_'
                ||| (c as u32) >= 128 && char_is_alphanumeric(c)
            },
        forall|i: int|
            0 <= i < cid.len() ==> #[trigger] pin_marker(cid)[i] != '/' && pin_marker(cid)[i] != '\\'
                && pin_marker(cid)[i] != '.',
        forall|i: int|
            0 <= i < cid.len() && marker_keeps(cid[i]) ==> #[trigger] pin_marker(cid)[i] == cid[i],
{
}

} // verus!
