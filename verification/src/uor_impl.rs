//! Content addresses and trace metrics in the shape of the UOR address and
//! trace-metrics records.

use vstd::prelude::*;
use vstd::string::StrSliceExecFns;

verus! {

/// The fields of a [`CidAddress`].
pub struct CidAddressView {
    pub glyph: Seq<char>,
    pub addresses: Seq<char>,
    pub digest: Seq<char>,
    pub digest_algorithm: Seq<char>,
    pub canonical_bytes: Seq<char>,
    pub quantum: u64,
}

/// An IPFS CID seen as a UOR address: the glyph and the addressed text are
/// both the CID itself.
#[derive(Debug, Clone)]
pub struct CidAddress {
    glyph: String,
    addresses: String,
    digest: String,
    digest_algorithm: String,
    canonical_bytes_b64: String,
    quantum: u64,
}

impl View for CidAddress {
    type V = CidAddressView;

    closed spec fn view(&self) -> CidAddressView {
        CidAddressView {
            glyph: self.glyph@,
            addresses: self.addresses@,
            digest: self.digest@,
            digest_algorithm: self.digest_algorithm@,
            canonical_bytes: self.canonical_bytes_b64@,
            quantum: self.quantum,
        }
    }
}

impl CidAddress {
    /// The address of a CID: glyph, addressed text and digest are the CID,
    /// the digest algorithm is `cidv1`, no canonical bytes, quantum 8.
    pub fn from_cid(cid: &str) -> (a: Self)
        ensures
            a@.glyph == cid@,
            a@.addresses == cid@,
            a@.digest == cid@,
            a@.digest_algorithm == "cidv1"@,
            a@.canonical_bytes == Seq::<char>::empty(),
            a@.quantum == 8,
    {
        CidAddress {
            glyph: cid.to_owned(),
            addresses: cid.to_owned(),
            digest: cid.to_owned(),
            digest_algorithm: "cidv1".to_owned(),
            canonical_bytes_b64: String::new(),
            quantum: 8,
        }
    }

    /// The CID (the glyph).
    pub fn cid(&self) -> (c: &str)
        ensures
            c@ == self@.glyph,
    {
        self.glyph.as_str()
    }

    /// The address of a CID whose digest, digest algorithm, canonical bytes
    /// (base64) and quantum are given.
    pub fn with_canonical_digest(
        cid: &str,
        digest_algorithm: &str,
        digest_hex: &str,
        canonical_bytes_b64: &str,
        quantum: u64,
    ) -> (a: Self)
        ensures
            a@.glyph == cid@,
            a@.addresses == cid@,
            a@.digest == digest_hex@,
            a@.digest_algorithm == digest_algorithm@,
            a@.canonical_bytes == canonical_bytes_b64@,
            a@.quantum == quantum,
    {
        CidAddress {
            glyph: cid.to_owned(),
            addresses: cid.to_owned(),
            digest: digest_hex.to_owned(),
            digest_algorithm: digest_algorithm.to_owned(),
            canonical_bytes_b64: canonical_bytes_b64.to_owned(),
            quantum,
        }
    }

    /// The glyph.
    pub fn glyph(&self) -> (g: &String)
        ensures
            g@ == self@.glyph,
    {
        &self.glyph
    }

    /// Number of characters of the glyph.
    pub fn length(&self) -> (n: u64)
        ensures
            n == self@.glyph.len(),
    {
        self.glyph.as_str().unicode_len() as u64
    }

    /// The addressed text.
    pub fn addresses(&self) -> (t: &String)
        ensures
            t@ == self@.addresses,
    {
        &self.addresses
    }

    /// The digest.
    pub fn digest(&self) -> (t: &String)
        ensures
            t@ == self@.digest,
    {
        &self.digest
    }

    /// The digest algorithm.
    pub fn digest_algorithm(&self) -> (t: &String)
        ensures
            t@ == self@.digest_algorithm,
    {
        &self.digest_algorithm
    }

    /// The canonical bytes, base64-encoded.
    pub fn canonical_bytes(&self) -> (t: &String)
        ensures
            t@ == self@.canonical_bytes,
    {
        &self.canonical_bytes_b64
    }

    /// The quantum.
    pub fn quantum(&self) -> (q: u64)
        ensures
            q == self@.quantum,
    {
        self.quantum
    }
}

/// Metrics of a guest run (I/O volume stands for the ring and Hamming distances).
#[derive(Debug, Clone, Copy, PartialEq, Eq)]
pub struct SandboxTraceMetrics {
    pub step_count: u64,
    pub total_ring_distance: u64,
    pub total_hamming_distance: u64,
}

} // verus!
