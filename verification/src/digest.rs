use vstd::prelude::*;
use sha2::{Digest, Sha256};

verus! {

/// The SHA-256 digest of a byte sequence.
pub uninterp spec fn sha256_digest(data: Seq<u8>) -> Seq<u8>;

/// `Sha256::digest` from the sha2 crate: the 32-byte SHA-256 digest of `data`.
#[verifier::external_body]
pub(crate) fn sha256(data: &[u8]) -> (digest: Vec<u8>)
    ensures
        digest@ == sha256_digest(data@),
        digest@.len() == 32,
{
    Sha256::digest(data).to_vec()
}

/// The incremental SHA-256 state of the sha2 crate (`Sha256`), held opaque:
/// that type is an alias of nested generic wrappers whose declaration Verus
/// refuses, and nothing here reads inside it.
#[verifier::external_body]
pub struct Sha256State {
    inner: Sha256,
}

/// A SHA-256 computation over bytes fed in pieces; `absorbed` is every byte
/// fed so far, in order.
pub struct ContentHasher {
    pub state: Sha256State,
    pub absorbed: Ghost<Seq<u8>>,
}

/// `Sha256::new` from the sha2 crate: a hasher that has absorbed nothing.
#[verifier::external_body]
pub fn hasher_new() -> (h: ContentHasher)
    ensures
        h.absorbed@ == Seq::<u8>::empty(),
{
    ContentHasher { state: Sha256State { inner: Sha256::new() }, absorbed: Ghost(Seq::empty()) }
}

/// `Digest::update` from the sha2 crate: `chunk` is absorbed after what came
/// before.
#[verifier::external_body]
pub fn hasher_update(h: &mut ContentHasher, chunk: &[u8])
    ensures
        final(h).absorbed@ == old(h).absorbed@ + chunk@,
{
    h.state.inner.update(chunk);
}

/// `Digest::finalize` from the sha2 crate: the 32-byte SHA-256 digest of
/// everything absorbed, the same as that of the bytes in one piece.
#[verifier::external_body]
pub fn hasher_finish(h: ContentHasher) -> (digest: Vec<u8>)
    ensures
        digest@ == sha256_digest(h.absorbed@),
        digest@.len() == 32,
{
    h.state.inner.finalize().to_vec()
}

} // verus!
