//! SHA-256 digests of content read in pieces: how many bytes were read, when
//! a read goes past the size the content should have, and when the content
//! came out at that size.
use vstd::prelude::*;
use crate::digest::{hasher_finish, hasher_new, hasher_update, sha256_digest, ContentHasher};
use crate::text::{hex_bytes, hex_spec};

verus! {

/// Content being read and hashed: the bytes it should hold, how many were
/// read so far, and the hasher that absorbed exactly those bytes.
pub struct ContentStream {
    pub hasher: ContentHasher,
    pub total: u64,
    pub expected: u64,
}

/// Whether the bytes counted are the bytes absorbed.
pub open spec fn stream_well_formed(s: ContentStream) -> bool {
    s.hasher.absorbed@.len() == s.total && s.total <= s.expected
}

/// A stream of content that should hold `expected` bytes, nothing read yet.
pub fn begin_stream(expected: u64) -> (s: ContentStream)
    ensures
        stream_well_formed(s),
        s.total == 0,
        s.expected == expected,
        s.hasher.absorbed@ == Seq::<u8>::empty(),
{
    ContentStream { hasher: hasher_new(), total: 0, expected }
}

/// Absorbs the next piece read, unless it would take the content past the
/// bytes it should hold: then nothing changes and the result is `false`, the
/// content having grown while it was read.
pub fn absorb_chunk(s: &mut ContentStream, chunk: &[u8]) -> (absorbed: bool)
    requires
        stream_well_formed(*old(s)),
    ensures
        stream_well_formed(*final(s)),
        final(s).expected == old(s).expected,
        absorbed == (old(s).total + chunk@.len() <= old(s).expected),
        absorbed ==> final(s).total == old(s).total + chunk@.len()
            && final(s).hasher.absorbed@ == old(s).hasher.absorbed@ + chunk@,
        !absorbed ==> final(s).total == old(s).total && final(s).hasher.absorbed@ == old(s).hasher.absorbed@,
{
    let room = s.expected - s.total;
    if chunk.len() as u64 > room {
        return false;
    }
    hasher_update(&mut s.hasher, chunk);
    s.total = s.total + chunk.len() as u64;
    true
}

/// The digest of content read in full: `None` when fewer bytes were read
/// than it should hold, the content having shrunk while it was read.
pub fn finish_stream(s: ContentStream) -> (r: Option<Vec<u8>>)
    requires
        stream_well_formed(s),
    ensures
        r is Some <==> s.total == s.expected,
        r matches Some(digest) ==> digest@ == sha256_digest(s.hasher.absorbed@) && digest@.len() == 32,
{
    if s.total != s.expected {
        return None;
    }
    Some(hasher_finish(s.hasher))
}

/// The digest of all content read, whatever its size, with the number of
/// bytes read.
pub fn stream_digest(s: ContentStream) -> (r: (u64, Vec<u8>))
    requires
        stream_well_formed(s),
    ensures
        r.0 == s.total,
        r.1@ == sha256_digest(s.hasher.absorbed@),
        r.1@.len() == 32,
{
    let total = s.total;
    (total, hasher_finish(s.hasher))
}

/// A digest as lower-case hexadecimal, two digits per byte.
pub fn digest_text(digest: &Vec<u8>) -> (r: String)
    ensures
        r@ == hex_spec(digest@),
{
    hex_bytes(digest.as_slice())
}

} // verus!
