//! Content digests of duplicate candidates: when a candidate may be read,
//! what a sample digest covers, and when a digest still describes the file
//! the scan found.
use vstd::prelude::*;
use crate::digest::{sha256, sha256_digest};
use crate::large_delete::LargeFileFacts;
use crate::scanner::collect::{is_strictly_inside, strictly_inside};
use crate::scanner::FileIdentity;
use crate::storage::FileCandidate;

verus! {

/// The bytes a sample digest starts with: `QINGPAN-SAMPLE-V1` and a NUL.
pub open spec fn sample_domain() -> Seq<u8> {
    seq![0x51u8, 0x49, 0x4e, 0x47, 0x50, 0x41, 0x4e, 0x2d, 0x53, 0x41, 0x4d, 0x50, 0x4c, 0x45, 0x2d, 0x56, 0x31, 0x00]
}

/// The eight little-endian bytes of a size.
pub open spec fn le_bytes(value: u64) -> Seq<u8> {
    Seq::new(8, |i: int| ((value >> (8 * i) as u64) & 0xff) as u8)
}

/// What a sample digest reads of a file: all of it when it is at most two
/// samples long, else one sample from its head and one from its tail.
#[derive(Clone, Copy, Debug, PartialEq, Eq, Structural)]
pub enum SampleReads {
    Whole(usize),
    HeadAndTail(usize),
}

/// What to read for the sample digest of a file of `size` bytes, or `None`
/// where the whole file is to be read but its size does not fit in memory.
pub open spec fn sample_reads_spec(size: u64, sample_bytes: usize) -> Option<SampleReads> {
    let twice: int = if sample_bytes * 2 > usize::MAX { usize::MAX as int } else { sample_bytes * 2 };
    if size <= twice {
        if size > usize::MAX {
            None
        } else {
            Some(SampleReads::Whole(size as usize))
        }
    } else {
        Some(SampleReads::HeadAndTail(sample_bytes))
    }
}

/// Decides what the sample digest of a file reads.
pub fn sample_reads(size: u64, sample_bytes: usize) -> (r: Option<SampleReads>)
    ensures
        r == sample_reads_spec(size, sample_bytes),
{
    let twice: usize = if sample_bytes > usize::MAX / 2 { usize::MAX } else { sample_bytes * 2 };
    if size <= twice as u64 {
        if size > usize::MAX as u64 {
            None
        } else {
            Some(SampleReads::Whole(size as usize))
        }
    } else {
        Some(SampleReads::HeadAndTail(sample_bytes))
    }
}

/// The sample digest of a file of `size` bytes from what was read of it: the
/// SHA-256 of the domain bytes, the size in little-endian, and the bytes read
/// (all of them, or head then tail).
pub fn sample_digest(size: u64, head: &[u8], tail: &[u8]) -> (r: Vec<u8>)
    ensures
        r@ == sha256_digest(sample_domain() + le_bytes(size) + head@ + tail@),
{
    let mut data: Vec<u8> = Vec::new();
    let domain: [u8; 18] = [0x51u8, 0x49, 0x4e, 0x47, 0x50, 0x41, 0x4e, 0x2d, 0x53, 0x41, 0x4d, 0x50, 0x4c, 0x45, 0x2d, 0x56, 0x31, 0x00];
    let mut i: usize = 0;
    while i < 18
        invariant
            0 <= i <= 18,
            domain@ == sample_domain(),
            data@ == sample_domain().take(i as int),
        decreases 18 - i,
    {
        data.push(domain[i]);
        assert(sample_domain().take(i + 1) =~= sample_domain().take(i as int).push(sample_domain()[i as int]));
        i = i + 1;
    }
    assert(sample_domain().take(18) =~= sample_domain());
    let mut k: u64 = 0;
    while k < 8
        invariant
            0 <= k <= 8,
            data@ == sample_domain() + le_bytes(size).take(k as int),
        decreases 8 - k,
    {
        data.push(((size >> (8 * k)) & 0xff) as u8);
        assert(le_bytes(size).take(k + 1) =~= le_bytes(size).take(k as int).push(le_bytes(size)[k as int]));
        k = k + 1;
    }
    assert(le_bytes(size).take(8) =~= le_bytes(size));
    let mut j: usize = 0;
    let ghost prefix = data@;
    while j < head.len()
        invariant
            0 <= j <= head@.len(),
            data@ == prefix + head@.take(j as int),
        decreases head@.len() - j,
    {
        data.push(head[j]);
        assert(head@.take(j + 1) =~= head@.take(j as int).push(head@[j as int]));
        j = j + 1;
    }
    assert(head@.take(head@.len() as int) =~= head@);
    let ghost with_head = data@;
    let mut t: usize = 0;
    while t < tail.len()
        invariant
            0 <= t <= tail@.len(),
            data@ == with_head + tail@.take(t as int),
        decreases tail@.len() - t,
    {
        data.push(tail[t]);
        assert(tail@.take(t + 1) =~= tail@.take(t as int).push(tail@[t as int]));
        t = t + 1;
    }
    assert(tail@.take(tail@.len() as int) =~= tail@);
    assert(data@ =~= sample_domain() + le_bytes(size) + head@ + tail@);
    sha256(data.as_slice())
}

/// What is read of a duplicate candidate before its content is hashed: its
/// metadata, its resolved path's components, whether it has only the
/// default data stream, and through a handle whether it is a file and its
/// size, and its identity (`None`: could not be read or told).
#[derive(Debug)]
pub struct HashOpenFacts {
    pub metadata: Option<LargeFileFacts>,
    pub canonical_components: Option<Vec<String>>,
    pub only_default_stream: Option<bool>,
    pub handle: Option<(bool, u64)>,
    pub identity: Option<FileIdentity>,
}

/// Whether a candidate may be hashed: still a plain file with the scanned
/// size and modification time, resolving strictly inside the scan root,
/// with only the default data stream, the same size through a handle, and
/// the identity the scan recorded.
pub open spec fn may_hash(candidate: FileCandidate, root_components: Seq<String>, seen: HashOpenFacts) -> bool {
    &&& seen.metadata matches Some(m) && m.is_file && !m.is_link_or_reparse && !m.is_offline_or_recall
        && m.size == candidate.size_bytes && m.modified_unix_nanos == candidate.modified_unix_nanos
    &&& seen.canonical_components matches Some(c) && strictly_inside(root_components, c@)
    &&& seen.only_default_stream == Some(true)
    &&& seen.handle matches Some(h) && h.0 && h.1 == candidate.size_bytes
    &&& seen.identity matches Some(id) && candidate.identity == Some(id)
}

/// Decides whether a candidate may be hashed.
pub fn check_hash_candidate(candidate: &FileCandidate, root_components: &Vec<String>, seen: &HashOpenFacts) -> (r: bool)
    ensures
        r == may_hash(*candidate, root_components@, *seen),
{
    let metadata_ok = match &seen.metadata {
        Some(m) => m.is_file && !m.is_link_or_reparse && !m.is_offline_or_recall && m.size == candidate.size_bytes
            && m.modified_unix_nanos == candidate.modified_unix_nanos,
        None => false,
    };
    let inside = match &seen.canonical_components {
        Some(c) => is_strictly_inside(root_components, c),
        None => false,
    };
    let handle_ok = match seen.handle {
        Some((is_file, size)) => is_file && size == candidate.size_bytes,
        None => false,
    };
    let identity_ok = match seen.identity {
        Some(id) => candidate.identity == Some(id),
        None => false,
    };
    metadata_ok && inside && seen.only_default_stream == Some(true) && handle_ok && identity_ok
}

/// Whether a digest still describes the candidate: the whole size was read
/// (where the whole content was read), the handle still shows the scanned
/// size and the size and modification time seen before reading, and the
/// file has only the default data stream.
pub open spec fn digest_stands(
    candidate: FileCandidate,
    read_bytes: Option<u64>,
    before: (u64, Option<i128>),
    after: Option<(u64, Option<i128>)>,
    only_default_stream: Option<bool>,
) -> bool {
    &&& (read_bytes matches Some(n) ==> n == candidate.size_bytes)
    &&& after matches Some(a) && a.0 == candidate.size_bytes && before.0 == a.0 && before.1 == a.1
    &&& only_default_stream == Some(true)
}

/// Decides whether a digest still describes the candidate once it is read.
pub fn check_after_hash(
    candidate: &FileCandidate,
    read_bytes: Option<u64>,
    before: (u64, Option<i128>),
    after: Option<(u64, Option<i128>)>,
    only_default_stream: Option<bool>,
) -> (r: bool)
    ensures
        r == digest_stands(*candidate, read_bytes, before, after, only_default_stream),
{
    let read_ok = match read_bytes {
        Some(n) => n == candidate.size_bytes,
        None => true,
    };
    let after_ok = match after {
        Some((size, modified)) => size == candidate.size_bytes && before.0 == size && before.1 == modified,
        None => false,
    };
    read_ok && after_ok && only_default_stream == Some(true)
}

} // verus!
