use qingpan::content_hash::{check_after_hash, check_hash_candidate, sample_digest, sample_reads, HashOpenFacts, SampleReads};
use qingpan::large_delete::LargeFileFacts;
use qingpan::scanner::FileIdentity;
use qingpan::storage::FileCandidate;
use sha2::{Digest, Sha256};

fn parts(path: &str) -> Vec<String> {
    path.split('/').filter(|p| !p.is_empty()).map(|p| p.to_string()).collect()
}

fn candidate() -> FileCandidate {
    FileCandidate {
        path: "/scan/a.bin".into(),
        size_bytes: 100,
        modified_secs: Some(1),
        modified_unix_nanos: Some(1_000_000_123),
        identity: Some(FileIdentity { volume: 2, index: 3 }),
        components: parts("/scan/a.bin"),
    }
}

fn open_facts() -> HashOpenFacts {
    HashOpenFacts {
        metadata: Some(LargeFileFacts { is_file: true, is_link_or_reparse: false, is_offline_or_recall: false, size: 100, modified_unix_nanos: Some(1_000_000_123) }),
        canonical_components: Some(parts("/scan/a.bin")),
        only_default_stream: Some(true),
        handle: Some((true, 100)),
        identity: Some(FileIdentity { volume: 2, index: 3 }),
    }
}

#[test]
fn sample_reads_cover_small_files_whole() {
    assert_eq!(sample_reads(100, 64), Some(SampleReads::Whole(100)));
    assert_eq!(sample_reads(128, 64), Some(SampleReads::Whole(128)));
    assert_eq!(sample_reads(129, 64), Some(SampleReads::HeadAndTail(64)));
    assert_eq!(sample_reads(u64::MAX, 1), Some(SampleReads::HeadAndTail(1)));
}

#[test]
fn sample_digests_bind_the_domain_and_the_size() {
    let mut expected = Sha256::new();
    expected.update(b"QINGPAN-SAMPLE-V1\0");
    expected.update(300u64.to_le_bytes());
    expected.update(b"head");
    expected.update(b"tail");
    assert_eq!(sample_digest(300, b"head", b"tail"), expected.finalize().to_vec());
    assert_ne!(sample_digest(301, b"head", b"tail"), sample_digest(300, b"head", b"tail"));
    assert_eq!(sample_digest(4, b"data", b"").len(), 32);
}

#[test]
fn only_unchanged_candidates_are_hashed() {
    let root = parts("/scan");
    assert!(check_hash_candidate(&candidate(), &root, &open_facts()));
    let mut moved = open_facts();
    moved.canonical_components = Some(parts("/elsewhere/a.bin"));
    assert!(!check_hash_candidate(&candidate(), &root, &moved));
    let mut touched = open_facts();
    touched.metadata.as_mut().unwrap().modified_unix_nanos = Some(1_000_000_124);
    assert!(!check_hash_candidate(&candidate(), &root, &touched));
    let mut swapped = open_facts();
    swapped.identity = Some(FileIdentity { volume: 2, index: 4 });
    assert!(!check_hash_candidate(&candidate(), &root, &swapped));
    let mut streams = open_facts();
    streams.only_default_stream = None;
    assert!(!check_hash_candidate(&candidate(), &root, &streams));
}

#[test]
fn digests_stand_only_for_unchanged_files() {
    let c = candidate();
    let before = (100, Some(1_000_000_123));
    assert!(check_after_hash(&c, Some(100), before, Some((100, Some(1_000_000_123))), Some(true)));
    assert!(check_after_hash(&c, None, before, Some((100, Some(1_000_000_123))), Some(true)));
    assert!(!check_after_hash(&c, Some(99), before, Some((100, Some(1_000_000_123))), Some(true)));
    assert!(!check_after_hash(&c, None, before, Some((100, Some(5))), Some(true)));
    assert!(!check_after_hash(&c, None, before, None, Some(true)));
    assert!(!check_after_hash(&c, None, before, Some((100, Some(1_000_000_123))), Some(false)));
}
