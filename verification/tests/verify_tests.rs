use treehash::algorithm::HashAlgorithm;
use treehash::digest::digest_bytes;
use treehash::manifest::ChecksumEntry;
use treehash::verify::{
    judge_hash, plan_entry, summarize, verification_ok, FailReason, MtimeProbe, VerifyOutcome,
    VerifySummary,
};

fn entry_for(path: &str, bytes: &[u8], alg: HashAlgorithm) -> ChecksumEntry {
    ChecksumEntry::new(path.to_owned(), digest_bytes(alg, bytes), None)
}

#[test]
fn round_trip_verifies_clean() {
    let bytes = b"Same content";
    let mut outcomes: Vec<VerifyOutcome> = Vec::new();
    for alg in [
        HashAlgorithm::Sha256,
        HashAlgorithm::Md5,
        HashAlgorithm::Crc32,
        HashAlgorithm::Blake2,
        HashAlgorithm::Xxh3,
    ] {
        let entry = entry_for("test.txt", bytes, alg);
        let planned = plan_entry(&entry, false, true, MtimeProbe::Unreadable);
        assert!(planned.is_none());
        outcomes.push(judge_hash(&entry, Some(digest_bytes(alg, bytes))));
    }
    for o in &outcomes {
        assert!(matches!(o, VerifyOutcome::Passed));
    }
    let s = summarize(&outcomes);
    assert_eq!(s.failed, 0);
    assert_eq!(s.skipped, 0);
    assert_eq!(s.passed, outcomes.len());
    assert!(verification_ok(&s));
}

#[test]
fn tampered_file_fails_with_both_digests() {
    let alg = HashAlgorithm::Sha256;
    let entry = entry_for("test.txt", b"Original content", alg);
    let recomputed = digest_bytes(alg, b"Different content");
    let outcome = judge_hash(&entry, Some(recomputed.clone()));
    match outcome {
        VerifyOutcome::Failed(FailReason::Mismatch { expected, actual }) => {
            assert_eq!(expected, digest_bytes(alg, b"Original content"));
            assert_eq!(actual, recomputed);
        },
        _ => panic!("expected a mismatch failure"),
    }
}

#[test]
fn skip_newer_skips_strictly_newer_target() {
    let entry = ChecksumEntry::new(
        "test.txt".to_owned(),
        digest_bytes(HashAlgorithm::Sha256, b"Original content"),
        Some((100, 16)),
    );
    let planned = plan_entry(&entry, true, true, MtimeProbe::Known(101));
    assert!(matches!(planned, Some(VerifyOutcome::Skipped)));
}

#[test]
fn skip_newer_still_checks_equal_or_older_target() {
    let entry = ChecksumEntry::new("t".to_owned(), "h".to_owned(), Some((100, 1)));
    assert!(plan_entry(&entry, true, true, MtimeProbe::Known(100)).is_none());
    assert!(plan_entry(&entry, true, true, MtimeProbe::Known(99)).is_none());
    // Without the policy, a newer target is still digested.
    assert!(plan_entry(&entry, false, true, MtimeProbe::Known(101)).is_none());
    // Without recorded metadata there is nothing to compare against.
    let bare = ChecksumEntry::new("t".to_owned(), "h".to_owned(), None);
    assert!(plan_entry(&bare, true, true, MtimeProbe::Known(101)).is_none());
}

#[test]
fn missing_file_fails() {
    let entry = ChecksumEntry::new("gone".to_owned(), "h".to_owned(), None);
    let planned = plan_entry(&entry, false, false, MtimeProbe::Unreadable);
    assert!(matches!(planned, Some(VerifyOutcome::Failed(FailReason::NotFound))));
}

#[test]
fn unreadable_metadata_fails_under_skip_newer() {
    let entry = ChecksumEntry::new("t".to_owned(), "h".to_owned(), Some((100, 1)));
    let planned = plan_entry(&entry, true, true, MtimeProbe::Unreadable);
    assert!(matches!(planned, Some(VerifyOutcome::Failed(FailReason::MetadataUnreadable))));
}

#[test]
fn unreadable_target_fails_hashing() {
    let entry = ChecksumEntry::new("t".to_owned(), "h".to_owned(), None);
    let outcome = judge_hash(&entry, None);
    assert!(matches!(outcome, VerifyOutcome::Failed(FailReason::HashUnreadable)));
}

#[test]
fn failure_signal_iff_any_failed() {
    let mixed = vec![
        VerifyOutcome::Passed,
        VerifyOutcome::Failed(FailReason::NotFound),
        VerifyOutcome::Skipped,
    ];
    let s = summarize(&mixed);
    assert_eq!((s.passed, s.failed, s.skipped), (1, 1, 1));
    assert!(!verification_ok(&s));

    let clean = vec![VerifyOutcome::Passed, VerifyOutcome::Skipped, VerifyOutcome::Skipped];
    let s2 = summarize(&clean);
    assert_eq!((s2.passed, s2.failed, s2.skipped), (1, 0, 2));
    assert!(verification_ok(&s2));

    let empty = summarize(&Vec::new());
    assert_eq!(empty, VerifySummary { passed: 0, failed: 0, skipped: 0 });
    assert!(verification_ok(&empty));
}
