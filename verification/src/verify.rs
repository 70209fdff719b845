//! Verification of a manifest against a live tree: the per-entry
//! classification policy and the aggregate summary.
//!
//! Each entry is classified independently. The caller probes the filesystem
//! (does the target exist, what is its modification time, what digest do its
//! bytes have now) and hands those observations in as plain values; the
//! functions here decide the outcome. A run as a whole fails exactly when at
//! least one entry failed; skipped entries are not failures.

use crate::algorithm::HashAlgorithm;
use crate::digest::digest_of;
use crate::manifest::ChecksumEntry;
use vstd::prelude::*;

verus! {

/// Why an entry failed verification.
pub enum FailReason {
    /// The target file does not exist.
    NotFound,
    /// The skip-newer policy needed the target's modification time and no
    /// usable one could be read.
    MetadataUnreadable,
    /// The target's bytes could not be read for digesting.
    HashUnreadable,
    /// The recomputed digest differs from the recorded one; both are carried
    /// so the report can show them.
    Mismatch { expected: String, actual: String },
}

/// The outcome of verifying one manifest entry.
pub enum VerifyOutcome {
    Passed,
    Failed(FailReason),
    Skipped,
}

/// What the caller learned when probing the target's modification time.
#[derive(Debug, Clone, Copy, PartialEq, Eq, Structural)]
pub enum MtimeProbe {
    /// No usable modification time could be read for the target: the
    /// metadata read failed, or it carried no modification time.
    Unreadable,
    /// Modification time in seconds since the epoch.
    Known(u64),
}

/// The mathematical shape of an outcome: what it is, and for a mismatch,
/// which digest strings it carries.
pub enum OutcomeModel {
    Passed,
    Skipped,
    FailedNotFound,
    FailedMetadataUnreadable,
    FailedHashUnreadable,
    FailedMismatch(Seq<char>, Seq<char>),
}

impl VerifyOutcome {
    pub open spec fn model(self) -> OutcomeModel {
        match self {
            VerifyOutcome::Passed => OutcomeModel::Passed,
            VerifyOutcome::Skipped => OutcomeModel::Skipped,
            VerifyOutcome::Failed(FailReason::NotFound) => OutcomeModel::FailedNotFound,
            VerifyOutcome::Failed(FailReason::MetadataUnreadable)
                => OutcomeModel::FailedMetadataUnreadable,
            VerifyOutcome::Failed(FailReason::HashUnreadable)
                => OutcomeModel::FailedHashUnreadable,
            VerifyOutcome::Failed(FailReason::Mismatch { expected, actual })
                => OutcomeModel::FailedMismatch(expected@, actual@),
        }
    }

    pub open spec fn is_failed(self) -> bool {
        self matches VerifyOutcome::Failed(_)
    }
}

/// The decision that can be made before digesting the target: a failure
/// because the file is missing or its metadata is unreadable, or a skip
/// under the skip-newer policy. `None` means the entry must be digested.
pub open spec fn plan_model(
    recorded_modified: Option<u64>,
    skip_newer: bool,
    exists: bool,
    mtime: MtimeProbe,
) -> Option<OutcomeModel> {
    if !exists {
        Some(OutcomeModel::FailedNotFound)
    } else if skip_newer && recorded_modified is Some {
        match mtime {
            MtimeProbe::Unreadable => Some(OutcomeModel::FailedMetadataUnreadable),
            MtimeProbe::Known(t) => if t > recorded_modified.unwrap() {
                Some(OutcomeModel::Skipped)
            } else {
                None
            },
        }
    } else {
        None
    }
}

/// The decision once the target's digest is known (or known unreadable).
pub open spec fn judge_model(recorded_hash: Seq<char>, computed: Option<Seq<char>>) -> OutcomeModel {
    match computed {
        None => OutcomeModel::FailedHashUnreadable,
        Some(h) => if h == recorded_hash {
            OutcomeModel::Passed
        } else {
            OutcomeModel::FailedMismatch(recorded_hash, h)
        },
    }
}

/// The full classification of one entry from all observations: not-found and
/// metadata failures and the skip-newer policy take precedence; otherwise
/// the recomputed digest decides.
pub open spec fn classify_model(
    recorded_modified: Option<u64>,
    recorded_hash: Seq<char>,
    skip_newer: bool,
    exists: bool,
    mtime: MtimeProbe,
    computed: Option<Seq<char>>,
) -> OutcomeModel {
    match plan_model(recorded_modified, skip_newer, exists, mtime) {
        Some(o) => o,
        None => judge_model(recorded_hash, computed),
    }
}

/// Decide an entry's outcome before digesting, from whether the target
/// exists and the modification-time probe. `None` means the digest is
/// needed.
pub fn plan_entry(entry: &ChecksumEntry, skip_newer: bool, exists: bool, mtime: MtimeProbe) -> (r:
    Option<VerifyOutcome>)
    ensures
        match r {
            Some(o) => plan_model(entry.modified, skip_newer, exists, mtime) == Some(o.model()),
            None => plan_model(entry.modified, skip_newer, exists, mtime) is None,
        },
{
    if !exists {
        return Some(VerifyOutcome::Failed(FailReason::NotFound));
    }
    if skip_newer {
        match entry.modified {
            Some(recorded) => {
                match mtime {
                    MtimeProbe::Unreadable => {
                        return Some(VerifyOutcome::Failed(FailReason::MetadataUnreadable));
                    },
                    MtimeProbe::Known(t) => {
                        if t > recorded {
                            return Some(VerifyOutcome::Skipped);
                        }
                    },
                }
            },
            None => {},
        }
    }
    None
}

/// Decide an entry's outcome from the recomputed digest: `None` stands for
/// an unreadable target. A mismatch carries both the recorded and the
/// recomputed digest.
pub fn judge_hash(entry: &ChecksumEntry, computed: Option<String>) -> (r: VerifyOutcome)
    ensures
        r.model() == judge_model(
            entry.hash@,
            match computed {
                Some(h) => Some(h@),
                None => None,
            },
        ),
{
    match computed {
        None => VerifyOutcome::Failed(FailReason::HashUnreadable),
        Some(h) => {
            if h == entry.hash {
                VerifyOutcome::Passed
            } else {
                VerifyOutcome::Failed(
                    FailReason::Mismatch { expected: entry.hash.clone(), actual: h },
                )
            }
        },
    }
}

pub open spec fn count_passed(s: Seq<VerifyOutcome>) -> nat
    decreases s.len(),
{
    if s.len() == 0 {
        0
    } else {
        count_passed(s.drop_last()) + (if (s.last() matches VerifyOutcome::Passed) {
            1nat
        } else {
            0nat
        })
    }
}

pub open spec fn count_failed(s: Seq<VerifyOutcome>) -> nat
    decreases s.len(),
{
    if s.len() == 0 {
        0
    } else {
        count_failed(s.drop_last()) + (if s.last().is_failed() {
            1nat
        } else {
            0nat
        })
    }
}

pub open spec fn count_skipped(s: Seq<VerifyOutcome>) -> nat
    decreases s.len(),
{
    if s.len() == 0 {
        0
    } else {
        count_skipped(s.drop_last()) + (if (s.last() matches VerifyOutcome::Skipped) {
            1nat
        } else {
            0nat
        })
    }
}

/// Aggregate counts of a verification run.
#[derive(Debug, Clone, Copy, PartialEq, Eq, Structural)]
pub struct VerifySummary {
    pub passed: usize,
    pub failed: usize,
    pub skipped: usize,
}

/// Tally the outcomes of a run.
pub fn summarize(outcomes: &Vec<VerifyOutcome>) -> (s: VerifySummary)
    ensures
        s.passed == count_passed(outcomes@),
        s.failed == count_failed(outcomes@),
        s.skipped == count_skipped(outcomes@),
        s.passed + s.failed + s.skipped == outcomes@.len(),
{
    let mut passed: usize = 0;
    let mut failed: usize = 0;
    let mut skipped: usize = 0;
    let mut i: usize = 0;
    proof {
        assert(outcomes@.take(0) =~= Seq::<VerifyOutcome>::empty());
    }
    while i < outcomes.len()
        invariant
            i <= outcomes@.len(),
            passed == count_passed(outcomes@.take(i as int)),
            failed == count_failed(outcomes@.take(i as int)),
            skipped == count_skipped(outcomes@.take(i as int)),
            passed + failed + skipped == i,
        decreases outcomes@.len() - i,
    {
        proof {
            assert(outcomes@.take(i + 1).drop_last() =~= outcomes@.take(i as int));
            assert(outcomes@.take(i + 1).last() == outcomes@[i as int]);
        }
        match &outcomes[i] {
            VerifyOutcome::Passed => {
                passed = passed + 1;
            },
            VerifyOutcome::Failed(_) => {
                failed = failed + 1;
            },
            VerifyOutcome::Skipped => {
                skipped = skipped + 1;
            },
        }
        i = i + 1;
    }
    proof {
        assert(outcomes@.take(outcomes@.len() as int) =~= outcomes@);
    }
    VerifySummary { passed, failed, skipped }
}

/// The aggregate failure signal: a run succeeds exactly when no entry
/// failed, whatever the passed and skipped counts are.
pub fn verification_ok(s: &VerifySummary) -> (b: bool)
    ensures
        b == (s.failed == 0),
{
    s.failed == 0
}

/// The failed count is zero exactly when no single outcome is a failure, so
/// the aggregate signal fires if and only if some entry failed.
pub proof fn lemma_failed_count_zero(s: Seq<VerifyOutcome>)
    ensures
        count_failed(s) == 0 <==> (forall|i: int| 0 <= i < s.len() ==> !(#[trigger] s[i]).is_failed()),
    decreases s.len(),
{
    if s.len() > 0 {
        lemma_failed_count_zero(s.drop_last());
        if count_failed(s) == 0 {
            assert forall|i: int| 0 <= i < s.len() implies !(#[trigger] s[i]).is_failed() by {
                if i < s.len() - 1 {
                    assert(s.drop_last()[i] == s[i]);
                }
            }
        } else {
            if forall|i: int| 0 <= i < s.len() ==> !(#[trigger] s[i]).is_failed() {
                assert forall|i: int|
                    0 <= i < s.drop_last().len() implies !(#[trigger] s.drop_last()[i]).is_failed() by {
                    assert(s.drop_last()[i] == s[i]);
                }
            }
        }
    }
}

/// Round trip: an entry recorded for a target whose bytes are unchanged
/// verifies as passed — never failed, never skipped — provided the
/// skip-newer probe, if it is consulted at all, does not err and does not
/// see a strictly newer time.
pub proof fn lemma_round_trip_entry(
    alg: HashAlgorithm,
    entry: ChecksumEntry,
    bytes: Seq<u8>,
    skip_newer: bool,
    mtime: MtimeProbe,
)
    requires
        entry.hash@ == digest_of(alg, bytes),
        skip_newer && entry.modified is Some ==> match mtime {
            MtimeProbe::Unreadable => false,
            MtimeProbe::Known(t) => t <= entry.modified.unwrap(),
        },
    ensures
        classify_model(
            entry.modified,
            entry.hash@,
            skip_newer,
            true,
            mtime,
            Some(digest_of(alg, bytes)),
        ) == OutcomeModel::Passed,
{
}

/// Tamper detection: when the recomputed digest differs from the recorded
/// one, the entry fails with a mismatch carrying exactly the recorded and
/// the recomputed digest.
pub proof fn lemma_tamper_detected(
    entry: ChecksumEntry,
    actual: Seq<char>,
    mtime: MtimeProbe,
)
    requires
        actual != entry.hash@,
    ensures
        classify_model(entry.modified, entry.hash@, false, true, mtime, Some(actual))
            == OutcomeModel::FailedMismatch(entry.hash@, actual),
{
}

/// Skip-newer policy: a strictly newer target is skipped, not failed, even
/// if its content also differs — whatever digest the bytes would have.
pub proof fn lemma_skip_newer(
    entry: ChecksumEntry,
    t: u64,
    computed: Option<Seq<char>>,
)
    requires
        entry.modified is Some,
        t > entry.modified.unwrap(),
    ensures
        classify_model(entry.modified, entry.hash@, true, true, MtimeProbe::Known(t), computed)
            == OutcomeModel::Skipped,
{
}

/// A run over entries that all pass has zero failed and zero skipped.
pub proof fn lemma_all_passed_counts(s: Seq<VerifyOutcome>)
    requires
        forall|i: int| 0 <= i < s.len() ==> (#[trigger] s[i]) matches VerifyOutcome::Passed,
    ensures
        count_failed(s) == 0,
        count_skipped(s) == 0,
        count_passed(s) == s.len(),
    decreases s.len(),
{
    if s.len() > 0 {
        assert forall|i: int|
            0 <= i < s.drop_last().len() implies (#[trigger] s.drop_last()[i]) matches VerifyOutcome::Passed by {
            assert(s.drop_last()[i] == s[i]);
        }
        lemma_all_passed_counts(s.drop_last());
    }
}

} // verus!
