//! Update detection with confidence grading.
//!
//! The shell observes the tracked target (its file fingerprint, and a
//! best-effort version string from the platform's uninstall records) and
//! hands the observation over; the decision against the recorded baseline
//! is verified here.

use vstd::prelude::*;
use crate::strutil::contains_ignore_ascii_case;
use crate::strutil::contains_seq;
use crate::strutil::lower_seq;
use crate::strutil::str_eq;

verus! {

/// What the shell observed of a tracked target just before a check: the
/// current file fingerprint (size, modified time), if readable, and the
/// current version string, if the platform could look one up.
pub struct TargetObservation {
    pub fingerprint: Option<(u64, u64)>,
    pub version: Option<String>,
}

/// One update determination: the verdict, its confidence grade, and the
/// signals it was graded from.
pub struct UpdateCheckResult {
    pub has_update: bool,
    pub confidence: String,
    pub old_version: Option<String>,
    pub new_version: Option<String>,
    pub file_changed: bool,
    pub size_changed: bool,
    pub modified_time_changed: bool,
}

/// The distance between two epoch timestamps.
pub open spec fn time_distance(a: u64, b: u64) -> int {
    if a >= b {
        a - b
    } else {
        b - a
    }
}

/// The current size differs from a recorded baseline size.
pub open spec fn spec_size_changed(fingerprint: Option<(u64, u64)>, baseline_size: Option<
    u64,
>) -> bool {
    fingerprint matches Some(f) && baseline_size matches Some(b) && f.0 != b
}

/// The current modified time is more than 2 seconds away from a recorded
/// baseline time; the tolerance absorbs filesystem timestamp rounding.
pub open spec fn spec_time_changed(fingerprint: Option<(u64, u64)>, baseline_modified: Option<
    u64,
>) -> bool {
    fingerprint matches Some(f) && baseline_modified matches Some(b) && time_distance(f.1, b) > 2
}

/// Either file-metadata signal fired.
pub open spec fn spec_file_changed(
    fingerprint: Option<(u64, u64)>,
    baseline_size: Option<u64>,
    baseline_modified: Option<u64>,
) -> bool {
    spec_size_changed(fingerprint, baseline_size) || spec_time_changed(
        fingerprint,
        baseline_modified,
    )
}

/// A version was looked up now, a baseline version was recorded, and the
/// two differ: the most reliable update signal.
pub open spec fn spec_version_hit(version: Option<String>, baseline_version: Option<
    String,
>) -> bool {
    version matches Some(v) && baseline_version matches Some(b) && v@ != b@
}

/// Whether an update is reported: a version mismatch, or a change in
/// the file's metadata.
pub open spec fn spec_has_update(
    fingerprint: Option<(u64, u64)>,
    version: Option<String>,
    baseline_version: Option<String>,
    baseline_size: Option<u64>,
    baseline_modified: Option<u64>,
) -> bool {
    spec_version_hit(version, baseline_version) || spec_file_changed(
        fingerprint,
        baseline_size,
        baseline_modified,
    )
}

/// The confidence grade: `high` on a version mismatch; else `medium` when
/// both size and modified time changed, `low` when only one did; `low`
/// when nothing changed.
pub open spec fn spec_confidence(
    fingerprint: Option<(u64, u64)>,
    version: Option<String>,
    baseline_version: Option<String>,
    baseline_size: Option<u64>,
    baseline_modified: Option<u64>,
) -> Seq<char> {
    if spec_version_hit(version, baseline_version) {
        "high"@
    } else if spec_file_changed(fingerprint, baseline_size, baseline_modified) {
        if spec_size_changed(fingerprint, baseline_size) && spec_time_changed(
            fingerprint,
            baseline_modified,
        ) {
            "medium"@
        } else {
            "low"@
        }
    } else {
        "low"@
    }
}

/// Two optional strings agree: present together and, when present, equal.
pub open spec fn opt_str_like(a: Option<String>, b: Option<String>) -> bool {
    match (a, b) {
        (Some(x), Some(y)) => x@ == y@,
        (None, None) => true,
        _ => false,
    }
}

/// Decides whether a tracked target has likely changed since its baseline.
///
/// The first decisive signal wins: a version mismatch grades `high` and
/// overrides file-metadata evidence; otherwise metadata changes grade
/// `medium` (both signals) or `low` (one signal); otherwise there is no
/// update and the grade stays `low`.  With no baseline recorded, no signal
/// can fire, so no update is ever reported.
pub fn check_for_update(
    observation: TargetObservation,
    baseline_version: Option<String>,
    baseline_size: Option<u64>,
    baseline_modified_time: Option<u64>,
) -> (r: UpdateCheckResult)
    ensures
        r.size_changed == spec_size_changed(observation.fingerprint, baseline_size),
        r.modified_time_changed == spec_time_changed(
            observation.fingerprint,
            baseline_modified_time,
        ),
        r.file_changed == spec_file_changed(
            observation.fingerprint,
            baseline_size,
            baseline_modified_time,
        ),
        r.has_update == spec_has_update(
            observation.fingerprint,
            observation.version,
            baseline_version,
            baseline_size,
            baseline_modified_time,
        ),
        r.confidence@ == spec_confidence(
            observation.fingerprint,
            observation.version,
            baseline_version,
            baseline_size,
            baseline_modified_time,
        ),
        opt_str_like(r.old_version, baseline_version),
        opt_str_like(r.new_version, observation.version),
{
    let mut size_changed = false;
    let mut modified_time_changed = false;

    if let Some((current_size, current_modified)) = observation.fingerprint {
        if let Some(bs) = baseline_size {
            if current_size != bs {
                size_changed = true;
            }
        }
        if let Some(bm) = baseline_modified_time {
            let distance = if current_modified >= bm {
                current_modified - bm
            } else {
                bm - current_modified
            };
            if distance > 2 {
                modified_time_changed = true;
            }
        }
    }
    let file_changed = size_changed || modified_time_changed;

    let version_hit = match (&observation.version, &baseline_version) {
        (Some(v), Some(b)) => !str_eq(v.as_str(), b.as_str()),
        _ => false,
    };

    let has_update = version_hit || file_changed;
    let confidence = if version_hit {
        String::from_str("high")
    } else if file_changed {
        if size_changed && modified_time_changed {
            String::from_str("medium")
        } else {
            String::from_str("low")
        }
    } else {
        String::from_str("low")
    };

    UpdateCheckResult {
        has_update,
        confidence,
        old_version: baseline_version,
        new_version: observation.version,
        file_changed,
        size_changed,
        modified_time_changed,
    }
}

/// The selection step of the best-effort version lookup: given the
/// target's filename stem and the platform's enumerated uninstall entries
/// as (display name, display version) pairs, the display version of the
/// first entry whose display name contains the stem, ASCII
/// case-insensitively.  Best-effort and not guaranteed unique, as the
/// capability is specified; the shell enumerates the entries and performs
/// the registry round-trips.
pub fn choose_version(stem: &str, entries: &Vec<(String, String)>) -> (r: Option<String>)
    ensures
        match r {
            Some(v) => exists|i: int|
                {
                    &&& 0 <= i < entries@.len()
                    &&& contains_seq(lower_seq((#[trigger] entries@[i]).0@), lower_seq(stem@))
                    &&& v@ == entries@[i].1@
                    &&& forall|j: int|
                        0 <= j < i ==> !contains_seq(
                            lower_seq((#[trigger] entries@[j]).0@),
                            lower_seq(stem@),
                        )
                },
            None => forall|i: int|
                0 <= i < entries@.len() ==> !contains_seq(
                    lower_seq((#[trigger] entries@[i]).0@),
                    lower_seq(stem@),
                ),
        },
{
    let n = entries.len();
    let mut i: usize = 0;
    while i < n
        invariant
            i <= n,
            n == entries@.len(),
            forall|j: int|
                0 <= j < i ==> !contains_seq(
                    lower_seq((#[trigger] entries@[j]).0@),
                    lower_seq(stem@),
                ),
        decreases n - i,
    {
        if contains_ignore_ascii_case(entries[i].0.as_str(), stem) {
            return Some(entries[i].1.clone());
        }
        i += 1;
    }
    None
}

/// With no baseline recorded at all, an update check reports no update,
/// whatever the current file state or discovered version.
pub proof fn lemma_no_baseline_no_update(
    fingerprint: Option<(u64, u64)>,
    version: Option<String>,
)
    ensures
        !spec_has_update(fingerprint, version, None, None, None),
        spec_confidence(fingerprint, version, None, None, None) == "low"@,
{
}

} // verus!
