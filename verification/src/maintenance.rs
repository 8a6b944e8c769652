//! The maintenance commands over the whole catalog: validating every entry,
//! initializing update baselines, checking for updates, and batch deletion.
//!
//! Batch operations iterate in insertion order, capture per-item failures
//! in their result structure instead of aborting, and always attempt every
//! item; only the shell's final persistence step can fail wholesale.

use vstd::prelude::*;
use crate::models::App;
use crate::models::Config;
use crate::models::UpdateMetadata;
use crate::models::apps_wf;
use crate::models::find_app_index;
use crate::models::has_app_id;
use crate::catalog::file_based_icon;
use crate::catalog::first_app_index;
use crate::catalog::is_first_app_index;
use crate::catalog::lemma_first_app_index_unique;
use crate::path_validator::PathProbe;
use crate::path_validator::path_type_of;
use crate::path_validator::validate_app_path;
use crate::update_checker::TargetObservation;
use crate::update_checker::check_for_update;
use crate::update_checker::opt_str_like;
use crate::update_checker::spec_confidence;
use crate::update_checker::spec_file_changed;
use crate::update_checker::spec_has_update;
use crate::update_checker::spec_size_changed;
use crate::update_checker::spec_time_changed;
use crate::sequtil::conj;
use crate::sequtil::lemma_filter_all;
use crate::sequtil::lemma_filter_congruence;
use crate::sequtil::lemma_filter_elements;
use crate::sequtil::lemma_filter_filter;
use crate::sequtil::lemma_filter_push;
use crate::sequtil::lemma_filter_single_out;
use crate::strutil::str_eq;
use crate::strutil::str_starts_with;
use crate::CoreError;

verus! {

/// One entry's validation verdict.
pub struct ValidationResult {
    pub app_id: String,
    pub app_name: String,
    pub is_valid: bool,
    pub reason: Option<String>,
    pub path_type: Option<String>,
}

/// The signals behind one update determination.
#[derive(Debug)]
pub struct UpdateCheckDetails {
    pub old_version: Option<String>,
    pub new_version: Option<String>,
    pub file_changed: bool,
    pub size_changed: bool,
    pub modified_time_changed: bool,
}

/// One entry's update determination.
#[derive(Debug)]
pub struct UpdateCheckResult {
    pub app_id: String,
    pub app_name: String,
    pub has_update: bool,
    pub confidence: String,
    pub details: UpdateCheckDetails,
}

/// One per-item failure of a batch operation.
pub struct ErrorInfo {
    pub app_id: String,
    pub error: String,
}

/// The outcome of a batch operation: `completed` counts attempts and always
/// reaches `total`; `errors` lists the failures in attempt order.
pub struct BatchOperationResult {
    pub total: usize,
    pub completed: usize,
    pub succeeded: usize,
    pub failed: usize,
    pub errors: Vec<ErrorInfo>,
}

/// The verdict `v` is the one `validate` gives for `path` under `probe`.
pub open spec fn validation_verdict_ok(v: ValidationResult, path: Seq<char>, probe: PathProbe) -> bool {
    &&& v.path_type matches Some(t) && t@ == path_type_of(path)
    &&& probe is Missing ==> !v.is_valid && (v.reason matches Some(m) && m@ == "missing"@)
    &&& probe matches PathProbe::Inaccessible(e) ==> !v.is_valid && (v.reason matches Some(m)
        && m@ == "inaccessible: "@ + e@)
    &&& probe is Readable ==> v.is_valid && v.reason is None
}

/// Validates every entry's target path against what the shell probed, one
/// verdict per entry in insertion order.
pub fn validate_all_apps(config: &Config, probes: &Vec<PathProbe>) -> (r: Vec<ValidationResult>)
    requires
        probes@.len() == config.apps@.len(),
    ensures
        r@.len() == config.apps@.len(),
        forall|i: int|
            0 <= i < r@.len() ==> {
                &&& (#[trigger] r@[i]).app_id@ == config.apps@[i].id@
                &&& r@[i].app_name@ == config.apps@[i].name@
                &&& validation_verdict_ok(r@[i], config.apps@[i].path@, probes@[i])
            },
{
    let n = config.apps.len();
    let mut results: Vec<ValidationResult> = Vec::new();
    let mut i: usize = 0;
    while i < n
        invariant
            i <= n,
            n == config.apps@.len(),
            probes@.len() == n,
            results@.len() == i,
            forall|j: int|
                0 <= j < i ==> {
                    &&& (#[trigger] results@[j]).app_id@ == config.apps@[j].id@
                    &&& results@[j].app_name@ == config.apps@[j].name@
                    &&& validation_verdict_ok(results@[j], config.apps@[j].path@, probes@[j])
                },
        decreases n - i,
    {
        let (is_valid, reason, path_type) = validate_app_path(
            config.apps[i].path.as_str(),
            &probes[i],
        );
        results.push(
            ValidationResult {
                app_id: config.apps[i].id.clone(),
                app_name: config.apps[i].name.clone(),
                is_valid,
                reason,
                path_type,
            },
        );
        i += 1;
    }
    results
}

/// The recorded baseline version, if any.
pub open spec fn baseline_version_of(a: App) -> Option<String> {
    match a.update_metadata {
        Some(m) => m.baseline_version,
        None => None,
    }
}

/// The recorded baseline file size, if any.
pub open spec fn baseline_size_of(a: App) -> Option<u64> {
    match a.update_metadata {
        Some(m) => m.baseline_file_size,
        None => None,
    }
}

/// The recorded baseline modified time, if any.
pub open spec fn baseline_modified_of(a: App) -> Option<u64> {
    match a.update_metadata {
        Some(m) => m.baseline_modified_time,
        None => None,
    }
}

/// `a1` is `a0` with a freshly initialized baseline from `obs` at `now`:
/// the observed fingerprint and version recorded, status `none`, no
/// confidence yet, and every other field kept.
pub open spec fn baseline_set(a0: App, a1: App, obs: TargetObservation, now: u64) -> bool {
    &&& a1.id == a0.id
    &&& a1.name == a0.name
    &&& a1.path == a0.path
    &&& a1.category == a0.category
    &&& a1.icon == a0.icon
    &&& a1.last_launched == a0.last_launched
    &&& a1.created_at == a0.created_at
    &&& a1.update_metadata matches Some(m) && {
        &&& opt_str_like(m.baseline_version, obs.version)
        &&& obs.fingerprint matches Some(f) && m.baseline_file_size == Some(f.0)
            && m.baseline_modified_time == Some(f.1)
        &&& m.last_checked_at == Some(now)
        &&& m.update_status matches Some(st) && st@ == "none"@
        &&& m.update_confidence is None
    }
}

/// Records the update-tracking baseline for one entry from what the shell
/// observed of its target.  An unknown id is the not-found error; an
/// unreadable target (no fingerprint) is an I/O error; both leave the
/// document untouched.
pub fn init_update_baseline(
    config: &mut Config,
    app_id: &str,
    observation: TargetObservation,
    now: u64,
) -> (r: Result<(), CoreError>)
    requires
        old(config).wf(),
    ensures
        final(config).wf(),
        final(config).version == old(config).version,
        final(config).settings == old(config).settings,
        final(config).categories == old(config).categories,
        final(config).apps@.len() == old(config).apps@.len(),
        match r {
            Ok(()) => {
                let i = first_app_index(old(config).apps@, app_id@);
                &&& has_app_id(old(config).apps@, app_id@)
                &&& observation.fingerprint is Some
                &&& baseline_set(old(config).apps@[i], final(config).apps@[i], observation, now)
                &&& forall|j: int|
                    0 <= j < old(config).apps@.len() && j != i ==> final(config).apps@[j] == old(
                        config,
                    ).apps@[j]
            },
            Err(e) => final(config).apps == old(config).apps && match e {
                CoreError::NotFound => !has_app_id(old(config).apps@, app_id@),
                CoreError::IOError(m) => has_app_id(old(config).apps@, app_id@)
                    && observation.fingerprint is None && m@ == "cannot read file metadata"@,
                _ => false,
            },
        },
{
    let ghost apps0 = config.apps@;
    let idx = match find_app_index(&config.apps, app_id) {
        Some(i) => i,
        None => {
            return Err(CoreError::NotFound);
        },
    };
    proof {
        assert(is_first_app_index(apps0, app_id@, idx as int));
        lemma_first_app_index_unique(apps0, app_id@, idx as int, first_app_index(apps0, app_id@));
    }
    let (size, modified) = match observation.fingerprint {
        Some(f) => f,
        None => {
            return Err(CoreError::IOError(String::from_str("cannot read file metadata")));
        },
    };
    let mut app = config.apps.remove(idx);
    app.update_metadata = Some(
        UpdateMetadata {
            baseline_version: observation.version,
            baseline_file_size: Some(size),
            baseline_modified_time: Some(modified),
            last_checked_at: Some(now),
            update_status: Some(String::from_str("none")),
            update_confidence: None,
        },
    );
    config.apps.insert(idx, app);
    proof {
        assert(config.apps@ =~= apps0.update(idx as int, config.apps@[idx as int]));
    }
    Ok(())
}

/// An entry the batch initialization skips: it already carries update
/// metadata, and counts as a success without recomputation.
pub open spec fn init_skipped(a: App) -> bool {
    a.update_metadata is Some
}

/// An attempt that fails: no baseline yet and no readable fingerprint.
pub open spec fn init_fails(a: App, obs: TargetObservation) -> bool {
    a.update_metadata is None && obs.fingerprint is None
}

/// How many of the first `k` attempts fail.
pub open spec fn init_fail_count(apps: Seq<App>, obs: Seq<TargetObservation>, k: int) -> int
    decreases k,
{
    if k <= 0 {
        0
    } else {
        init_fail_count(apps, obs, k - 1) + if init_fails(apps[k - 1], obs[k - 1]) {
            1int
        } else {
            0int
        }
    }
}

proof fn lemma_init_fail_count_mono(
    apps: Seq<App>,
    obs: Seq<TargetObservation>,
    a: int,
    b: int,
)
    requires
        a <= b,
    ensures
        init_fail_count(apps, obs, a) <= init_fail_count(apps, obs, b),
    decreases b - a,
{
    if a < b {
        lemma_init_fail_count_mono(apps, obs, a, b - 1);
    }
}

proof fn lemma_init_fail_slot(apps: Seq<App>, obs: Seq<TargetObservation>, j: int, k: int)
    requires
        0 <= j < k,
        init_fails(apps[j], obs[j]),
    ensures
        0 <= init_fail_count(apps, obs, j),
        init_fail_count(apps, obs, j) + 1 <= init_fail_count(apps, obs, k),
{
    lemma_init_fail_count_mono(apps, obs, 0, j);
    assert(init_fail_count(apps, obs, j + 1) == init_fail_count(apps, obs, j) + 1);
    lemma_init_fail_count_mono(apps, obs, j + 1, k);
}

/// Initializes baselines for the whole catalog in one sweep: entries that
/// already carry update metadata are skipped and count as successes;
/// entries whose target had no readable fingerprint are recorded as
/// failures and left untouched; the rest get a fresh baseline.  Every entry
/// is attempted.
pub fn init_all_baselines(
    config: &mut Config,
    observations: &Vec<TargetObservation>,
    now: u64,
) -> (r: BatchOperationResult)
    requires
        old(config).wf(),
        observations@.len() == old(config).apps@.len(),
    ensures
        final(config).wf(),
        final(config).version == old(config).version,
        final(config).settings == old(config).settings,
        final(config).categories == old(config).categories,
        final(config).apps@.len() == old(config).apps@.len(),
        forall|i: int|
            0 <= i < old(config).apps@.len() && (init_skipped(#[trigger] old(config).apps@[i])
                || init_fails(old(config).apps@[i], observations@[i])) ==> final(config).apps@[i]
                == old(config).apps@[i],
        forall|i: int|
            0 <= i < old(config).apps@.len() && !init_skipped(#[trigger] old(config).apps@[i])
                && !init_fails(old(config).apps@[i], observations@[i]) ==> baseline_set(
                old(config).apps@[i],
                final(config).apps@[i],
                observations@[i],
                now,
            ),
        r.total == old(config).apps@.len(),
        r.completed == r.total,
        r.failed == init_fail_count(old(config).apps@, observations@, r.total as int),
        r.succeeded + r.failed == r.total,
        r.failed == r.errors@.len(),
        forall|i: int|
            0 <= i < old(config).apps@.len() && init_fails(
                #[trigger] old(config).apps@[i],
                observations@[i],
            ) ==> {
                let e = r.errors@[init_fail_count(old(config).apps@, observations@, i)];
                &&& e.app_id@ == old(config).apps@[i].id@
                &&& e.error@ == "cannot read file metadata"@
            },
{
    let ghost apps0 = old(config).apps@;
    let ghost obs0 = observations@;
    let n = config.apps.len();
    let mut errors: Vec<ErrorInfo> = Vec::new();
    let mut succeeded: usize = 0;
    let mut i: usize = 0;
    while i < n
        invariant
            i <= n,
            n == apps0.len(),
            config.apps@.len() == n,
            apps0 == old(config).apps@,
            obs0 == observations@,
            observations@.len() == n,
            config.wf(),
            config.version == old(config).version,
            config.settings == old(config).settings,
            config.categories == old(config).categories,
            forall|j: int| i <= j < n ==> config.apps@[j] == apps0[j],
            forall|j: int|
                0 <= j < i && (init_skipped(#[trigger] apps0[j]) || init_fails(apps0[j], obs0[j]))
                    ==> config.apps@[j] == apps0[j],
            forall|j: int|
                0 <= j < i && !init_skipped(#[trigger] apps0[j]) && !init_fails(apps0[j], obs0[j])
                    ==> baseline_set(apps0[j], config.apps@[j], obs0[j], now),
            forall|j: int|
                0 <= j < n ==> (#[trigger] config.apps@[j]).id == apps0[j].id,
            errors@.len() == init_fail_count(apps0, obs0, i as int),
            succeeded == i - errors@.len(),
            forall|j: int|
                0 <= j < i && init_fails(#[trigger] apps0[j], obs0[j]) ==> {
                    let e = errors@[init_fail_count(apps0, obs0, j)];
                    &&& e.app_id@ == apps0[j].id@
                    &&& e.error@ == "cannot read file metadata"@
                },
        decreases n - i,
    {
        if config.apps[i].update_metadata.is_some() {
            succeeded += 1;
        } else {
            match observations[i].fingerprint {
                Some((size, modified)) => {
                    let version = match &observations[i].version {
                        Some(v) => Some(v.clone()),
                        None => None,
                    };
                    let ghost cur = config.apps@;
                    let mut app = config.apps.remove(i);
                    app.update_metadata = Some(
                        UpdateMetadata {
                            baseline_version: version,
                            baseline_file_size: Some(size),
                            baseline_modified_time: Some(modified),
                            last_checked_at: Some(now),
                            update_status: Some(String::from_str("none")),
                            update_confidence: None,
                        },
                    );
                    config.apps.insert(i, app);
                    proof {
                        assert(config.apps@ =~= cur.update(i as int, config.apps@[i as int]));
                    }
                    succeeded += 1;
                },
                None => {
                    let ghost oe = errors@;
                    errors.push(
                        ErrorInfo {
                            app_id: config.apps[i].id.clone(),
                            error: String::from_str("cannot read file metadata"),
                        },
                    );
                    proof {
                        assert forall|j: int|
                            0 <= j < i && init_fails(
                                #[trigger] apps0[j],
                                obs0[j],
                            ) implies errors@[init_fail_count(apps0, obs0, j)] == oe[init_fail_count(
                            apps0,
                            obs0,
                            j,
                        )] by {
                            lemma_init_fail_slot(apps0, obs0, j, i as int);
                        }
                        lemma_init_fail_count_mono(apps0, obs0, 0, i as int);
                    }
                },
            }
        }
        i += 1;
    }
    BatchOperationResult {
        total: n,
        completed: n,
        succeeded,
        failed: errors.len(),
        errors,
    }
}

/// The determination `u` is the one an update check gives for entry `a`
/// under observation `obs`.
pub open spec fn update_result_ok(u: UpdateCheckResult, a: App, obs: TargetObservation) -> bool {
    &&& u.app_id@ == a.id@
    &&& u.app_name@ == a.name@
    &&& u.has_update == spec_has_update(
        obs.fingerprint,
        obs.version,
        baseline_version_of(a),
        baseline_size_of(a),
        baseline_modified_of(a),
    )
    &&& u.confidence@ == spec_confidence(
        obs.fingerprint,
        obs.version,
        baseline_version_of(a),
        baseline_size_of(a),
        baseline_modified_of(a),
    )
    &&& opt_str_like(u.details.old_version, baseline_version_of(a))
    &&& opt_str_like(u.details.new_version, obs.version)
    &&& u.details.file_changed == spec_file_changed(
        obs.fingerprint,
        baseline_size_of(a),
        baseline_modified_of(a),
    )
    &&& u.details.size_changed == spec_size_changed(obs.fingerprint, baseline_size_of(a))
    &&& u.details.modified_time_changed == spec_time_changed(
        obs.fingerprint,
        baseline_modified_of(a),
    )
}

fn check_one(a: &App, observation: TargetObservation) -> (u: UpdateCheckResult)
    ensures
        update_result_ok(u, *a, observation),
{
    let baseline_version = match &a.update_metadata {
        Some(m) => match &m.baseline_version {
            Some(v) => Some(v.clone()),
            None => None,
        },
        None => None,
    };
    let baseline_size = match &a.update_metadata {
        Some(m) => m.baseline_file_size,
        None => None,
    };
    let baseline_modified = match &a.update_metadata {
        Some(m) => m.baseline_modified_time,
        None => None,
    };
    let res = check_for_update(observation, baseline_version, baseline_size, baseline_modified);
    UpdateCheckResult {
        app_id: a.id.clone(),
        app_name: a.name.clone(),
        has_update: res.has_update,
        confidence: res.confidence,
        details: UpdateCheckDetails {
            old_version: res.old_version,
            new_version: res.new_version,
            file_changed: res.file_changed,
            size_changed: res.size_changed,
            modified_time_changed: res.modified_time_changed,
        },
    }
}

/// Checks one entry for an update, given what the shell observed of its
/// target; an unknown id is the not-found error.
pub fn check_app_update(config: &Config, app_id: &str, observation: TargetObservation) -> (r:
    Result<UpdateCheckResult, CoreError>)
    ensures
        match r {
            Ok(u) => has_app_id(config.apps@, app_id@) && update_result_ok(
                u,
                config.apps@[first_app_index(config.apps@, app_id@)],
                observation,
            ),
            Err(e) => !has_app_id(config.apps@, app_id@) && e is NotFound,
        },
{
    match find_app_index(&config.apps, app_id) {
        Some(i) => {
            proof {
                assert(is_first_app_index(config.apps@, app_id@, i as int));
                lemma_first_app_index_unique(
                    config.apps@,
                    app_id@,
                    i as int,
                    first_app_index(config.apps@, app_id@),
                );
            }
            Ok(check_one(&config.apps[i], observation))
        },
        None => Err(CoreError::NotFound),
    }
}

/// Checks every entry for an update in one sweep, one determination per
/// entry in insertion order.
pub fn check_all_updates(config: &Config, observations: &Vec<TargetObservation>) -> (r: Vec<
    UpdateCheckResult,
>)
    requires
        observations@.len() == config.apps@.len(),
    ensures
        r@.len() == config.apps@.len(),
        forall|i: int|
            0 <= i < r@.len() ==> update_result_ok(
                #[trigger] r@[i],
                config.apps@[i],
                observations@[i],
            ),
{
    let n = config.apps.len();
    let mut results: Vec<UpdateCheckResult> = Vec::new();
    let mut i: usize = 0;
    while i < n
        invariant
            i <= n,
            n == config.apps@.len(),
            observations@.len() == n,
            results@.len() == i,
            forall|j: int|
                0 <= j < i ==> update_result_ok(
                    #[trigger] results@[j],
                    config.apps@[j],
                    observations@[j],
                ),
        decreases n - i,
    {
        let observation = TargetObservation {
            fingerprint: observations[i].fingerprint,
            version: match &observations[i].version {
                Some(v) => Some(v.clone()),
                None => None,
            },
        };
        assert(observation == observations@[i as int]);
        results.push(check_one(&config.apps[i], observation));
        i += 1;
    }
    results
}

/// Some listed id reads `id`.
pub open spec fn id_listed(ids: Seq<String>, id: Seq<char>) -> bool {
    exists|j: int| 0 <= j < ids.len() && (#[trigger] ids[j])@ == id
}

/// The entry-keep predicate of a batch deletion: an entry survives unless
/// its id is listed.
pub open spec fn not_listed_app(ids: Seq<String>) -> spec_fn(App) -> bool {
    |a: App| !id_listed(ids, a.id@)
}

/// The entry-keep predicate of removing one id.
pub open spec fn ne_app_id(id: Seq<char>) -> spec_fn(App) -> bool {
    |a: App| a.id@ != id
}

/// The member-keep predicate of a batch deletion: a member id survives
/// unless it was listed and named an entry that existed.
pub open spec fn member_kept(ids: Seq<String>, apps0: Seq<App>) -> spec_fn(String) -> bool {
    |m: String| !(id_listed(ids, m@) && has_app_id(apps0, m@))
}

/// The member-keep predicate the purge runs with: not among the ids that
/// were actually deleted.
pub open spec fn kept_not_in(removed: Seq<String>) -> spec_fn(String) -> bool {
    |m: String| !id_listed(removed, m@)
}

/// Attempt `k` of a batch deletion fails: its id names no entry, or an
/// earlier identical id already removed the entry it named.
pub open spec fn delete_fails(apps0: Seq<App>, ids: Seq<String>, k: int) -> bool {
    !has_app_id(apps0, ids[k]@) || id_listed(ids.take(k), ids[k]@)
}

/// How many of the first `k` attempts fail.
pub open spec fn delete_fail_count(apps0: Seq<App>, ids: Seq<String>, k: int) -> int
    decreases k,
{
    if k <= 0 {
        0
    } else {
        delete_fail_count(apps0, ids, k - 1) + if delete_fails(apps0, ids, k - 1) {
            1int
        } else {
            0int
        }
    }
}

/// How many of the first `k` listed ids name no entry at all.
pub open spec fn missing_id_count(apps0: Seq<App>, ids: Seq<String>, k: int) -> int
    decreases k,
{
    if k <= 0 {
        0
    } else {
        missing_id_count(apps0, ids, k - 1) + if !has_app_id(apps0, ids[k - 1]@) {
            1int
        } else {
            0int
        }
    }
}

/// A batch deletion of pairwise-distinct ids fails exactly on the ids that
/// name no entry: of `N` ids of which `M` are absent from the catalog,
/// `failed` reaches `M` and `succeeded` reaches `N - M`.
pub proof fn lemma_distinct_ids_fail_iff_missing(apps0: Seq<App>, ids: Seq<String>, k: int)
    requires
        0 <= k <= ids.len(),
        forall|i: int, j: int| 0 <= i < j < ids.len() ==> ids[i]@ != ids[j]@,
    ensures
        delete_fail_count(apps0, ids, k) == missing_id_count(apps0, ids, k),
    decreases k,
{
    if k > 0 {
        lemma_distinct_ids_fail_iff_missing(apps0, ids, k - 1);
        // distinct ids never repeat an earlier one, so the duplicate branch
        // of a failure never fires
        assert(!id_listed(ids.take(k - 1), ids[k - 1]@)) by {
            if id_listed(ids.take(k - 1), ids[k - 1]@) {
                let j = choose|j: int|
                    0 <= j < ids.take(k - 1).len() && (#[trigger] ids.take(k - 1)[j])@ == ids[k
                        - 1]@;
                assert(ids[j]@ == ids[k - 1]@);
            }
        }
    }
}

proof fn lemma_delete_fail_count_mono(apps0: Seq<App>, ids: Seq<String>, a: int, b: int)
    requires
        a <= b,
    ensures
        delete_fail_count(apps0, ids, a) <= delete_fail_count(apps0, ids, b),
    decreases b - a,
{
    if a < b {
        lemma_delete_fail_count_mono(apps0, ids, a, b - 1);
    }
}

proof fn lemma_delete_fail_slot(apps0: Seq<App>, ids: Seq<String>, j: int, k: int)
    requires
        0 <= j < k,
        delete_fails(apps0, ids, j),
    ensures
        0 <= delete_fail_count(apps0, ids, j),
        delete_fail_count(apps0, ids, j) + 1 <= delete_fail_count(apps0, ids, k),
{
    lemma_delete_fail_count_mono(apps0, ids, 0, j);
    assert(delete_fail_count(apps0, ids, j + 1) == delete_fail_count(apps0, ids, j) + 1);
    lemma_delete_fail_count_mono(apps0, ids, j + 1, k);
}

/// Listing one more id extends what is listed by exactly that id.
proof fn lemma_id_listed_take_step(ids: Seq<String>, k: int, y: Seq<char>)
    requires
        0 <= k < ids.len(),
    ensures
        id_listed(ids.take(k + 1), y) <==> (id_listed(ids.take(k), y) || ids[k]@ == y),
{
    assert(ids.take(k + 1) =~= ids.take(k).push(ids[k]));
    if id_listed(ids.take(k + 1), y) {
        let j = choose|j: int| 0 <= j < ids.take(k + 1).len() && (#[trigger] ids.take(k + 1)[j])@
            == y;
        if j < k {
            assert((ids.take(k)[j])@ == y);
        }
    }
    if id_listed(ids.take(k), y) {
        let j = choose|j: int| 0 <= j < ids.take(k).len() && (#[trigger] ids.take(k)[j])@ == y;
        assert((ids.take(k + 1)[j])@ == y);
    }
    if ids[k]@ == y {
        assert((ids.take(k + 1)[k])@ == y);
    }
}

/// Membership by id in a filtered entry sequence: the id belongs to some
/// surviving entry.
proof fn lemma_has_app_id_filter(apps: Seq<App>, p: spec_fn(App) -> bool, x: Seq<char>)
    ensures
        has_app_id(apps.filter(p), x) <==> exists|j: int|
            0 <= j < apps.len() && p(#[trigger] apps[j]) && apps[j].id@ == x,
{
    broadcast use vstd::seq_lib::group_filter_ensures;

    lemma_filter_elements(apps, p);
    let f = apps.filter(p);
    if has_app_id(f, x) {
        let i = choose|i: int| 0 <= i < f.len() && (#[trigger] f[i]).id@ == x;
        assert(apps.contains(f[i]));
        let j = choose|j: int| 0 <= j < apps.len() && apps[j] == f[i];
        assert(p(apps[j]));
    }
    if exists|j: int| 0 <= j < apps.len() && p(#[trigger] apps[j]) && apps[j].id@ == x {
        let j = choose|j: int| 0 <= j < apps.len() && p(#[trigger] apps[j]) && apps[j].id@ == x;
        assert(f.contains(apps[j]));
        let i = choose|i: int| 0 <= i < f.len() && f[i] == apps[j];
        assert(f[i].id@ == x);
    }
}

/// Filtering entries with unique ids keeps the ids unique.
proof fn lemma_filter_apps_wf(apps: Seq<App>, p: spec_fn(App) -> bool)
    requires
        apps_wf(apps),
    ensures
        apps_wf(apps.filter(p)),
{
    lemma_filter_elements(apps, p);
    let f = apps.filter(p);
    assert forall|i: int, j: int| 0 <= i < j < f.len() implies f[i].id@ != f[j].id@ by {
        if f[i].id@ == f[j].id@ {
            assert(apps.contains(f[i]));
            assert(apps.contains(f[j]));
            let oi = choose|oi: int| 0 <= oi < apps.len() && apps[oi] == f[i];
            let oj = choose|oj: int| 0 <= oj < apps.len() && apps[oj] == f[j];
            assert(apps[oi].id@ == apps[oj].id@);
            if oi != oj {
            } else {
                // same origin would make the two filtered entries equal,
                // yet a filtered sequence keeps distinct positions of equal
                // values, so count them
                lemma_filter_dup_positions(apps, p, i, j);
            }
        }
    }
}

/// Two positions of the filtered sequence never collapse to one origin:
/// equal values at distinct filtered positions come from distinct origins.
proof fn lemma_filter_dup_positions<A>(s: Seq<A>, p: spec_fn(A) -> bool, i: int, j: int)
    requires
        0 <= i < j < s.filter(p).len(),
    ensures
        exists|oi: int, oj: int|
            0 <= oi < oj < s.len() && s[oi] == s.filter(p)[i] && s[oj] == #[trigger] s.filter(p)[j],
    decreases s.len(),
{
    reveal(Seq::filter);
    let f = s.filter(p);
    let d = s.drop_last();
    if p(s.last()) && j == f.len() - 1 {
        lemma_filter_elements(d, p);
        assert(f[i] == d.filter(p)[i]);
        assert(d.contains(d.filter(p)[i]));
        let oi = choose|oi: int| 0 <= oi < d.len() && d[oi] == f[i];
        assert(s[oi] == f[i]);
        assert(s[s.len() - 1] == f[j]);
    } else {
        lemma_filter_dup_positions(d, p, i, j);
        let (oi, oj) = choose|oi: int, oj: int|
            0 <= oi < oj < d.len() && d[oi] == d.filter(p)[i] && d[oj]
                == #[trigger] d.filter(p)[j];
        assert(s[oi] == f[i]);
        assert(s[oj] == f[j]);
    }
}

/// Whether some string of `v` reads `s`.
fn id_in_vec(v: &Vec<String>, s: &str) -> (r: bool)
    ensures
        r == id_listed(v@, s@),
{
    let n = v.len();
    let mut i: usize = 0;
    while i < n
        invariant
            i <= n,
            n == v@.len(),
            forall|j: int| 0 <= j < i ==> (#[trigger] v@[j])@ != s@,
        decreases n - i,
    {
        if str_eq(v[i].as_str(), s) {
            return true;
        }
        i += 1;
    }
    false
}

/// A member list with every id of `removed` taken out.
fn kept_members(members: &Vec<String>, removed: &Vec<String>) -> (out: Vec<String>)
    ensures
        out@ == members@.filter(kept_not_in(removed@)),
{
    let n = members.len();
    let mut out: Vec<String> = Vec::new();
    let mut j: usize = 0;
    while j < n
        invariant
            j <= n,
            n == members@.len(),
            out@ == members@.take(j as int).filter(kept_not_in(removed@)),
        decreases n - j,
    {
        proof {
            assert(members@.take(j + 1) =~= members@.take(j as int).push(members@[j as int]));
            lemma_filter_push(members@.take(j as int), kept_not_in(removed@), members@[j as int]);
        }
        if !id_in_vec(removed, members[j].as_str()) {
            out.push(members[j].clone());
        }
        j += 1;
    }
    proof {
        assert(members@.take(n as int) =~= members@);
    }
    out
}

/// An entry's icon appears among the collected asset names.
pub open spec fn icon_listed(a: App, icons: Seq<String>) -> bool {
    exists|t: int|
        {
            &&& 0 <= t < icons.len()
            &&& a.icon matches Some(ic) && (#[trigger] icons[t])@ == ic@
        }
}

/// A collected asset name is the file-based icon of some listed entry.
pub open spec fn icon_belongs(f: String, apps0: Seq<App>, ids: Seq<String>) -> bool {
    exists|i: int|
        {
            &&& 0 <= i < apps0.len()
            &&& id_listed(ids, (#[trigger] apps0[i]).id@)
            &&& file_based_icon(apps0[i])
            &&& apps0[i].icon matches Some(ic) && f@ == ic@
        }
}

/// Collected icon `t` is owned by the entry at `owner[t]` of the
/// pre-deletion catalog: a listed entry with a file-based icon.
spec fn owner_slot_ok(
    apps: Seq<App>,
    ids: Seq<String>,
    icons: Seq<String>,
    owner: Seq<int>,
    t: int,
) -> bool {
    &&& 0 <= owner[t] < apps.len()
    &&& id_listed(ids, apps[owner[t]].id@)
    &&& file_based_icon(apps[owner[t]])
    &&& apps[owner[t]].icon matches Some(ic) && icons[t]@ == ic@
}

/// Entry `j`'s file-based icon was collected at position `slot[j]`.
spec fn entry_slot_ok(apps: Seq<App>, icons: Seq<String>, slot: Map<int, int>, j: int) -> bool {
    &&& slot.dom().contains(j)
    &&& 0 <= slot[j] < icons.len()
    &&& apps[j].icon matches Some(ic) && icons[slot[j]]@ == ic@
}

/// The icon-asset filenames of every entry a coming batch deletion will
/// remove: listed id, file-based icon.
fn doomed_icons(apps: &Vec<App>, app_ids: &Vec<String>) -> (icons: Vec<String>)
    ensures
        forall|t: int|
            0 <= t < icons@.len() ==> icon_belongs(#[trigger] icons@[t], apps@, app_ids@),
        forall|i: int|
            0 <= i < apps@.len() && id_listed(app_ids@, (#[trigger] apps@[i]).id@)
                && file_based_icon(apps@[i]) ==> icon_listed(apps@[i], icons@),
{
    let n = apps.len();
    let mut icons: Vec<String> = Vec::new();
    let ghost mut owner: Seq<int> = Seq::empty();
    let ghost mut slot_of: Map<int, int> = Map::empty();
    let mut i: usize = 0;
    while i < n
        invariant
            i <= n,
            n == apps@.len(),
            owner.len() == icons@.len(),
            forall|t: int|
                0 <= t < icons@.len() ==> #[trigger] owner_slot_ok(
                    apps@,
                    app_ids@,
                    icons@,
                    owner,
                    t,
                ),
            forall|j: int|
                0 <= j < i && id_listed(app_ids@, (#[trigger] apps@[j]).id@) && file_based_icon(
                    apps@[j],
                ) ==> entry_slot_ok(apps@, icons@, slot_of, j),
        decreases n - i,
    {
        let listed = id_in_vec(app_ids, apps[i].id.as_str());
        if listed {
            match &apps[i].icon {
                Some(ic) => {
                    if !str_starts_with(ic.as_str(), "data:") {
                        let ghost icons0 = icons@;
                        let ghost owner0 = owner;
                        let ghost slot0 = slot_of;
                        proof {
                            assert(apps@[i as int].icon matches Some(z) && z@ == ic@);
                            assert(file_based_icon(apps@[i as int]));
                            owner = owner.push(i as int);
                            slot_of = slot_of.insert(i as int, icons@.len() as int);
                        }
                        icons.push(ic.clone());
                        proof {
                            assert forall|t: int|
                                0 <= t < icons@.len() implies #[trigger] owner_slot_ok(
                                apps@,
                                app_ids@,
                                icons@,
                                owner,
                                t,
                            ) by {
                                if t < icons0.len() {
                                    assert(owner_slot_ok(apps@, app_ids@, icons0, owner0, t));
                                    assert(icons@[t] == icons0[t]);
                                    assert(owner[t] == owner0[t]);
                                } else {
                                    assert(owner[t] == i as int);
                                    assert(icons@[t]@ == ic@);
                                }
                            }
                            assert forall|j: int|
                                0 <= j < i + 1 && id_listed(
                                    app_ids@,
                                    (#[trigger] apps@[j]).id@,
                                ) && file_based_icon(apps@[j]) implies entry_slot_ok(
                                apps@,
                                icons@,
                                slot_of,
                                j,
                            ) by {
                                if j < i {
                                    assert(entry_slot_ok(apps@, icons0, slot0, j));
                                    assert(slot_of[j] == slot0[j]);
                                    assert(icons@[slot0[j]] == icons0[slot0[j]]);
                                } else {
                                    assert(slot_of[j] == icons0.len() as int);
                                    assert(icons@[icons0.len() as int]@ == ic@);
                                }
                            }
                        }
                    } else {
                        proof {
                            assert(!file_based_icon(apps@[i as int]));
                        }
                    }
                },
                None => {
                    proof {
                        assert(!file_based_icon(apps@[i as int]));
                    }
                },
            }
        } else {
            proof {
                assert(!id_listed(app_ids@, apps@[i as int].id@));
            }
        }
        i += 1;
    }
    proof {
        assert forall|t: int| 0 <= t < icons@.len() implies icon_belongs(
            #[trigger] icons@[t],
            apps@,
            app_ids@,
        ) by {
            assert(owner_slot_ok(apps@, app_ids@, icons@, owner, t));
            let j0 = owner[t];
            assert({
                &&& 0 <= j0 < apps@.len()
                &&& id_listed(app_ids@, apps@[j0].id@)
                &&& file_based_icon(apps@[j0])
                &&& apps@[j0].icon matches Some(ic) && icons@[t]@ == ic@
            });
        }
        assert forall|j: int|
            0 <= j < apps@.len() && id_listed(app_ids@, (#[trigger] apps@[j]).id@)
                && file_based_icon(apps@[j]) implies icon_listed(apps@[j], icons@) by {
            assert(entry_slot_ok(apps@, icons@, slot_of, j));
            let t0 = slot_of[j];
            assert({
                &&& 0 <= t0 < icons@.len()
                &&& apps@[j].icon matches Some(ic) && icons@[t0]@ == ic@
            });
        }
    }
    icons
}

/// `c1` is `c0` with its member list filtered by `pred` and every other
/// field kept.
pub open spec fn cat_members_filtered(
    c0: crate::models::Category,
    c1: crate::models::Category,
    pred: spec_fn(String) -> bool,
) -> bool {
    &&& c1.id == c0.id
    &&& c1.name == c0.name
    &&& c1.icon == c0.icon
    &&& c1.order == c0.order
    &&& c1.apps@ == c0.apps@.filter(pred)
}

/// Deletes many entries in one sweep without letting one failure abort the
/// rest: every id is attempted in order; an id that names no entry (or a
/// repeated id whose entry is already gone) is recorded as a failure; a
/// deleted entry leaves every category's member list, and its icon-asset
/// filename comes back in the second component for the shell to delete.
#[verifier::rlimit(100)]
pub fn batch_delete_apps(config: &mut Config, app_ids: &Vec<String>) -> (r: (
    BatchOperationResult,
    Vec<String>,
))
    requires
        old(config).wf(),
    ensures
        final(config).wf(),
        final(config).version == old(config).version,
        final(config).settings == old(config).settings,
        final(config).apps@ == old(config).apps@.filter(not_listed_app(app_ids@)),
        final(config).categories@.len() == old(config).categories@.len(),
        forall|ci: int|
            0 <= ci < old(config).categories@.len() ==> cat_members_filtered(
                #[trigger] old(config).categories@[ci],
                final(config).categories@[ci],
                member_kept(app_ids@, old(config).apps@),
            ),
        r.0.total == app_ids@.len(),
        r.0.completed == r.0.total,
        r.0.failed == delete_fail_count(old(config).apps@, app_ids@, app_ids@.len() as int),
        r.0.succeeded + r.0.failed == r.0.total,
        r.0.failed == r.0.errors@.len(),
        forall|k: int|
            0 <= k < app_ids@.len() && delete_fails(old(config).apps@, app_ids@, k) ==> {
                let e = r.0.errors@[delete_fail_count(old(config).apps@, app_ids@, k)];
                &&& e.app_id@ == app_ids@[k]@
                &&& e.error@ == "not found"@
            },
        forall|t: int|
            0 <= t < r.1@.len() ==> icon_belongs(#[trigger] r.1@[t], old(config).apps@, app_ids@),
        forall|i: int|
            0 <= i < old(config).apps@.len() && id_listed(
                app_ids@,
                (#[trigger] old(config).apps@[i]).id@,
            ) && file_based_icon(old(config).apps@[i]) ==> icon_listed(
                old(config).apps@[i],
                r.1@,
            ),
{
    let ghost apps0 = old(config).apps@;
    let ghost ids = app_ids@;
    let n = app_ids.len();
    let mut errors: Vec<ErrorInfo> = Vec::new();
    let icons = doomed_icons(&config.apps, app_ids);
    let mut deleted_ids: Vec<String> = Vec::new();
    let mut succeeded: usize = 0;
    proof {
        assert(ids.take(0) =~= Seq::<String>::empty());
        lemma_filter_all(apps0, not_listed_app(ids.take(0)));
    }
    let mut k: usize = 0;
    while k < n
        invariant
            k <= n,
            n == ids.len(),
            ids == app_ids@,
            apps0 == old(config).apps@,
            apps_wf(apps0),
            config.version == old(config).version,
            config.settings == old(config).settings,
            config.categories == old(config).categories,
            config.apps@ == apps0.filter(not_listed_app(ids.take(k as int))),
            errors@.len() == delete_fail_count(apps0, ids, k as int),
            succeeded == k - errors@.len(),
            forall|kk: int|
                0 <= kk < k && delete_fails(apps0, ids, kk) ==> {
                    let e = errors@[delete_fail_count(apps0, ids, kk)];
                    &&& e.app_id@ == ids[kk]@
                    &&& e.error@ == "not found"@
                },
            forall|y: Seq<char>|
                #[trigger] id_listed(deleted_ids@, y) <==> (id_listed(ids.take(k as int), y)
                    && has_app_id(apps0, y)),
        decreases n - k,
    {
        let ghost p_k = not_listed_app(ids.take(k as int));
        let ghost p_k1 = not_listed_app(ids.take(k + 1));
        let ghost x = ids[k as int]@;
        let ghost cur = config.apps@;
        proof {
            lemma_filter_apps_wf(apps0, p_k);
            lemma_has_app_id_filter(apps0, p_k, x);
        }
        match find_app_index(&config.apps, app_ids[k].as_str()) {
            Some(i) => {
                // the attempt succeeds: the id names a surviving entry
                proof {
                    assert(has_app_id(cur, x)) by {
                        assert(cur[i as int].id@ == x);
                    }
                    assert(!delete_fails(apps0, ids, k as int));
                    lemma_filter_elements(apps0, p_k);
                    assert(apps0.contains(cur[i as int]));
                }
                let ghost j0 = choose|j0: int| 0 <= j0 < apps0.len() && apps0[j0] == cur[i as int];
                let app = config.apps.remove(i);
                proof {
                    assert(apps0[j0] == app);
                    assert forall|j: int| 0 <= j < cur.len() && j != i implies ne_app_id(x)(
                        #[trigger] cur[j],
                    ) by {
                        if j > i {
                            assert(cur[i as int].id@ != cur[j].id@);
                        }
                    }
                    assert(!ne_app_id(x)(cur[i as int]));
                    lemma_filter_single_out(cur, ne_app_id(x), i as int);
                    lemma_filter_filter(apps0, p_k, ne_app_id(x));
                    assert forall|j: int| 0 <= j < apps0.len() implies conj(p_k, ne_app_id(x))(
                        #[trigger] apps0[j],
                    ) == p_k1(apps0[j]) by {
                        lemma_id_listed_take_step(ids, k as int, apps0[j].id@);
                    }
                    lemma_filter_congruence(apps0, conj(p_k, ne_app_id(x)), p_k1);
                    assert(config.apps@ == apps0.filter(p_k1));
                    assert(id_listed(ids.take(k + 1), x)) by {
                        assert((ids.take(k + 1)[k as int])@ == x);
                    }
                }
                let ghost dl0 = deleted_ids@;
                deleted_ids.push(app_ids[k].clone());
                succeeded += 1;
                proof {
                    let dl = deleted_ids@;
                    assert(dl[dl.len() - 1]@ == x);
                    assert forall|y: Seq<char>| #[trigger] id_listed(dl, y) <==> (id_listed(
                        ids.take(k + 1),
                        y,
                    ) && has_app_id(apps0, y)) by {
                        lemma_id_listed_take_step(ids, k as int, y);
                        if id_listed(dl, y) {
                            let j = choose|j: int| 0 <= j < dl.len() && (#[trigger] dl[j])@ == y;
                            if j < dl.len() - 1 {
                                assert((dl0[j])@ == y);
                                assert(id_listed(dl0, y));
                            } else {
                                assert(y == x);
                            }
                        }
                        if id_listed(dl0, y) {
                            let j = choose|j: int| 0 <= j < dl0.len() && (#[trigger] dl0[j])@ == y;
                            assert((dl[j])@ == y);
                        }
                        if y == x && has_app_id(apps0, y) {
                            assert((dl[dl.len() - 1])@ == y);
                        }
                    }
                }
            },
            None => {
                proof {
                    assert(delete_fails(apps0, ids, k as int)) by {
                        if has_app_id(apps0, x) && !id_listed(ids.take(k as int), x) {
                            let j = choose|j: int|
                                0 <= j < apps0.len() && (#[trigger] apps0[j]).id@ == x;
                            assert(p_k(apps0[j]));
                        }
                    }
                }
                let ghost oe = errors@;
                errors.push(
                    ErrorInfo {
                        app_id: app_ids[k].clone(),
                        error: String::from_str("not found"),
                    },
                );
                proof {
                    assert forall|kk: int|
                        0 <= kk < k && delete_fails(apps0, ids, kk) implies errors@[delete_fail_count(
                        apps0,
                        ids,
                        kk,
                    )] == oe[delete_fail_count(apps0, ids, kk)] by {
                        lemma_delete_fail_slot(apps0, ids, kk, k as int);
                    }
                    lemma_delete_fail_count_mono(apps0, ids, 0, k as int);
                    // nothing was deleted: the keep predicate is unchanged
                    // on every entry of the starting catalog
                    assert forall|j: int| 0 <= j < apps0.len() implies p_k(#[trigger] apps0[j])
                        == p_k1(apps0[j]) by {
                        lemma_id_listed_take_step(ids, k as int, apps0[j].id@);
                    }
                    lemma_filter_congruence(apps0, p_k, p_k1);
                    // a failing id deletes nothing, so what is listed as
                    // deleted is unchanged
                    assert forall|y: Seq<char>| #[trigger] id_listed(deleted_ids@, y) <==> (
                    id_listed(ids.take(k + 1), y) && has_app_id(apps0, y)) by {
                        lemma_id_listed_take_step(ids, k as int, y);
                        if y == x && has_app_id(apps0, y) {
                            assert(id_listed(ids.take(k as int), x));
                        }
                    }
                }
            },
        }
        k += 1;
    }
    proof {
        assert(ids.take(n as int) =~= ids);
        lemma_filter_apps_wf(apps0, not_listed_app(ids));
    }
    // one purge over the categories: drop every id that was deleted
    let ghost cats0 = config.categories@;
    let cn = config.categories.len();
    let mut ci: usize = 0;
    while ci < cn
        invariant
            ci <= cn,
            cn == cats0.len(),
            cats0 == old(config).categories@,
            config.categories@.len() == cn,
            config.version == old(config).version,
            config.settings == old(config).settings,
            config.apps@ == apps0.filter(not_listed_app(ids)),
            apps0 == old(config).apps@,
            ids == app_ids@,
            forall|cj: int| ci <= cj < cn ==> config.categories@[cj] == cats0[cj],
            forall|cj: int|
                0 <= cj < ci ==> cat_members_filtered(
                    #[trigger] cats0[cj],
                    config.categories@[cj],
                    kept_not_in(deleted_ids@),
                ),
        decreases cn - ci,
    {
        let ghost curc = config.categories@;
        let mut cat = config.categories.remove(ci);
        cat.apps = kept_members(&cat.apps, &deleted_ids);
        config.categories.insert(ci, cat);
        proof {
            assert(config.categories@ =~= curc.update(ci as int, config.categories@[ci as int]));
        }
        ci += 1;
    }
    proof {
        // what the purge removed is exactly what the contract states
        assert forall|cj: int| 0 <= cj < cn implies cat_members_filtered(
            #[trigger] cats0[cj],
            config.categories@[cj],
            member_kept(ids, apps0),
        ) by {
            let members = cats0[cj].apps@;
            assert forall|t: int| 0 <= t < members.len() implies kept_not_in(deleted_ids@)(
                #[trigger] members[t],
            ) == member_kept(ids, apps0)(members[t]) by {
                assert(id_listed(deleted_ids@, members[t]@) <==> (id_listed(ids, members[t]@)
                    && has_app_id(apps0, members[t]@)));
            }
            lemma_filter_congruence(members, kept_not_in(deleted_ids@), member_kept(ids, apps0));
        }
        // category ids are untouched, so well-formedness carries over
        assert forall|i2: int, j2: int|
            0 <= i2 < j2 < config.categories@.len() implies (#[trigger] config.categories@[i2]).id@
            != (#[trigger] config.categories@[j2]).id@ by {
            assert(config.categories@[i2].id == cats0[i2].id);
            assert(config.categories@[j2].id == cats0[j2].id);
        }
    }
    let result = BatchOperationResult {
        total: n,
        completed: n,
        succeeded,
        failed: errors.len(),
        errors,
    };
    (result, icons)
}

} // verus!
