//! The scan orchestrator. A scan runs in two decision steps around the
//! filesystem work that the surrounding binary performs:
//!
//! 1. [`plan_scan`] takes the enumerated `apps` directory listing, computes
//!    the fingerprint and answers from the cache when it matches; otherwise it
//!    hands back a probe plan naming each package's active version directory.
//! 2. The binary reads the planned files and calls [`complete_scan`], which
//!    probes every package in parallel, keeps the successes, stores the new
//!    cache entry and returns the records.
//!
//! [`begin_refresh`] is the debounced force-refresh decision in front of a
//! scan.

use vstd::prelude::*;
use crate::cache::{spec_should_debounce, CacheEntry, CacheEntryModel, PackageCache, RefreshGate};
use crate::dirstate::{dir_models, locate_install_dir, ActiveDir, PackageDirModel, PackageDirState};
use crate::fingerprint::{compute_apps_fingerprint, spec_fingerprint};
use crate::model::{duplicate_packages, package_models, PackageModel, ScoopPackage};
use crate::probe::{probe_package, probe_result_model, spec_probe, ProbeError, ProbeResponse, ProbeResponseModel};
use crate::dirstate::spec_latest_candidate;
use rayon::prelude::ParallelIterator;
use rayon::prelude::IntoParallelRefIterator;

verus! {

/// Which directory a probe task should read, at the spec level.
pub enum ActiveChoice {
    UseCurrent,
    UseVersion(int),
}

/// One package directory to probe: its index in the listing, its name, and
/// its active version directory.
#[derive(Clone, Debug, PartialEq, Eq)]
pub struct ProbeTask {
    pub dir_index: usize,
    pub name: String,
    pub active: ActiveDir,
}

/// Model of a [`ProbeTask`].
pub struct TaskModel {
    pub dir_index: int,
    pub name: Seq<char>,
    pub active: ActiveChoice,
}

impl View for ProbeTask {
    type V = TaskModel;

    open spec fn view(&self) -> TaskModel {
        TaskModel {
            dir_index: self.dir_index as int,
            name: self.name@,
            active: match self.active {
                ActiveDir::CurrentLink => ActiveChoice::UseCurrent,
                ActiveDir::VersionAt(i) => ActiveChoice::UseVersion(i as int),
            },
        }
    }
}

/// One package directory the scan skips, and why.
#[derive(Clone, Debug, PartialEq, Eq)]
pub struct SkippedDir {
    pub dir_index: usize,
    pub reason: ProbeError,
}

/// Model of a [`SkippedDir`].
pub struct SkipModel {
    pub dir_index: int,
    pub reason: ProbeError,
}

impl View for SkippedDir {
    type V = SkipModel;

    open spec fn view(&self) -> SkipModel {
        SkipModel { dir_index: self.dir_index as int, reason: self.reason }
    }
}

/// What a cache miss asks the binary to do: read these packages' files, then
/// call [`complete_scan`] with this fingerprint.
#[derive(Clone, Debug, PartialEq, Eq)]
pub struct ScanPlan {
    pub fingerprint: String,
    pub tasks: Vec<ProbeTask>,
    pub skipped: Vec<SkippedDir>,
}

/// Model of a [`ScanPlan`].
pub struct PlanModel {
    pub fingerprint: Seq<char>,
    pub tasks: Seq<TaskModel>,
    pub skipped: Seq<SkipModel>,
}

impl View for ScanPlan {
    type V = PlanModel;

    open spec fn view(&self) -> PlanModel {
        PlanModel {
            fingerprint: self.fingerprint@,
            tasks: self.tasks@.map_values(|t: ProbeTask| t@),
            skipped: self.skipped@.map_values(|s: SkippedDir| s@),
        }
    }
}

/// Outcome of the first scan step.
#[derive(Debug)]
pub enum ScanStep {
    /// The installation root's `apps` directory is missing: the scan result
    /// is an empty list and the cache has been cleared.
    RootMissing,
    /// The cache fingerprint matches the filesystem: these are the cached
    /// records, and no package was probed.
    CacheHit(Vec<ScoopPackage>),
    /// The cache cannot answer: probe the planned packages.
    Probe(ScanPlan),
}

/// What the scan decides for one package directory: probe it (name and active
/// directory), or skip it for the given reason.
pub open spec fn spec_dir_decision(d: PackageDirModel) -> Result<
    (Seq<char>, ActiveChoice),
    ProbeError,
> {
    match d.name {
        Option::None => Result::Err(ProbeError::InvalidDirectoryName),
        Option::Some(n) => if d.current is Some {
            Result::Ok((n, ActiveChoice::UseCurrent))
        } else {
            match spec_latest_candidate(d.entries) {
                Option::Some(j) => Result::Ok((n, ActiveChoice::UseVersion(j))),
                Option::None => Result::Err(ProbeError::NoActiveVersion),
            }
        },
    }
}

/// The probe tasks of a directory listing, in listing order.
pub open spec fn spec_plan_tasks(dirs: Seq<PackageDirModel>) -> Seq<TaskModel>
    decreases dirs.len(),
{
    if dirs.len() == 0 {
        Seq::empty()
    } else {
        let rest = spec_plan_tasks(dirs.drop_last());
        match spec_dir_decision(dirs.last()) {
            Result::Ok(na) => rest.push(
                TaskModel { dir_index: dirs.len() - 1, name: na.0, active: na.1 },
            ),
            Result::Err(_) => rest,
        }
    }
}

/// The skipped directories of a listing, in listing order.
pub open spec fn spec_plan_skipped(dirs: Seq<PackageDirModel>) -> Seq<SkipModel>
    decreases dirs.len(),
{
    if dirs.len() == 0 {
        Seq::empty()
    } else {
        let rest = spec_plan_skipped(dirs.drop_last());
        match spec_dir_decision(dirs.last()) {
            Result::Ok(_) => rest,
            Result::Err(e) => rest.push(SkipModel { dir_index: dirs.len() - 1, reason: e }),
        }
    }
}

/// Whether the cache holds an entry for exactly this fingerprint.
pub open spec fn spec_cache_hit(c: Option<CacheEntryModel>, fp: Seq<char>) -> bool {
    match c {
        Option::Some(e) => e.fingerprint == fp,
        Option::None => false,
    }
}

/// First scan step. `dirs` is the listing of the `apps` directory's immediate
/// subdirectories, or `None` when `apps` is missing even after the caller
/// re-resolved the installation root; then the result is empty and the cache
/// is cleared. Otherwise the fingerprint of the listing decides: on a match
/// the cached records come back untouched and nothing more is read; on a miss
/// the returned plan names every probeable package and its active version
/// directory.
pub fn plan_scan(dirs: Option<&Vec<PackageDirState>>, cache: &mut PackageCache) -> (r: ScanStep)
    ensures
        dirs is None ==> (final(cache)@ is None && r is RootMissing),
        dirs matches Option::Some(ds) ==> ({
            let fp = spec_fingerprint(dir_models(ds@));
            &&& final(cache)@ == old(cache)@
            &&& (old(cache)@ matches Option::Some(entry) ==> (entry.fingerprint == fp ==> (
                r matches ScanStep::CacheHit(pkgs) && package_models(pkgs@) == entry.packages)))
            &&& (!spec_cache_hit(old(cache)@, fp) ==> (r matches ScanStep::Probe(plan) && ({
                &&& plan@.fingerprint == fp
                &&& plan@.tasks == spec_plan_tasks(dir_models(ds@))
                &&& plan@.skipped == spec_plan_skipped(dir_models(ds@))
            })))
        }),
{
    let ds: &Vec<PackageDirState> = match dirs {
        Option::Some(ds) => ds,
        Option::None => {
            cache.clear();
            return ScanStep::RootMissing;
        },
    };
    let fingerprint = compute_apps_fingerprint(ds);
    match cache.read() {
        Option::Some(entry) => {
            if entry.fingerprint == fingerprint {
                return ScanStep::CacheHit(duplicate_packages(&entry.packages));
            }
        },
        Option::None => {},
    }
    let mut tasks: Vec<ProbeTask> = Vec::new();
    let mut skipped: Vec<SkippedDir> = Vec::new();
    let mut i: usize = 0;
    while i < ds.len()
        invariant
            i <= ds@.len(),
            tasks@.map_values(|t: ProbeTask| t@) == spec_plan_tasks(
                dir_models(ds@.subrange(0, i as int)),
            ),
            skipped@.map_values(|s: SkippedDir| s@) == spec_plan_skipped(
                dir_models(ds@.subrange(0, i as int)),
            ),
        decreases ds@.len() - i,
    {
        let ghost prefix = dir_models(ds@.subrange(0, i as int));
        let ghost next = dir_models(ds@.subrange(0, i + 1));
        proof {
            assert(next.drop_last() =~= prefix);
            assert(next.last() == ds@[i as int]@);
        }
        let d = &ds[i];
        match d.name {
            Option::Some(ref n) => {
                match locate_install_dir(d) {
                    Option::Some(active) => {
                        let ghost before = tasks@;
                        tasks.push(ProbeTask { dir_index: i, name: n.clone(), active });
                        proof {
                            assert(tasks@.map_values(|t: ProbeTask| t@) =~= before.map_values(
                                |t: ProbeTask| t@,
                            ).push(tasks@.last()@));
                            assert(skipped@.map_values(|s: SkippedDir| s@) =~= spec_plan_skipped(
                                next,
                            ));
                        }
                    },
                    Option::None => {
                        let ghost before = skipped@;
                        skipped.push(SkippedDir { dir_index: i, reason: ProbeError::NoActiveVersion });
                        proof {
                            assert(skipped@.map_values(|s: SkippedDir| s@) =~= before.map_values(
                                |s: SkippedDir| s@,
                            ).push(skipped@.last()@));
                            assert(tasks@.map_values(|t: ProbeTask| t@) =~= spec_plan_tasks(next));
                        }
                    },
                }
            },
            Option::None => {
                let ghost before = skipped@;
                skipped.push(
                    SkippedDir { dir_index: i, reason: ProbeError::InvalidDirectoryName },
                );
                proof {
                    assert(skipped@.map_values(|s: SkippedDir| s@) =~= before.map_values(
                        |s: SkippedDir| s@,
                    ).push(skipped@.last()@));
                    assert(tasks@.map_values(|t: ProbeTask| t@) =~= spec_plan_tasks(next));
                }
            },
        }
        i = i + 1;
    }
    proof {
        assert(ds@.subrange(0, ds@.len() as int) =~= ds@);
    }
    ScanStep::Probe(ScanPlan { fingerprint, tasks, skipped })
}

/// The models of a list of probe responses, element by element.
pub open spec fn response_models(s: Seq<ProbeResponse>) -> Seq<ProbeResponseModel> {
    s.map_values(|p: ProbeResponse| p@)
}

/// The models of a list of probe results, element by element.
pub open spec fn probe_results_models(s: Seq<Result<ScoopPackage, ProbeError>>) -> Seq<
    Result<PackageModel, ProbeError>,
> {
    s.map_values(|r: Result<ScoopPackage, ProbeError>| probe_result_model(r))
}

/// What probing each response yields.
pub open spec fn spec_probe_all(ms: Seq<ProbeResponseModel>) -> Seq<
    Result<PackageModel, ProbeError>,
> {
    ms.map_values(|m: ProbeResponseModel| spec_probe(m))
}

/// Relies on rayon (`par_iter`, `map`, `collect`): the probe runs on every
/// response independently, and the outcomes are collected in input order.
/// The closure only calls this crate's verified probe.
#[verifier::external_body]
fn probe_all_parallel(responses: &Vec<ProbeResponse>) -> (r: Vec<
    Result<ScoopPackage, ProbeError>,
>)
    ensures
        probe_results_models(r@) == spec_probe_all(response_models(responses@)),
{
    responses.par_iter().map(probe_package).collect()
}

/// The records of the successful probes, in input order; failures are dropped.
pub open spec fn spec_successes(results: Seq<Result<PackageModel, ProbeError>>) -> Seq<
    PackageModel,
>
    decreases results.len(),
{
    if results.len() == 0 {
        Seq::empty()
    } else {
        let rest = spec_successes(results.drop_last());
        match results.last() {
            Result::Ok(p) => rest.push(p),
            Result::Err(_) => rest,
        }
    }
}

/// One probe that failed: the position of its response, and why. Handed back
/// so the caller can log the package and reason; never fatal.
#[derive(Clone, Copy, Debug, PartialEq, Eq, Structural)]
pub struct ProbeFailure {
    pub response_index: usize,
    pub reason: ProbeError,
}

/// Model of a [`ProbeFailure`].
pub struct FailureModel {
    pub response_index: int,
    pub reason: ProbeError,
}

impl View for ProbeFailure {
    type V = FailureModel;

    open spec fn view(&self) -> FailureModel {
        FailureModel { response_index: self.response_index as int, reason: self.reason }
    }
}

/// The failed probes, in input order.
pub open spec fn spec_failures(results: Seq<Result<PackageModel, ProbeError>>) -> Seq<
    FailureModel,
>
    decreases results.len(),
{
    if results.len() == 0 {
        Seq::empty()
    } else {
        let rest = spec_failures(results.drop_last());
        match results.last() {
            Result::Ok(_) => rest,
            Result::Err(e) => rest.push(
                FailureModel { response_index: results.len() - 1, reason: e },
            ),
        }
    }
}

/// Second scan step: probes every planned package in parallel, keeps exactly
/// the successful records, stores them in the cache under the scan's
/// fingerprint, and returns them together with the failures. A package whose
/// probe fails is dropped from the records; the scan itself always succeeds.
pub fn complete_scan(
    responses: &Vec<ProbeResponse>,
    fingerprint: String,
    cache: &mut PackageCache,
) -> (r: (Vec<ScoopPackage>, Vec<ProbeFailure>))
    ensures
        package_models(r.0@) == spec_successes(spec_probe_all(response_models(responses@))),
        r.1@.map_values(|f: ProbeFailure| f@) == spec_failures(
            spec_probe_all(response_models(responses@)),
        ),
        final(cache)@ matches Option::Some(entry) && entry.fingerprint == fingerprint@
            && entry.packages == package_models(r.0@),
{
    let results = probe_all_parallel(responses);
    let ghost result_models = probe_results_models(results@);
    let mut packages: Vec<ScoopPackage> = Vec::new();
    let mut failures: Vec<ProbeFailure> = Vec::new();
    let mut i: usize = 0;
    while i < results.len()
        invariant
            i <= results@.len(),
            result_models == probe_results_models(results@),
            package_models(packages@) == spec_successes(result_models.subrange(0, i as int)),
            failures@.map_values(|f: ProbeFailure| f@) == spec_failures(
                result_models.subrange(0, i as int),
            ),
        decreases results@.len() - i,
    {
        let ghost prefix = result_models.subrange(0, i as int);
        let ghost next = result_models.subrange(0, i + 1);
        proof {
            assert(next.drop_last() =~= prefix);
            assert(next.last() == probe_result_model(results@[i as int]));
        }
        match &results[i] {
            Result::Ok(p) => {
                let ghost before = packages@;
                packages.push(p.duplicate());
                proof {
                    assert(package_models(packages@) =~= package_models(before).push(
                        packages@.last()@,
                    ));
                }
            },
            Result::Err(e) => {
                let ghost before = failures@;
                failures.push(ProbeFailure { response_index: i, reason: *e });
                proof {
                    assert(failures@.map_values(|f: ProbeFailure| f@) =~= before.map_values(
                        |f: ProbeFailure| f@,
                    ).push(failures@.last()@));
                }
            },
        }
        i = i + 1;
    }
    proof {
        assert(result_models.subrange(0, result_models.len() as int) =~= result_models);
    }
    let stored = duplicate_packages(&packages);
    cache.write(CacheEntry { packages: stored, fingerprint });
    (packages, failures)
}

/// The root-change decision: when the installation root resolves to a
/// different path than the one the cache was filled under, the cached records
/// describe the wrong tree and are dropped; an unchanged root leaves the
/// cache alone. Returns whether the root changed.
pub fn note_root_change(previous: &String, resolved: &String, cache: &mut PackageCache) -> (r:
    bool)
    ensures
        r == (previous@ != resolved@),
        previous@ != resolved@ ==> final(cache)@ is None,
        previous@ == resolved@ ==> final(cache)@ == old(cache)@,
{
    if *previous == *resolved {
        false
    } else {
        cache.clear();
        true
    }
}

/// The debounced force-refresh decision. Within the debounce window and with
/// a populated cache, the cached records come back and nothing changes;
/// otherwise the refresh time is recorded, the cache is cleared, and the
/// caller must scan (`None`).
pub fn begin_refresh(gate: &mut RefreshGate, cache: &mut PackageCache, now_ms: u64) -> (r:
    Option<Vec<ScoopPackage>>)
    ensures
        spec_should_debounce(old(gate)@, now_ms) && old(cache)@ is Some ==> ({
            &&& r matches Option::Some(pkgs) && (old(cache)@ matches Option::Some(entry)
                && package_models(pkgs@) == entry.packages)
            &&& final(gate)@ == old(gate)@
            &&& final(cache)@ == old(cache)@
        }),
        !(spec_should_debounce(old(gate)@, now_ms) && old(cache)@ is Some) ==> ({
            &&& r is None
            &&& final(gate)@ == Option::Some(now_ms)
            &&& final(cache)@ is None
        }),
{
    if gate.should_debounce_refresh(now_ms) {
        match cache.read() {
            Option::Some(entry) => {
                return Option::Some(duplicate_packages(&entry.packages));
            },
            Option::None => {},
        }
    }
    gate.update_refresh_time(now_ms);
    cache.clear();
    Option::None
}

/// Law: a second refresh at `t1`, inside the debounce window opened by a
/// refresh at `t0`, is absorbed: while the cache holds an entry it returns
/// the cached list unchanged. Once the window has passed, the coordinator
/// records the new time, clears the cache and rescans.
pub proof fn lemma_debounce_window(t0: u64, t1: u64)
    requires
        t0 <= t1,
    ensures
        t1 - t0 < crate::cache::REFRESH_DEBOUNCE_MS ==> spec_should_debounce(
            Option::Some(t0),
            t1,
        ),
        t1 - t0 >= crate::cache::REFRESH_DEBOUNCE_MS ==> !spec_should_debounce(
            Option::Some(t0),
            t1,
        ),
{
}

} // verus!
