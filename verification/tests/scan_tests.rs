use rscoop_core::cache::{PackageCache, RefreshGate};
use rscoop_core::dirstate::{ActiveDir, PackageDirState, VersionDirState};
use rscoop_core::probe::{InstallFileState, ProbeError, ProbeResponse};
use rscoop_core::scan::{
    begin_refresh, complete_scan, note_root_change, plan_scan, ScanPlan, ScanStep,
};

fn version_dir(name: &str, install_mtime_ms: Option<u64>, manifest_mtime_ms: Option<u64>) -> VersionDirState {
    VersionDirState {
        name: name.to_string(),
        dir_mtime_ms: 1,
        install_mtime_ms,
        manifest_mtime_ms,
    }
}

fn linked_dir(name: &str, stamp: u64) -> PackageDirState {
    PackageDirState {
        name: Some(name.to_string()),
        current: Some(version_dir("current", Some(stamp), None)),
        entries: Vec::new(),
        dir_mtime_ms: 1,
    }
}

fn response(name: &str, manifest_text: Option<&str>) -> ProbeResponse {
    ProbeResponse {
        name: name.to_string(),
        manifest_text: manifest_text.map(|t| t.to_string()),
        install_file: InstallFileState::Absent,
        install_mtime_ms: None,
        bucket_checks: Vec::new(),
    }
}

fn plan_of(step: ScanStep) -> ScanPlan {
    match step {
        ScanStep::Probe(plan) => plan,
        other => panic!("expected a probe plan, got {:?}", other),
    }
}

#[test]
fn missing_root_returns_empty_and_clears_cache() {
    let mut cache = PackageCache::new();
    let dirs = vec![linked_dir("foo", 10)];
    let plan = plan_of(plan_scan(Some(&dirs), &mut cache));
    let (stored, failures) = complete_scan(
        &vec![response("foo", Some("{\"version\":\"1.0\"}"))],
        plan.fingerprint,
        &mut cache,
    );
    assert_eq!(stored.len(), 1);
    assert!(failures.is_empty());
    assert!(cache.read().is_some());

    // The apps directory disappears between two calls: empty result, and the
    // cache no longer serves the old data.
    let step = plan_scan(None, &mut cache);
    assert!(matches!(step, ScanStep::RootMissing));
    assert!(cache.read().is_none());
}

#[test]
fn cache_hit_skips_probing_and_returns_cached_packages() {
    let mut cache = PackageCache::new();
    let dirs = vec![linked_dir("foo", 10), linked_dir("bar", 20)];
    let plan = plan_of(plan_scan(Some(&dirs), &mut cache));
    assert_eq!(plan.tasks.len(), 2);
    let responses = vec![
        response("foo", Some("{\"version\":\"1.0\"}")),
        response("bar", Some("{\"version\":\"2.0\"}")),
    ];
    let (scanned, _) = complete_scan(&responses, plan.fingerprint, &mut cache);
    assert_eq!(scanned.len(), 2);

    // Unchanged state: the second scan answers from the cache; no probe plan
    // is handed out, so no package is probed.
    match plan_scan(Some(&dirs), &mut cache) {
        ScanStep::CacheHit(cached) => assert_eq!(cached, scanned),
        other => panic!("expected a cache hit, got {:?}", other),
    }
}

#[test]
fn changed_state_forces_rescan() {
    let mut cache = PackageCache::new();
    let dirs = vec![linked_dir("foo", 10)];
    let plan = plan_of(plan_scan(Some(&dirs), &mut cache));
    complete_scan(
        &vec![response("foo", Some("{\"version\":\"1.0\"}"))],
        plan.fingerprint,
        &mut cache,
    );

    // A touched active version directory misses the cache.
    let touched = vec![linked_dir("foo", 11)];
    assert!(matches!(
        plan_scan(Some(&touched), &mut cache),
        ScanStep::Probe(_)
    ));

    // An added package misses the cache.
    let grown = vec![linked_dir("foo", 10), linked_dir("bar", 20)];
    assert!(matches!(
        plan_scan(Some(&grown), &mut cache),
        ScanStep::Probe(_)
    ));

    // A removed package misses the cache.
    let empty: Vec<PackageDirState> = Vec::new();
    assert!(matches!(
        plan_scan(Some(&empty), &mut cache),
        ScanStep::Probe(_)
    ));
}

#[test]
fn plan_names_tasks_and_skips() {
    let mut cache = PackageCache::new();
    let dirs = vec![
        PackageDirState {
            name: None,
            current: None,
            entries: Vec::new(),
            dir_mtime_ms: 1,
        },
        linked_dir("foo", 10),
        PackageDirState {
            name: Some("hollow".to_string()),
            current: None,
            entries: Vec::new(),
            dir_mtime_ms: 1,
        },
        PackageDirState {
            name: Some("bar".to_string()),
            current: None,
            entries: vec![version_dir("2.0", None, Some(50))],
            dir_mtime_ms: 1,
        },
    ];
    let plan = plan_of(plan_scan(Some(&dirs), &mut cache));
    assert_eq!(plan.tasks.len(), 2);
    assert_eq!(plan.tasks[0].dir_index, 1);
    assert_eq!(plan.tasks[0].name, "foo");
    assert_eq!(plan.tasks[0].active, ActiveDir::CurrentLink);
    assert_eq!(plan.tasks[1].dir_index, 3);
    assert_eq!(plan.tasks[1].name, "bar");
    assert_eq!(plan.tasks[1].active, ActiveDir::VersionAt(0));
    assert_eq!(plan.skipped.len(), 2);
    assert_eq!(plan.skipped[0].dir_index, 0);
    assert_eq!(plan.skipped[0].reason, ProbeError::InvalidDirectoryName);
    assert_eq!(plan.skipped[1].dir_index, 2);
    assert_eq!(plan.skipped[1].reason, ProbeError::NoActiveVersion);
}

#[test]
fn one_malformed_package_is_dropped_not_fatal() {
    let mut cache = PackageCache::new();
    let dirs = vec![
        linked_dir("good", 10),
        linked_dir("broken", 20),
        linked_dir("fine", 30),
    ];
    let plan = plan_of(plan_scan(Some(&dirs), &mut cache));
    let responses = vec![
        response("good", Some("{\"version\":\"1.0\"}")),
        response("broken", Some("{\"version\":")),
        response("fine", Some("{\"version\":\"3.0\"}")),
    ];
    let (scanned, failures) = complete_scan(&responses, plan.fingerprint, &mut cache);
    assert_eq!(scanned.len(), 2);
    assert_eq!(scanned[0].name, "good");
    assert_eq!(scanned[1].name, "fine");
    assert_eq!(failures.len(), 1);
    assert_eq!(failures[0].response_index, 1);
    assert_eq!(failures[0].reason, ProbeError::ManifestMalformed);
    // The failure also does not poison the cache: the two good records are
    // served on the next call.
    match plan_scan(Some(&dirs), &mut cache) {
        ScanStep::CacheHit(cached) => assert_eq!(cached.len(), 2),
        other => panic!("expected a cache hit, got {:?}", other),
    }
}

#[test]
fn end_to_end_two_package_layout() {
    // apps/foo/current -> 1.0 with manifest and install metadata naming the
    // main bucket; apps/bar/2.0 without a current link or install metadata.
    let mut cache = PackageCache::new();
    let dirs = vec![
        PackageDirState {
            name: Some("foo".to_string()),
            current: Some(version_dir("current", Some(100), Some(90))),
            entries: vec![version_dir("1.0", Some(100), Some(90))],
            dir_mtime_ms: 1,
        },
        PackageDirState {
            name: Some("bar".to_string()),
            current: None,
            entries: vec![version_dir("2.0", None, Some(80))],
            dir_mtime_ms: 1,
        },
    ];
    let plan = plan_of(plan_scan(Some(&dirs), &mut cache));
    assert_eq!(plan.tasks.len(), 2);
    let responses = vec![
        ProbeResponse {
            name: "foo".to_string(),
            manifest_text: Some("{\"version\":\"1.0\",\"description\":\"Foo tool\"}".to_string()),
            install_file: InstallFileState::Content("{\"bucket\":\"main\"}".to_string()),
            install_mtime_ms: Some(100),
            bucket_checks: Vec::new(),
        },
        ProbeResponse {
            name: "bar".to_string(),
            manifest_text: Some("{\"version\":\"2.0\"}".to_string()),
            install_file: InstallFileState::Absent,
            install_mtime_ms: None,
            bucket_checks: Vec::new(),
        },
    ];
    let (scanned, failures) = complete_scan(&responses, plan.fingerprint, &mut cache);
    assert_eq!(scanned.len(), 2);
    assert!(failures.is_empty());
    let foo = &scanned[0];
    assert_eq!(foo.name, "foo");
    assert_eq!(foo.version, "1.0");
    assert_eq!(foo.source, "main");
    assert_eq!(foo.info, "Foo tool");
    assert!(!foo.is_versioned_install);
    let bar = &scanned[1];
    assert_eq!(bar.name, "bar");
    assert_eq!(bar.version, "2.0");
    assert_eq!(bar.source, "main");
    assert_eq!(bar.info, "");
    assert!(bar.is_versioned_install);
}

#[test]
fn changed_root_invalidates_cache() {
    let mut cache = PackageCache::new();
    let dirs = vec![linked_dir("foo", 10)];
    let plan = plan_of(plan_scan(Some(&dirs), &mut cache));
    complete_scan(
        &vec![response("foo", Some("{\"version\":\"1.0\"}"))],
        plan.fingerprint,
        &mut cache,
    );
    let old_root = "C:\\Users\\one\\scoop".to_string();
    assert!(!note_root_change(&old_root, &old_root, &mut cache));
    assert!(cache.read().is_some());
    let new_root = "C:\\ProgramData\\scoop".to_string();
    assert!(note_root_change(&old_root, &new_root, &mut cache));
    assert!(cache.read().is_none());
}

#[test]
fn refresh_debounces_within_window() {
    let mut cache = PackageCache::new();
    let mut gate = RefreshGate::new();

    // First refresh proceeds: it clears the cache and asks for a scan.
    assert!(begin_refresh(&mut gate, &mut cache, 5_000).is_none());
    let dirs = vec![linked_dir("foo", 10)];
    let plan = plan_of(plan_scan(Some(&dirs), &mut cache));
    let (scanned, _) = complete_scan(
        &vec![response("foo", Some("{\"version\":\"1.0\"}"))],
        plan.fingerprint,
        &mut cache,
    );

    // A refresh inside the window returns the cached list and leaves the
    // cache alone: no second scan happens.
    let debounced = begin_refresh(&mut gate, &mut cache, 5_999).unwrap();
    assert_eq!(debounced, scanned);
    assert!(cache.read().is_some());

    // At the window's edge the refresh proceeds again: cache cleared, scan due.
    assert!(begin_refresh(&mut gate, &mut cache, 6_000).is_none());
    assert!(cache.read().is_none());
}

#[test]
fn refresh_with_empty_cache_always_scans() {
    let mut cache = PackageCache::new();
    let mut gate = RefreshGate::new();
    assert!(begin_refresh(&mut gate, &mut cache, 5_000).is_none());
    // Within the window but with nothing cached, the refresh proceeds.
    assert!(begin_refresh(&mut gate, &mut cache, 5_100).is_none());
}
