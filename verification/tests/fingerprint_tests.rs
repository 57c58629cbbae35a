use rscoop_core::dirstate::{PackageDirState, VersionDirState};
use rscoop_core::fingerprint::compute_apps_fingerprint;

fn version_dir(
    name: &str,
    dir_mtime_ms: u64,
    install_mtime_ms: Option<u64>,
    manifest_mtime_ms: Option<u64>,
) -> VersionDirState {
    VersionDirState {
        name: name.to_string(),
        dir_mtime_ms,
        install_mtime_ms,
        manifest_mtime_ms,
    }
}

fn foo_dir() -> PackageDirState {
    PackageDirState {
        name: Some("Foo".to_string()),
        current: Some(version_dir("current", 5, Some(111), Some(100))),
        entries: Vec::new(),
        dir_mtime_ms: 1,
    }
}

fn bar_dir() -> PackageDirState {
    PackageDirState {
        name: Some("bar".to_string()),
        current: None,
        entries: vec![version_dir("1.0", 7, None, Some(222))],
        dir_mtime_ms: 2,
    }
}

#[test]
fn fingerprint_exact_value() {
    let dirs = vec![foo_dir(), bar_dir()];
    let fp = compute_apps_fingerprint(&dirs);
    assert_eq!(fp, "2|bar:222;foo:111");
}

#[test]
fn fingerprint_idempotent() {
    let dirs = vec![foo_dir(), bar_dir()];
    let first = compute_apps_fingerprint(&dirs);
    let second = compute_apps_fingerprint(&dirs);
    assert_eq!(first, second);
}

#[test]
fn fingerprint_order_independent() {
    let forward = vec![foo_dir(), bar_dir()];
    let backward = vec![bar_dir(), foo_dir()];
    assert_eq!(
        compute_apps_fingerprint(&forward),
        compute_apps_fingerprint(&backward)
    );
}

#[test]
fn fingerprint_changes_when_package_added() {
    let two = vec![foo_dir(), bar_dir()];
    let mut three = vec![foo_dir(), bar_dir()];
    three.push(PackageDirState {
        name: Some("baz".to_string()),
        current: Some(version_dir("current", 9, Some(333), None)),
        entries: Vec::new(),
        dir_mtime_ms: 3,
    });
    assert_ne!(
        compute_apps_fingerprint(&two),
        compute_apps_fingerprint(&three)
    );
}

#[test]
fn fingerprint_changes_when_package_removed() {
    let two = vec![foo_dir(), bar_dir()];
    let one = vec![foo_dir()];
    assert_ne!(
        compute_apps_fingerprint(&two),
        compute_apps_fingerprint(&one)
    );
}

#[test]
fn fingerprint_changes_when_stamp_changes() {
    let before = vec![foo_dir(), bar_dir()];
    let mut touched = vec![foo_dir(), bar_dir()];
    touched[1].entries[0].manifest_mtime_ms = Some(223);
    assert_ne!(
        compute_apps_fingerprint(&before),
        compute_apps_fingerprint(&touched)
    );
}

#[test]
fn fingerprint_counts_undecodable_names() {
    let dirs = vec![PackageDirState {
        name: None,
        current: None,
        entries: Vec::new(),
        dir_mtime_ms: 4,
    }];
    assert_eq!(compute_apps_fingerprint(&dirs), "1|");
}

#[test]
fn fingerprint_of_empty_listing() {
    let dirs: Vec<PackageDirState> = Vec::new();
    assert_eq!(compute_apps_fingerprint(&dirs), "0|");
}

#[test]
fn fingerprint_renders_zero_and_wide_stamps() {
    let dirs = vec![
        PackageDirState {
            name: Some("old".to_string()),
            current: Some(version_dir("current", 0, Some(0), None)),
            entries: Vec::new(),
            dir_mtime_ms: 0,
        },
        PackageDirState {
            name: Some("big".to_string()),
            current: Some(version_dir("current", 0, Some(1_234_567_890_123), None)),
            entries: Vec::new(),
            dir_mtime_ms: 0,
        },
    ];
    assert_eq!(compute_apps_fingerprint(&dirs), "2|big:1234567890123;old:0");
}

#[test]
fn fingerprint_lowercases_names() {
    let dirs = vec![foo_dir()];
    assert_eq!(compute_apps_fingerprint(&dirs), "1|foo:111");
}

#[test]
fn fingerprint_falls_back_to_directory_mtime() {
    // No current link and no version candidates: the package directory's own
    // modification time stands in.
    let dirs = vec![PackageDirState {
        name: Some("lonely".to_string()),
        current: None,
        entries: vec![version_dir("notes", 7, None, None)],
        dir_mtime_ms: 42,
    }];
    assert_eq!(compute_apps_fingerprint(&dirs), "1|lonely:42");
}

#[test]
fn fingerprint_ignores_current_entry_in_fallback() {
    // The `current` entry never counts as a fallback version directory, in
    // any letter case.
    let dirs = vec![PackageDirState {
        name: Some("pkg".to_string()),
        current: None,
        entries: vec![
            version_dir("CURRENT", 9, Some(900), None),
            version_dir("2.0", 8, Some(800), None),
        ],
        dir_mtime_ms: 3,
    }];
    assert_eq!(compute_apps_fingerprint(&dirs), "1|pkg:800");
}

#[test]
fn latest_version_prefers_most_recent_and_first_on_tie() {
    // Two candidates with the same effective time: the earlier entry wins;
    // a strictly newer one wins outright.
    let tie = vec![PackageDirState {
        name: Some("pkg".to_string()),
        current: None,
        entries: vec![
            version_dir("1.0", 1, Some(500), None),
            version_dir("1.1", 1, Some(500), None),
        ],
        dir_mtime_ms: 3,
    }];
    assert_eq!(compute_apps_fingerprint(&tie), "1|pkg:500");
    let newer = vec![PackageDirState {
        name: Some("pkg".to_string()),
        current: None,
        entries: vec![
            version_dir("1.0", 1, Some(500), None),
            version_dir("1.1", 1, Some(600), None),
        ],
        dir_mtime_ms: 3,
    }];
    assert_eq!(compute_apps_fingerprint(&newer), "1|pkg:600");
}
