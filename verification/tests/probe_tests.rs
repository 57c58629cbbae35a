use rscoop_core::probe::{
    find_package_bucket, probe_package, BucketCheck, InstallFileState, ProbeError, ProbeResponse,
};

fn response(
    manifest_text: Option<&str>,
    install_file: InstallFileState,
    install_mtime_ms: Option<u64>,
    bucket_checks: Vec<BucketCheck>,
) -> ProbeResponse {
    ProbeResponse {
        name: "foo".to_string(),
        manifest_text: manifest_text.map(|t| t.to_string()),
        install_file,
        install_mtime_ms,
        bucket_checks,
    }
}

fn check(name: &str, has_manifest: bool) -> BucketCheck {
    BucketCheck {
        name: name.to_string(),
        has_manifest,
    }
}

#[test]
fn probe_reads_manifest_and_install_metadata() {
    let r = response(
        Some("{\"version\":\"1.0\",\"description\":\"Foo tool\"}"),
        InstallFileState::Content("{\"bucket\":\"main\"}".to_string()),
        Some(1_700_000_000_000),
        Vec::new(),
    );
    let pkg = probe_package(&r).unwrap();
    assert_eq!(pkg.name, "foo");
    assert_eq!(pkg.version, "1.0");
    assert_eq!(pkg.info, "Foo tool");
    assert_eq!(pkg.source, "main");
    assert!(pkg.is_installed);
    assert!(!pkg.is_versioned_install);
    let expected = chrono::DateTime::<chrono::Utc>::from_timestamp_millis(1_700_000_000_000)
        .unwrap()
        .to_rfc3339();
    assert_eq!(pkg.updated, expected);
}

#[test]
fn probe_description_defaults_to_empty() {
    let r = response(
        Some("{\"version\":\"2.0\"}"),
        InstallFileState::Absent,
        None,
        Vec::new(),
    );
    let pkg = probe_package(&r).unwrap();
    assert_eq!(pkg.version, "2.0");
    assert_eq!(pkg.info, "");
    assert_eq!(pkg.updated, "");
}

#[test]
fn probe_description_null_is_empty() {
    let r = response(
        Some("{\"version\":\"2.0\",\"description\":null}"),
        InstallFileState::Absent,
        None,
        Vec::new(),
    );
    assert_eq!(probe_package(&r).unwrap().info, "");
}

#[test]
fn probe_unreadable_manifest_fails() {
    let r = response(None, InstallFileState::Absent, None, Vec::new());
    assert_eq!(probe_package(&r).unwrap_err(), ProbeError::ManifestUnreadable);
}

#[test]
fn probe_malformed_manifest_fails() {
    let broken = response(Some("{"), InstallFileState::Absent, None, Vec::new());
    assert_eq!(
        probe_package(&broken).unwrap_err(),
        ProbeError::ManifestMalformed
    );
    let no_version = response(Some("{}"), InstallFileState::Absent, None, Vec::new());
    assert_eq!(
        probe_package(&no_version).unwrap_err(),
        ProbeError::ManifestMalformed
    );
    let numeric_version = response(
        Some("{\"version\":7}"),
        InstallFileState::Absent,
        None,
        Vec::new(),
    );
    assert_eq!(
        probe_package(&numeric_version).unwrap_err(),
        ProbeError::ManifestMalformed
    );
}

#[test]
fn probe_install_metadata_errors() {
    let unreadable = response(
        Some("{\"version\":\"1.0\"}"),
        InstallFileState::Unreadable,
        None,
        Vec::new(),
    );
    assert_eq!(
        probe_package(&unreadable).unwrap_err(),
        ProbeError::InstallMetadataUnreadable
    );
    let malformed = response(
        Some("{\"version\":\"1.0\"}"),
        InstallFileState::Content("not json".to_string()),
        None,
        Vec::new(),
    );
    assert_eq!(
        probe_package(&malformed).unwrap_err(),
        ProbeError::InstallMetadataMalformed
    );
    let wrong_type = response(
        Some("{\"version\":\"1.0\"}"),
        InstallFileState::Content("{\"bucket\":3}".to_string()),
        None,
        Vec::new(),
    );
    assert_eq!(
        probe_package(&wrong_type).unwrap_err(),
        ProbeError::InstallMetadataMalformed
    );
}

#[test]
fn versioned_install_needs_both_conditions() {
    // No bucket field and no bucket hit: versioned.
    let pinned = response(
        Some("{\"version\":\"1.0\"}"),
        InstallFileState::Absent,
        None,
        vec![check("extras", false)],
    );
    let pkg = probe_package(&pinned).unwrap();
    assert!(pkg.is_versioned_install);
    assert_eq!(pkg.source, "main");

    // No bucket field, but the package is in a bucket: not versioned, and the
    // bucket becomes the source.
    let in_bucket = response(
        Some("{\"version\":\"1.0\"}"),
        InstallFileState::Absent,
        None,
        vec![check("quiet", false), check("extras", true)],
    );
    let pkg = probe_package(&in_bucket).unwrap();
    assert!(!pkg.is_versioned_install);
    assert_eq!(pkg.source, "extras");

    // A bucket field always wins and is never versioned.
    let attributed = response(
        Some("{\"version\":\"1.0\"}"),
        InstallFileState::Content("{\"bucket\":\"named\"}".to_string()),
        None,
        vec![check("extras", true)],
    );
    let pkg = probe_package(&attributed).unwrap();
    assert!(!pkg.is_versioned_install);
    assert_eq!(pkg.source, "named");
}

#[test]
fn bucket_field_null_counts_as_absent() {
    let r = response(
        Some("{\"version\":\"1.0\"}"),
        InstallFileState::Content("{\"bucket\":null}".to_string()),
        None,
        Vec::new(),
    );
    let pkg = probe_package(&r).unwrap();
    assert!(pkg.is_versioned_install);
    assert_eq!(pkg.source, "main");
}

#[test]
fn find_package_bucket_first_hit_wins() {
    let checks = vec![check("a", false), check("b", true), check("c", true)];
    assert_eq!(find_package_bucket(&checks), Some("b".to_string()));
    assert_eq!(find_package_bucket(&Vec::new()), None);
}
