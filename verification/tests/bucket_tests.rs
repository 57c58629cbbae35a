use rscoop_core::buckets::{
    locate_package_manifest, BucketManifestCheck, LocateError, ManifestLocation,
};
use rscoop_core::model::{MatchSource, ScoopOp};

fn check(name: &str, root: bool, nested: bool) -> BucketManifestCheck {
    BucketManifestCheck {
        name: name.to_string(),
        has_root_manifest: root,
        has_nested_manifest: nested,
    }
}

#[test]
fn locate_fails_without_buckets_dir() {
    let r = locate_package_manifest(false, &Vec::new(), None);
    assert_eq!(r.unwrap_err(), LocateError::BucketsDirMissing);
}

#[test]
fn locate_takes_first_bucket_with_manifest() {
    let checks = vec![
        check("empty", false, false),
        check("extras", false, true),
        check("main", true, false),
    ];
    let r = locate_package_manifest(true, &checks, None).unwrap();
    assert_eq!(
        r,
        ManifestLocation {
            bucket: "extras".to_string(),
            nested: true
        }
    );
}

#[test]
fn locate_prefers_root_manifest_within_a_bucket() {
    let checks = vec![check("main", true, true)];
    let r = locate_package_manifest(true, &checks, None).unwrap();
    assert!(!r.nested);
}

#[test]
fn locate_misses_when_no_bucket_has_the_manifest() {
    let checks = vec![check("a", false, false), check("b", false, false)];
    let r = locate_package_manifest(true, &checks, None);
    assert_eq!(r.unwrap_err(), LocateError::NotFound);
}

#[test]
fn locate_with_named_source_only_looks_there() {
    let checks = vec![check("main", true, false), check("extras", false, true)];
    let source = "extras".to_string();
    let r = locate_package_manifest(true, &checks, Some(&source)).unwrap();
    assert_eq!(r.bucket, "extras");
    assert!(r.nested);

    let missing = "nowhere".to_string();
    let r = locate_package_manifest(true, &checks, Some(&missing));
    assert_eq!(r.unwrap_err(), LocateError::NotFoundInBucket);

    let bare = "quiet".to_string();
    let only_quiet = vec![check("quiet", false, false)];
    let r = locate_package_manifest(true, &only_quiet, Some(&bare));
    assert_eq!(r.unwrap_err(), LocateError::NotFoundInBucket);
}

#[test]
fn locate_treats_empty_and_sentinel_source_as_unset() {
    let checks = vec![check("main", true, false)];
    let empty = String::new();
    let r = locate_package_manifest(true, &checks, Some(&empty)).unwrap();
    assert_eq!(r.bucket, "main");
    let sentinel = "None".to_string();
    let r = locate_package_manifest(true, &checks, Some(&sentinel)).unwrap();
    assert_eq!(r.bucket, "main");
}

#[test]
fn scoop_op_verbs() {
    assert_eq!(ScoopOp::Install.verb(), "install");
    assert_eq!(ScoopOp::Uninstall.verb(), "uninstall");
    assert_eq!(ScoopOp::Update.verb(), "update");
    assert_eq!(ScoopOp::ClearCache.verb(), "cache rm");
    assert_eq!(ScoopOp::UpdateAll.verb(), "update *");
}

#[test]
fn match_source_defaults_to_no_hit() {
    assert_eq!(MatchSource::default(), MatchSource::NoHit);
}
