//! Locating a package's manifest among the bucket directories: either inside
//! one named bucket, or the first bucket (in enumeration order) that carries
//! the manifest, preferring a manifest at the bucket's root over one under its
//! `bucket` sub-path.

use vstd::prelude::*;

verus! {

/// One bucket directory and the outcome of the two existence checks for the
/// sought package's manifest: at the bucket's root, and under its `bucket`
/// sub-path.
#[derive(Clone, Debug, PartialEq, Eq)]
pub struct BucketManifestCheck {
    pub name: String,
    pub has_root_manifest: bool,
    pub has_nested_manifest: bool,
}

/// Model of a [`BucketManifestCheck`].
pub struct BucketManifestCheckModel {
    pub name: Seq<char>,
    pub has_root_manifest: bool,
    pub has_nested_manifest: bool,
}

impl View for BucketManifestCheck {
    type V = BucketManifestCheckModel;

    open spec fn view(&self) -> BucketManifestCheckModel {
        BucketManifestCheckModel {
            name: self.name@,
            has_root_manifest: self.has_root_manifest,
            has_nested_manifest: self.has_nested_manifest,
        }
    }
}

/// The models of a list of bucket checks, element by element.
pub open spec fn manifest_check_models(s: Seq<BucketManifestCheck>) -> Seq<
    BucketManifestCheckModel,
> {
    s.map_values(|c: BucketManifestCheck| c@)
}

/// Where a located manifest lies.
#[derive(Clone, Debug, PartialEq, Eq)]
pub struct ManifestLocation {
    /// The bucket holding the manifest.
    pub bucket: String,
    /// True when the manifest lies under the bucket's `bucket` sub-path
    /// rather than at its root.
    pub nested: bool,
}

/// Why no manifest could be located.
#[derive(Clone, Copy, Debug, PartialEq, Eq, Structural)]
pub enum LocateError {
    /// The `buckets` directory itself is missing.
    BucketsDirMissing,
    /// The named source bucket does not hold the manifest.
    NotFoundInBucket,
    /// No bucket holds the manifest.
    NotFound,
}

/// Where one bucket holds the manifest: at its root (`false`), nested
/// (`true`), or not at all.
pub open spec fn spec_bucket_location(c: BucketManifestCheckModel) -> Option<bool> {
    if c.has_root_manifest {
        Option::Some(false)
    } else if c.has_nested_manifest {
        Option::Some(true)
    } else {
        Option::None
    }
}

/// Index of the first bucket with the given name.
pub open spec fn spec_find_bucket(checks: Seq<BucketManifestCheckModel>, name: Seq<char>) -> Option<
    int,
>
    decreases checks.len(),
{
    if checks.len() == 0 {
        Option::None
    } else if checks[0].name == name {
        Option::Some(0)
    } else {
        match spec_find_bucket(checks.drop_first(), name) {
            Option::Some(i) => Option::Some(i + 1),
            Option::None => Option::None,
        }
    }
}

/// The first bucket, in enumeration order, holding the manifest anywhere,
/// and where it holds it.
pub open spec fn spec_first_location(checks: Seq<BucketManifestCheckModel>) -> Option<(int, bool)>
    decreases checks.len(),
{
    if checks.len() == 0 {
        Option::None
    } else {
        match spec_bucket_location(checks[0]) {
            Option::Some(nested) => Option::Some((0, nested)),
            Option::None => match spec_first_location(checks.drop_first()) {
                Option::Some(p) => Option::Some((p.0 + 1, p.1)),
                Option::None => Option::None,
            },
        }
    }
}

/// The search over all buckets: the first hit, or `NotFound`.
pub open spec fn spec_general_search(checks: Seq<BucketManifestCheckModel>) -> Result<
    (Seq<char>, bool),
    LocateError,
> {
    match spec_first_location(checks) {
        Option::Some(p) => Result::Ok((checks[p.0].name, p.1)),
        Option::None => Result::Err(LocateError::NotFound),
    }
}

/// What locating the manifest yields: the bucket's name and whether the
/// manifest is nested, or the error. A named source that is empty or the
/// sentinel `"None"` is treated as no source.
pub open spec fn spec_locate_manifest(
    buckets_dir_exists: bool,
    checks: Seq<BucketManifestCheckModel>,
    source: Option<Seq<char>>,
) -> Result<(Seq<char>, bool), LocateError> {
    if !buckets_dir_exists {
        Result::Err(LocateError::BucketsDirMissing)
    } else {
        match source {
            Option::Some(s) => if s.len() > 0 && s != "None"@ {
                match spec_find_bucket(checks, s) {
                    Option::Some(i) => match spec_bucket_location(checks[i]) {
                        Option::Some(nested) => Result::Ok((checks[i].name, nested)),
                        Option::None => Result::Err(LocateError::NotFoundInBucket),
                    },
                    Option::None => Result::Err(LocateError::NotFoundInBucket),
                }
            } else {
                spec_general_search(checks)
            },
            Option::None => spec_general_search(checks),
        }
    }
}

/// The model of a located manifest or error.
pub open spec fn locate_result_model(r: Result<ManifestLocation, LocateError>) -> Result<
    (Seq<char>, bool),
    LocateError,
> {
    match r {
        Result::Ok(loc) => Result::Ok((loc.bucket@, loc.nested)),
        Result::Err(e) => Result::Err(e),
    }
}

/// Index of the first bucket named `name@`, scanning in order.
fn find_bucket_index(checks: &Vec<BucketManifestCheck>, name: &String) -> (r: Option<usize>)
    ensures
        match r {
            Option::Some(i) => i < checks@.len() && spec_find_bucket(
                manifest_check_models(checks@),
                name@,
            ) == Option::Some(i as int),
            Option::None => spec_find_bucket(manifest_check_models(checks@), name@) is None,
        },
{
    let ghost full = manifest_check_models(checks@);
    let mut i: usize = 0;
    while i < checks.len()
        invariant
            i <= checks@.len(),
            full == manifest_check_models(checks@),
            forall|k: int| 0 <= k < i ==> #[trigger] full[k].name != name@,
        decreases checks@.len() - i,
    {
        if checks[i].name == *name {
            proof {
                lemma_find_bucket_prefix(full, name@, i as int);
            }
            return Option::Some(i);
        }
        i = i + 1;
    }
    proof {
        lemma_find_bucket_none(full, name@);
    }
    Option::None
}

/// If every name before `i` misses and `checks[i]` matches, the search finds `i`.
proof fn lemma_find_bucket_prefix(checks: Seq<BucketManifestCheckModel>, name: Seq<char>, i: int)
    requires
        0 <= i < checks.len(),
        checks[i].name == name,
        forall|k: int| 0 <= k < i ==> #[trigger] checks[k].name != name,
    ensures
        spec_find_bucket(checks, name) == Option::Some(i),
    decreases i,
{
    if i == 0 {
    } else {
        lemma_find_bucket_prefix(checks.drop_first(), name, i - 1);
    }
}

/// If no name matches, the search misses.
proof fn lemma_find_bucket_none(checks: Seq<BucketManifestCheckModel>, name: Seq<char>)
    requires
        forall|k: int| 0 <= k < checks.len() ==> #[trigger] checks[k].name != name,
    ensures
        spec_find_bucket(checks, name) is None,
    decreases checks.len(),
{
    if checks.len() > 0 {
        lemma_find_bucket_none(checks.drop_first(), name);
    }
}

/// First bucket with any manifest, scanning in order.
fn find_first_location(checks: &Vec<BucketManifestCheck>) -> (r: Option<(usize, bool)>)
    ensures
        match r {
            Option::Some(p) => p.0 < checks@.len() && spec_first_location(
                manifest_check_models(checks@),
            ) == Option::Some((p.0 as int, p.1)),
            Option::None => spec_first_location(manifest_check_models(checks@)) is None,
        },
{
    let ghost full = manifest_check_models(checks@);
    let mut i: usize = 0;
    while i < checks.len()
        invariant
            i <= checks@.len(),
            full == manifest_check_models(checks@),
            forall|k: int|
                0 <= k < i ==> spec_bucket_location(#[trigger] full[k]) is None,
        decreases checks@.len() - i,
    {
        if checks[i].has_root_manifest {
            proof {
                lemma_first_location_prefix(full, i as int, false);
            }
            return Option::Some((i, false));
        }
        if checks[i].has_nested_manifest {
            proof {
                lemma_first_location_prefix(full, i as int, true);
            }
            return Option::Some((i, true));
        }
        i = i + 1;
    }
    proof {
        lemma_first_location_none(full);
    }
    Option::None
}

/// If every bucket before `i` has no manifest and `checks[i]` has one, the
/// search finds `i`.
proof fn lemma_first_location_prefix(
    checks: Seq<BucketManifestCheckModel>,
    i: int,
    nested: bool,
)
    requires
        0 <= i < checks.len(),
        spec_bucket_location(checks[i]) == Option::Some(nested),
        forall|k: int| 0 <= k < i ==> spec_bucket_location(#[trigger] checks[k]) is None,
    ensures
        spec_first_location(checks) == Option::Some((i, nested)),
    decreases i,
{
    if i == 0 {
    } else {
        lemma_first_location_prefix(checks.drop_first(), i - 1, nested);
    }
}

/// If no bucket has a manifest, the search misses.
proof fn lemma_first_location_none(checks: Seq<BucketManifestCheckModel>)
    requires
        forall|k: int| 0 <= k < checks.len() ==> spec_bucket_location(#[trigger] checks[k]) is None,
    ensures
        spec_first_location(checks) is None,
    decreases checks.len(),
{
    if checks.len() > 0 {
        lemma_first_location_none(checks.drop_first());
    }
}

/// Locates the manifest for one package among the buckets. `checks` lists the
/// bucket directories in enumeration order, each with the two existence
/// checks for this package's manifest already made; `buckets_dir_exists`
/// says whether the `buckets` directory itself exists. With a usable
/// `package_source`, only the bucket of that name is consulted; otherwise the
/// first bucket holding the manifest wins, a root manifest preferred over a
/// nested one within each bucket.
pub fn locate_package_manifest(
    buckets_dir_exists: bool,
    checks: &Vec<BucketManifestCheck>,
    package_source: Option<&String>,
) -> (r: Result<ManifestLocation, LocateError>)
    ensures
        locate_result_model(r) == spec_locate_manifest(
            buckets_dir_exists,
            manifest_check_models(checks@),
            match package_source {
                Option::Some(s) => Option::Some(s@),
                Option::None => Option::None,
            },
        ),
{
    if !buckets_dir_exists {
        return Result::Err(LocateError::BucketsDirMissing);
    }
    let use_source: Option<&String> = match package_source {
        Option::Some(s) => {
            let none_word = String::from_str("None");
            if !s.as_str().is_empty() && *s != none_word {
                Option::Some(s)
            } else {
                Option::None
            }
        },
        Option::None => Option::None,
    };
    match use_source {
        Option::Some(s) => match find_bucket_index(checks, s) {
            Option::Some(i) => {
                let c = &checks[i];
                if c.has_root_manifest {
                    Result::Ok(ManifestLocation { bucket: c.name.clone(), nested: false })
                } else if c.has_nested_manifest {
                    Result::Ok(ManifestLocation { bucket: c.name.clone(), nested: true })
                } else {
                    Result::Err(LocateError::NotFoundInBucket)
                }
            },
            Option::None => Result::Err(LocateError::NotFoundInBucket),
        },
        Option::None => match find_first_location(checks) {
            Option::Some(p) => Result::Ok(
                ManifestLocation { bucket: checks[p.0].name.clone(), nested: p.1 },
            ),
            Option::None => Result::Err(LocateError::NotFound),
        },
    }
}

} // verus!
