//! The per-package probe: turns the raw facts read from one package's active
//! version directory (manifest text, install-metadata text, timestamps, bucket
//! lookups) into a package record, or a reason to skip the package.

use vstd::prelude::*;
use crate::jsondoc::{json_field_spec, json_text_field, JsonFieldOutcome};
use crate::model::{MatchSource, PackageModel, ScoopPackage};
use crate::timefmt::{format_rfc3339_ms, rfc3339_utc};

verus! {

/// Why one package directory was skipped; never fatal to the whole scan.
#[derive(Clone, Copy, Debug, PartialEq, Eq, Structural)]
pub enum ProbeError {
    /// The package directory's name cannot be decoded as text.
    InvalidDirectoryName,
    /// Neither a `current` link nor a fallback version directory exists.
    NoActiveVersion,
    /// The manifest file could not be read.
    ManifestUnreadable,
    /// The manifest file does not hold the required fields.
    ManifestMalformed,
    /// The install-metadata file exists but could not be read.
    InstallMetadataUnreadable,
    /// The install-metadata file does not parse.
    InstallMetadataMalformed,
}

/// State of the install-metadata file in the active version directory.
#[derive(Clone, Debug, PartialEq, Eq)]
pub enum InstallFileState {
    /// The file does not exist; legitimate for versioned installs.
    Absent,
    /// The file exists but reading it failed.
    Unreadable,
    /// The file's text.
    Content(String),
}

/// Model of an [`InstallFileState`].
pub enum InstallFileModel {
    Absent,
    Unreadable,
    Content(Seq<char>),
}

impl View for InstallFileState {
    type V = InstallFileModel;

    open spec fn view(&self) -> InstallFileModel {
        match self {
            InstallFileState::Absent => InstallFileModel::Absent,
            InstallFileState::Unreadable => InstallFileModel::Unreadable,
            InstallFileState::Content(t) => InstallFileModel::Content(t@),
        }
    }
}

/// One bucket directory, and whether it carries a manifest for the probed
/// package under its `bucket` sub-path.
#[derive(Clone, Debug, PartialEq, Eq)]
pub struct BucketCheck {
    pub name: String,
    pub has_manifest: bool,
}

/// Model of a [`BucketCheck`].
pub struct BucketCheckModel {
    pub name: Seq<char>,
    pub has_manifest: bool,
}

impl View for BucketCheck {
    type V = BucketCheckModel;

    open spec fn view(&self) -> BucketCheckModel {
        BucketCheckModel { name: self.name@, has_manifest: self.has_manifest }
    }
}

/// The models of a list of bucket checks, element by element.
pub open spec fn bucket_check_models(s: Seq<BucketCheck>) -> Seq<BucketCheckModel> {
    s.map_values(|c: BucketCheck| c@)
}

/// Everything the probe needs to know about one package whose active version
/// directory has been resolved and read.
#[derive(Clone, Debug, PartialEq, Eq)]
pub struct ProbeResponse {
    /// The package name, from the directory's base name.
    pub name: String,
    /// The manifest file's text; `None` when reading it failed.
    pub manifest_text: Option<String>,
    /// The install-metadata file's state.
    pub install_file: InstallFileState,
    /// Modification time of the install-metadata file, if its metadata could be read.
    pub install_mtime_ms: Option<u64>,
    /// The bucket directories, in enumeration order, each with the outcome of
    /// the existence check for this package's manifest.
    pub bucket_checks: Vec<BucketCheck>,
}

/// Model of a [`ProbeResponse`].
pub struct ProbeResponseModel {
    pub name: Seq<char>,
    pub manifest_text: Option<Seq<char>>,
    pub install_file: InstallFileModel,
    pub install_mtime_ms: Option<u64>,
    pub bucket_checks: Seq<BucketCheckModel>,
}

impl View for ProbeResponse {
    type V = ProbeResponseModel;

    open spec fn view(&self) -> ProbeResponseModel {
        ProbeResponseModel {
            name: self.name@,
            manifest_text: match self.manifest_text {
                Option::Some(ref t) => Option::Some(t@),
                Option::None => Option::None,
            },
            install_file: self.install_file@,
            install_mtime_ms: self.install_mtime_ms,
            bucket_checks: bucket_check_models(self.bucket_checks@),
        }
    }
}

/// The manifest's `version` (required) and `description` (optional, default
/// empty); nothing when the document or the fields are malformed.
pub open spec fn spec_manifest_fields(text: Seq<char>) -> Option<(Seq<char>, Seq<char>)> {
    match json_field_spec(text, "version"@) {
        JsonFieldOutcome::Text(v) => match json_field_spec(text, "description"@) {
            JsonFieldOutcome::Text(d) => Option::Some((v@, d@)),
            JsonFieldOutcome::Missing => Option::Some((v@, Seq::empty())),
            JsonFieldOutcome::NullValue => Option::Some((v@, Seq::empty())),
            JsonFieldOutcome::NotText => Option::None,
            JsonFieldOutcome::BadDocument => Option::None,
        },
        _ => Option::None,
    }
}

/// Reads `version` and `description` out of a manifest document.
pub fn parse_manifest_fields(text: &str) -> (r: Option<(String, String)>)
    ensures
        (r is Some) == (spec_manifest_fields(text@) is Some),
        r matches Option::Some(vd) ==> spec_manifest_fields(text@) == Option::Some(
            (vd.0@, vd.1@),
        ),
{
    match json_text_field(text, "version") {
        JsonFieldOutcome::Text(v) => match json_text_field(text, "description") {
            JsonFieldOutcome::Text(d) => Option::Some((v, d)),
            JsonFieldOutcome::Missing => Option::Some((v, String::new())),
            JsonFieldOutcome::NullValue => Option::Some((v, String::new())),
            JsonFieldOutcome::NotText => Option::None,
            JsonFieldOutcome::BadDocument => Option::None,
        },
        _ => Option::None,
    }
}

/// The model of an optional string.
pub open spec fn opt_string_model(o: Option<String>) -> Option<Seq<char>> {
    match o {
        Option::Some(s) => Option::Some(s@),
        Option::None => Option::None,
    }
}

/// The `bucket` field recorded in the install metadata: `None` when the file
/// is absent or has no usable field, an error when the file cannot be read or
/// does not parse.
pub open spec fn spec_install_bucket(file: InstallFileModel) -> Result<
    Option<Seq<char>>,
    ProbeError,
> {
    match file {
        InstallFileModel::Absent => Result::Ok(Option::None),
        InstallFileModel::Unreadable => Result::Err(ProbeError::InstallMetadataUnreadable),
        InstallFileModel::Content(t) => match json_field_spec(t, "bucket"@) {
            JsonFieldOutcome::Text(b) => Result::Ok(Option::Some(b@)),
            JsonFieldOutcome::Missing => Result::Ok(Option::None),
            JsonFieldOutcome::NullValue => Result::Ok(Option::None),
            JsonFieldOutcome::NotText => Result::Err(ProbeError::InstallMetadataMalformed),
            JsonFieldOutcome::BadDocument => Result::Err(ProbeError::InstallMetadataMalformed),
        },
    }
}

/// Reads the `bucket` field out of the install-metadata file's state.
pub fn install_bucket(file: &InstallFileState) -> (r: Result<Option<String>, ProbeError>)
    ensures
        match r {
            Result::Ok(b) => spec_install_bucket(file@) == Result::Ok::<
                Option<Seq<char>>,
                ProbeError,
            >(opt_string_model(b)),
            Result::Err(e) => spec_install_bucket(file@) == Result::Err::<
                Option<Seq<char>>,
                ProbeError,
            >(e),
        },
{
    match file {
        InstallFileState::Absent => Result::Ok(Option::None),
        InstallFileState::Unreadable => Result::Err(ProbeError::InstallMetadataUnreadable),
        InstallFileState::Content(t) => match json_text_field(t.as_str(), "bucket") {
            JsonFieldOutcome::Text(b) => Result::Ok(Option::Some(b)),
            JsonFieldOutcome::Missing => Result::Ok(Option::None),
            JsonFieldOutcome::NullValue => Result::Ok(Option::None),
            JsonFieldOutcome::NotText => Result::Err(ProbeError::InstallMetadataMalformed),
            JsonFieldOutcome::BadDocument => Result::Err(ProbeError::InstallMetadataMalformed),
        },
    }
}

/// The first bucket, in enumeration order, that carries a manifest for the
/// probed package.
pub open spec fn spec_first_bucket_hit(checks: Seq<BucketCheckModel>) -> Option<Seq<char>>
    decreases checks.len(),
{
    if checks.len() == 0 {
        Option::None
    } else if checks[0].has_manifest {
        Option::Some(checks[0].name)
    } else {
        spec_first_bucket_hit(checks.drop_first())
    }
}

/// Searches the bucket checks for the first bucket holding the package's
/// manifest.
pub fn find_package_bucket(checks: &Vec<BucketCheck>) -> (r: Option<String>)
    ensures
        spec_first_bucket_hit(bucket_check_models(checks@)) == opt_string_model(r),
{
    let ghost full = bucket_check_models(checks@);
    proof {
        assert(bucket_check_models(checks@).skip(0) =~= bucket_check_models(checks@));
    }
    let mut i: usize = 0;
    while i < checks.len()
        invariant
            i <= checks@.len(),
            full == bucket_check_models(checks@),
            spec_first_bucket_hit(full) == spec_first_bucket_hit(
                bucket_check_models(checks@).skip(i as int),
            ),
        decreases checks@.len() - i,
    {
        let ghost suffix = bucket_check_models(checks@).skip(i as int);
        proof {
            assert(suffix[0] == checks@[i as int]@);
        }
        if checks[i].has_manifest {
            return Option::Some(checks[i].name.clone());
        }
        proof {
            assert(suffix.drop_first() =~= bucket_check_models(checks@).skip(i + 1));
        }
        i = i + 1;
    }
    proof {
        assert(bucket_check_models(checks@).skip(checks@.len() as int) =~= Seq::<
            BucketCheckModel,
        >::empty());
    }
    Option::None
}

/// The record the probe produces from one response, or the reason the package
/// is skipped. The record's `source` is the install metadata's bucket, else
/// the first bucket hit, else `"main"`; the install is versioned exactly when
/// the metadata names no bucket and no bucket hit exists.
pub open spec fn spec_probe(p: ProbeResponseModel) -> Result<PackageModel, ProbeError> {
    match p.manifest_text {
        Option::None => Result::Err(ProbeError::ManifestUnreadable),
        Option::Some(mtext) => match spec_manifest_fields(mtext) {
            Option::None => Result::Err(ProbeError::ManifestMalformed),
            Option::Some(vd) => match spec_install_bucket(p.install_file) {
                Result::Err(e) => Result::Err(e),
                Result::Ok(bucket_field) => {
                    let hit = spec_first_bucket_hit(p.bucket_checks);
                    let source = match bucket_field {
                        Option::Some(b) => b,
                        Option::None => match hit {
                            Option::Some(h) => h,
                            Option::None => "main"@,
                        },
                    };
                    let updated = match p.install_mtime_ms {
                        Option::Some(ms) => rfc3339_utc(ms),
                        Option::None => Seq::empty(),
                    };
                    Result::Ok(
                        PackageModel {
                            name: p.name,
                            version: vd.0,
                            source,
                            updated,
                            is_installed: true,
                            info: vd.1,
                            is_versioned_install: bucket_field is None && hit is None,
                            match_source: MatchSource::NoHit,
                        },
                    )
                },
            },
        },
    }
}

/// The model of a probe result.
pub open spec fn probe_result_model(r: Result<ScoopPackage, ProbeError>) -> Result<
    PackageModel,
    ProbeError,
> {
    match r {
        Result::Ok(p) => Result::Ok(p@),
        Result::Err(e) => Result::Err(e),
    }
}

/// Probes one package: parses its manifest and install metadata and resolves
/// its bucket attribution.
pub fn probe_package(p: &ProbeResponse) -> (r: Result<ScoopPackage, ProbeError>)
    ensures
        probe_result_model(r) == spec_probe(p@),
{
    let mtext: &String = match p.manifest_text {
        Option::Some(ref t) => t,
        Option::None => {
            return Result::Err(ProbeError::ManifestUnreadable);
        },
    };
    let vd: (String, String) = match parse_manifest_fields(mtext.as_str()) {
        Option::Some(vd) => vd,
        Option::None => {
            return Result::Err(ProbeError::ManifestMalformed);
        },
    };
    let bucket_field: Option<String> = match install_bucket(&p.install_file) {
        Result::Ok(b) => b,
        Result::Err(e) => {
            return Result::Err(e);
        },
    };
    let hit = find_package_bucket(&p.bucket_checks);
    let is_versioned = bucket_field.is_none() && hit.is_none();
    let source: String = match bucket_field {
        Option::Some(b) => b,
        Option::None => match hit {
            Option::Some(h) => h,
            Option::None => String::from_str("main"),
        },
    };
    let updated: String = match p.install_mtime_ms {
        Option::Some(ms) => format_rfc3339_ms(ms),
        Option::None => String::new(),
    };
    Result::Ok(
        ScoopPackage {
            name: p.name.clone(),
            version: vd.0,
            source,
            updated,
            is_installed: true,
            info: vd.1,
            is_versioned_install: is_versioned,
            match_source: MatchSource::NoHit,
        },
    )
}

} // verus!
