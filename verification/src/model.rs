//! Shared data-model types: the package record produced by the installed-package
//! scan, and the record shapes used by the surrounding commands.

use vstd::prelude::*;

verus! {

/// Where a search hit matched a package; `NoHit` for records that did not come
/// from a search, such as those produced by the installed-package scan.
#[derive(Clone, Copy, Debug, PartialEq, Eq, Structural)]
pub enum MatchSource {
    Name,
    Binary,
    NoHit,
}

impl Default for MatchSource {
    fn default() -> (r: Self)
        ensures
            r == MatchSource::NoHit,
    {
        MatchSource::NoHit
    }
}

/// Mathematical model of a [`ScoopPackage`]: the same record with every text
/// field taken as its character sequence.
pub struct PackageModel {
    pub name: Seq<char>,
    pub version: Seq<char>,
    pub source: Seq<char>,
    pub updated: Seq<char>,
    pub is_installed: bool,
    pub info: Seq<char>,
    pub is_versioned_install: bool,
    pub match_source: MatchSource,
}

/// One discovered package: the unit of the installed-package scan result.
#[derive(Clone, Debug, PartialEq, Eq)]
pub struct ScoopPackage {
    /// Unique identifier, the installation subdirectory's base name.
    pub name: String,
    /// Version string taken from the package's manifest.
    pub version: String,
    /// Bucket the manifest originates from; `"main"` when undeterminable.
    pub source: String,
    /// Modification timestamp of the install metadata, RFC 3339; empty if unavailable.
    pub updated: String,
    /// Always true for records produced by the installed-package scan.
    pub is_installed: bool,
    /// Free-text description from the manifest, possibly empty.
    pub info: String,
    /// True when the install is pinned to a version rather than tracked by a bucket.
    pub is_versioned_install: bool,
    /// Search provenance; `NoHit` for scanned records.
    pub match_source: MatchSource,
}

impl View for ScoopPackage {
    type V = PackageModel;

    open spec fn view(&self) -> PackageModel {
        PackageModel {
            name: self.name@,
            version: self.version@,
            source: self.source@,
            updated: self.updated@,
            is_installed: self.is_installed,
            info: self.info@,
            is_versioned_install: self.is_versioned_install,
            match_source: self.match_source,
        }
    }
}

/// The models of a sequence of package records, element by element.
pub open spec fn package_models(s: Seq<ScoopPackage>) -> Seq<PackageModel> {
    s.map_values(|p: ScoopPackage| p@)
}

impl ScoopPackage {
    /// An equal copy of the record.
    pub fn duplicate(&self) -> (r: ScoopPackage)
        ensures
            r == *self,
    {
        ScoopPackage {
            name: self.name.clone(),
            version: self.version.clone(),
            source: self.source.clone(),
            updated: self.updated.clone(),
            is_installed: self.is_installed,
            info: self.info.clone(),
            is_versioned_install: self.is_versioned_install,
            match_source: self.match_source,
        }
    }
}

/// An equal copy of a package list.
pub fn duplicate_packages(v: &Vec<ScoopPackage>) -> (r: Vec<ScoopPackage>)
    ensures
        r@ == v@,
{
    let mut out: Vec<ScoopPackage> = Vec::new();
    let mut i: usize = 0;
    while i < v.len()
        invariant
            i <= v@.len(),
            out@ == v@.subrange(0, i as int),
        decreases v@.len() - i,
    {
        out.push(v[i].duplicate());
        proof {
            assert(out@ =~= v@.subrange(0, i + 1));
        }
        i = i + 1;
    }
    proof {
        assert(v@.subrange(0, v@.len() as int) =~= v@);
    }
    out
}

/// Result of a package search: the hits, and whether the cold-start index was
/// still being built when the search ran.
#[derive(Clone, Debug, PartialEq, Eq)]
pub struct SearchResult {
    pub packages: Vec<ScoopPackage>,
    pub is_cold: bool,
}

/// Facts about one bucket directory, as shown in the bucket overview.
#[derive(Clone, Debug, PartialEq, Eq)]
pub struct BucketInfo {
    pub name: String,
    pub path: String,
    pub manifest_count: u32,
    pub is_git_repo: bool,
    pub git_url: Option<String>,
    pub git_branch: Option<String>,
    pub last_updated: Option<String>,
}

/// One installed version of a package, as listed by the version switcher.
#[derive(Clone, Debug, PartialEq, Eq)]
pub struct PackageVersion {
    pub version: String,
    pub is_current: bool,
    pub install_path: String,
}

/// A package together with every version present on disk.
#[derive(Clone, Debug, PartialEq, Eq)]
pub struct VersionedPackageInfo {
    pub name: String,
    pub current_version: String,
    pub available_versions: Vec<PackageVersion>,
}

/// Key-value details and optional notes shown for a single package.
#[derive(Clone, Debug, PartialEq, Eq)]
pub struct ScoopInfo {
    pub details: Vec<(String, String)>,
    pub notes: Option<String>,
}

/// One line of a health checkup report.
#[derive(Clone, Debug, PartialEq, Eq)]
pub struct CheckupItem {
    pub id: Option<String>,
    pub status: bool,
    pub text: String,
    pub suggestion: Option<String>,
}

/// Outcome of a finished package-manager operation.
#[derive(Clone, Debug, PartialEq, Eq)]
pub struct CommandResult {
    pub success: bool,
    pub message: String,
}

/// One line streamed from a running package-manager operation.
#[derive(Clone, Debug, PartialEq, Eq)]
pub struct StreamOutput {
    pub line: String,
    pub source: String,
}

/// A package with an update available.
#[derive(Clone, Debug, PartialEq, Eq)]
pub struct UpdatablePackage {
    pub name: String,
    pub current: String,
    pub available: String,
}

/// The package-manager operations that the command runner can spawn.
#[derive(Clone, Copy, Debug, PartialEq, Eq, Structural)]
pub enum ScoopOp {
    Install,
    Uninstall,
    Update,
    ClearCache,
    UpdateAll,
}

impl ScoopOp {
    /// The command verb for this operation.
    pub open spec fn spec_verb(self) -> Seq<char> {
        match self {
            ScoopOp::Install => "install"@,
            ScoopOp::Uninstall => "uninstall"@,
            ScoopOp::Update => "update"@,
            ScoopOp::ClearCache => "cache rm"@,
            ScoopOp::UpdateAll => "update *"@,
        }
    }

    pub fn verb(&self) -> (r: &'static str)
        ensures
            r@ == self.spec_verb(),
    {
        match self {
            ScoopOp::Install => "install",
            ScoopOp::Uninstall => "uninstall",
            ScoopOp::Update => "update",
            ScoopOp::ClearCache => "cache rm",
            ScoopOp::UpdateAll => "update *",
        }
    }
}

/// A Start Menu shortcut that points into the installation tree.
#[derive(Clone, Debug, PartialEq, Eq)]
pub struct ScoopAppShortcut {
    pub name: String,
    pub display_name: String,
    pub target_path: String,
    pub working_directory: String,
    pub icon_path: Option<String>,
}

} // verus!
