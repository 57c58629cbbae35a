//! Snapshot of one package's installation directory, and the resolution of its
//! "active version" directory: the `current` link when it exists, otherwise the
//! most recently modified version directory that carries install metadata or a
//! manifest.

use vstd::prelude::*;
use crate::text::{chars_eq, lower_ascii_chars, lower_chars};

verus! {

/// Cheap facts about one version subdirectory of a package directory:
/// its name and the modification times that matter. A time is `None` when the
/// corresponding file does not exist (or its metadata cannot be read).
#[derive(Clone, Debug, PartialEq, Eq)]
pub struct VersionDirState {
    /// Base name of the subdirectory.
    pub name: String,
    /// Modification time of the subdirectory itself, in milliseconds; `0` if unavailable.
    pub dir_mtime_ms: u64,
    /// Modification time of the install-metadata file inside it, if that file exists.
    pub install_mtime_ms: Option<u64>,
    /// Modification time of the manifest file inside it, if that file exists.
    pub manifest_mtime_ms: Option<u64>,
}

/// Model of a [`VersionDirState`].
pub struct VersionDirModel {
    pub name: Seq<char>,
    pub dir_mtime_ms: u64,
    pub install_mtime_ms: Option<u64>,
    pub manifest_mtime_ms: Option<u64>,
}

impl View for VersionDirState {
    type V = VersionDirModel;

    open spec fn view(&self) -> VersionDirModel {
        VersionDirModel {
            name: self.name@,
            dir_mtime_ms: self.dir_mtime_ms,
            install_mtime_ms: self.install_mtime_ms,
            manifest_mtime_ms: self.manifest_mtime_ms,
        }
    }
}

/// The models of a list of version directories, element by element.
pub open spec fn version_models(s: Seq<VersionDirState>) -> Seq<VersionDirModel> {
    s.map_values(|v: VersionDirState| v@)
}

/// Snapshot of one package directory under the installation root's `apps`
/// directory, as the enumeration step sees it.
#[derive(Clone, Debug, PartialEq, Eq)]
pub struct PackageDirState {
    /// Base name of the package directory; `None` when it cannot be decoded as text.
    pub name: Option<String>,
    /// Facts about the directory the `current` link resolves to, when `current`
    /// exists and is a directory.
    pub current: Option<VersionDirState>,
    /// Every immediate subdirectory of the package directory, in enumeration order.
    pub entries: Vec<VersionDirState>,
    /// Modification time of the package directory itself, in milliseconds; `0` if unavailable.
    pub dir_mtime_ms: u64,
}

/// Model of a [`PackageDirState`].
pub struct PackageDirModel {
    pub name: Option<Seq<char>>,
    pub current: Option<VersionDirModel>,
    pub entries: Seq<VersionDirModel>,
    pub dir_mtime_ms: u64,
}

impl View for PackageDirState {
    type V = PackageDirModel;

    open spec fn view(&self) -> PackageDirModel {
        PackageDirModel {
            name: match self.name {
                Option::Some(ref n) => Option::Some(n@),
                Option::None => Option::None,
            },
            current: match self.current {
                Option::Some(ref c) => Option::Some(c@),
                Option::None => Option::None,
            },
            entries: version_models(self.entries@),
            dir_mtime_ms: self.dir_mtime_ms,
        }
    }
}

/// The models of a list of package directories, element by element.
pub open spec fn dir_models(s: Seq<PackageDirState>) -> Seq<PackageDirModel> {
    s.map_values(|d: PackageDirState| d@)
}

/// The modification time that stands for an installation directory: the
/// install metadata's, else the manifest's, else the directory's own.
pub open spec fn spec_effective_mtime(v: VersionDirModel) -> u64 {
    match v.install_mtime_ms {
        Option::Some(t) => t,
        Option::None => match v.manifest_mtime_ms {
            Option::Some(t) => t,
            Option::None => v.dir_mtime_ms,
        },
    }
}

/// The modification time that stands for `v` in fingerprints and in the
/// latest-version fallback.
pub fn effective_mtime(v: &VersionDirState) -> (r: u64)
    ensures
        r == spec_effective_mtime(v@),
{
    match v.install_mtime_ms {
        Option::Some(t) => t,
        Option::None => match v.manifest_mtime_ms {
            Option::Some(t) => t,
            Option::None => v.dir_mtime_ms,
        },
    }
}

/// Whether a subdirectory may stand in for a missing `current` link: anything
/// but the `current` entry itself that holds install metadata or a manifest.
pub open spec fn spec_is_candidate(v: VersionDirModel) -> bool {
    lower_chars(v.name) != "current"@ && (v.install_mtime_ms is Some || v.manifest_mtime_ms is Some)
}

/// Whether `v` is a fallback candidate for the active version directory.
pub fn is_version_candidate(v: &VersionDirState) -> (r: bool)
    ensures
        r == spec_is_candidate(v@),
{
    let lowered = lower_ascii_chars(v.name.as_str());
    let mut current_chars: Vec<char> = Vec::new();
    current_chars.push('c');
    current_chars.push('u');
    current_chars.push('r');
    current_chars.push('r');
    current_chars.push('e');
    current_chars.push('n');
    current_chars.push('t');
    proof {
        reveal_strlit("current");
        assert(current_chars@ =~= "current"@);
    }
    let named_current = chars_eq(&lowered, &current_chars);
    !named_current && (v.install_mtime_ms.is_some() || v.manifest_mtime_ms.is_some())
}

/// Index of the fallback active-version directory among `entries`: the
/// candidate with the greatest effective modification time, ties resolved in
/// favour of the earliest entry.
pub open spec fn spec_latest_candidate(entries: Seq<VersionDirModel>) -> Option<int>
    decreases entries.len(),
{
    if entries.len() == 0 {
        Option::None
    } else {
        let rest = spec_latest_candidate(entries.drop_last());
        let last = entries.len() - 1;
        if spec_is_candidate(entries[last]) {
            match rest {
                Option::None => Option::Some(last),
                Option::Some(j) => if spec_effective_mtime(entries[last]) > spec_effective_mtime(
                    entries[j],
                ) {
                    Option::Some(last)
                } else {
                    Option::Some(j)
                },
            }
        } else {
            rest
        }
    }
}

/// The chosen index is in range and is a candidate.
pub proof fn lemma_latest_candidate_in_range(entries: Seq<VersionDirModel>)
    ensures
        match spec_latest_candidate(entries) {
            Option::Some(j) => 0 <= j < entries.len() && spec_is_candidate(entries[j]),
            Option::None => forall|k: int|
                0 <= k < entries.len() ==> !spec_is_candidate(#[trigger] entries[k]),
        },
    decreases entries.len(),
{
    if entries.len() > 0 {
        lemma_latest_candidate_in_range(entries.drop_last());
        assert forall|k: int| 0 <= k < entries.len() - 1 implies entries.drop_last()[k]
            == entries[k] by {}
    }
}

/// Index of the most recently modified fallback version directory, if any.
pub fn find_latest_version_dir(entries: &Vec<VersionDirState>) -> (r: Option<usize>)
    ensures
        match r {
            Option::Some(i) => spec_latest_candidate(version_models(entries@)) == Option::Some(
                i as int,
            ),
            Option::None => spec_latest_candidate(version_models(entries@)) is None,
        },
{
    let mut best: Option<usize> = Option::None;
    let mut best_mtime: u64 = 0;
    let mut i: usize = 0;
    while i < entries.len()
        invariant
            i <= entries@.len(),
            match best {
                Option::Some(j) => {
                    &&& j < i
                    &&& spec_latest_candidate(version_models(entries@.subrange(0, i as int)))
                        == Option::Some(j as int)
                    &&& best_mtime == spec_effective_mtime(entries@[j as int]@)
                },
                Option::None => spec_latest_candidate(
                    version_models(entries@.subrange(0, i as int)),
                ) is None,
            },
        decreases entries@.len() - i,
    {
        let ghost prefix = version_models(entries@.subrange(0, i as int));
        let ghost next = version_models(entries@.subrange(0, i + 1));
        proof {
            assert(next.drop_last() =~= prefix);
            assert(next[next.len() - 1] == entries@[i as int]@);
        }
        if is_version_candidate(&entries[i]) {
            let m = effective_mtime(&entries[i]);
            match best {
                Option::None => {
                    best = Option::Some(i);
                    best_mtime = m;
                },
                Option::Some(_) => {
                    if m > best_mtime {
                        best = Option::Some(i);
                        best_mtime = m;
                    }
                },
            }
        }
        i = i + 1;
    }
    proof {
        assert(entries@.subrange(0, entries@.len() as int) =~= entries@);
    }
    best
}

/// Which directory is the package's active version directory.
#[derive(Clone, Copy, Debug, PartialEq, Eq, Structural)]
pub enum ActiveDir {
    /// The `current` link.
    CurrentLink,
    /// The entry at this index of the package directory's subdirectory list.
    VersionAt(usize),
}

/// The active version directory of `d`: `current` when present, otherwise the
/// latest fallback candidate, otherwise nothing.
pub fn locate_install_dir(d: &PackageDirState) -> (r: Option<ActiveDir>)
    ensures
        match r {
            Option::Some(ActiveDir::CurrentLink) => d@.current is Some,
            Option::Some(ActiveDir::VersionAt(i)) => d@.current is None && spec_latest_candidate(
                d@.entries,
            ) == Option::Some(i as int),
            Option::None => d@.current is None && spec_latest_candidate(d@.entries) is None,
        },
{
    if d.current.is_some() {
        Option::Some(ActiveDir::CurrentLink)
    } else {
        match find_latest_version_dir(&d.entries) {
            Option::Some(i) => Option::Some(ActiveDir::VersionAt(i)),
            Option::None => Option::None,
        }
    }
}

/// The modification stamp that stands for the whole package directory in the
/// fingerprint: its active version directory's effective time, else the
/// package directory's own time.
pub open spec fn spec_dir_stamp(d: PackageDirModel) -> u64 {
    match d.current {
        Option::Some(c) => spec_effective_mtime(c),
        Option::None => match spec_latest_candidate(d.entries) {
            Option::Some(j) => spec_effective_mtime(d.entries[j]),
            Option::None => d.dir_mtime_ms,
        },
    }
}

/// The fingerprint stamp of one package directory.
pub fn dir_stamp(d: &PackageDirState) -> (r: u64)
    ensures
        r == spec_dir_stamp(d@),
{
    match d.current {
        Option::Some(ref c) => effective_mtime(c),
        Option::None => {
            proof {
                lemma_latest_candidate_in_range(d@.entries);
            }
            match find_latest_version_dir(&d.entries) {
                Option::Some(i) => effective_mtime(&d.entries[i]),
                Option::None => d.dir_mtime_ms,
            }
        },
    }
}

} // verus!
