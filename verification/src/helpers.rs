//! Startup checks for the data directory layout.
//!
//! The stores assume a fixed tree of directories under `data/`.  The
//! surrounding application probes each required path and reports what
//! it found; the decision — which probes are acceptable, and which
//! directories must be created — is made here.  A path that exists but
//! is not a writable directory fails the whole check.

use vstd::prelude::*;

verus! {

/// What a probe of one required path found.
#[derive(Clone, Copy, Debug, PartialEq, Eq, Structural)]
pub enum DirectoryStatus {
    /// Nothing exists at the path; the directory is to be created.
    Missing,
    /// A writable directory exists.
    Writable,
    /// A directory exists but is read-only.
    ReadOnly,
    /// Something exists at the path that is not a directory.
    NotADirectory,
}

/// The directory-structure check failed: some required path is not a
/// usable directory and cannot become one.
#[derive(Clone, Copy, Debug, PartialEq, Eq, Structural)]
pub struct SetupError;

/// A probe result that lets setup go on: the directory either already
/// is usable, or can be created.
pub open spec fn probe_acceptable(probe: DirectoryStatus) -> bool {
    probe == DirectoryStatus::Missing || probe == DirectoryStatus::Writable
}

/// The required directories, parents before children.
pub open spec fn spec_required_directories() -> Seq<Seq<char>> {
    seq![
        "data"@,
        "data/auth"@,
        "data/public"@,
        "data/public/images"@,
        "data/public/files"@,
        "data/articles"@,
        "data/articles/published"@,
        "data/articles/draft"@,
        "data/articles_trashcan"@,
        "data/articles_trashcan/published"@,
        "data/articles_trashcan/draft"@,
        "data/cache"@,
        "data/cache/metadata"@,
        "data/cache/metadata/published"@,
        "data/cache/metadata/draft"@,
        "data/cache/search"@,
        "data/cache/stats"@,
        "data/logs"@,
    ]
}

/// The required directories, parents before children, as paths to
/// probe and create.
pub fn required_directories() -> (dirs: Vec<String>)
    ensures
        dirs.deep_view() == spec_required_directories(),
{
    let mut dirs: Vec<String> = Vec::new();
    dirs.push("data".to_owned());
    dirs.push("data/auth".to_owned());
    dirs.push("data/public".to_owned());
    dirs.push("data/public/images".to_owned());
    dirs.push("data/public/files".to_owned());
    dirs.push("data/articles".to_owned());
    dirs.push("data/articles/published".to_owned());
    dirs.push("data/articles/draft".to_owned());
    dirs.push("data/articles_trashcan".to_owned());
    dirs.push("data/articles_trashcan/published".to_owned());
    dirs.push("data/articles_trashcan/draft".to_owned());
    dirs.push("data/cache".to_owned());
    dirs.push("data/cache/metadata".to_owned());
    dirs.push("data/cache/metadata/published".to_owned());
    dirs.push("data/cache/metadata/draft".to_owned());
    dirs.push("data/cache/search".to_owned());
    dirs.push("data/cache/stats".to_owned());
    dirs.push("data/logs".to_owned());
    proof {
        assert(dirs.deep_view() =~= spec_required_directories());
    }
    dirs
}

/// Whether every probed path is a usable directory or can become one.
pub fn setup_directories_structure(probes: &Vec<DirectoryStatus>) -> (ok: bool)
    ensures
        ok == forall|i: int| 0 <= i < probes@.len() ==> probe_acceptable(#[trigger] probes@[i]),
{
    let mut i: usize = 0;
    while i < probes.len()
        invariant
            i <= probes@.len(),
            forall|j: int| 0 <= j < i ==> probe_acceptable(#[trigger] probes@[j]),
        decreases probes@.len() - i,
    {
        match probes[i] {
            DirectoryStatus::Missing => {},
            DirectoryStatus::Writable => {},
            DirectoryStatus::ReadOnly => {
                return false;
            },
            DirectoryStatus::NotADirectory => {
                return false;
            },
        }
        i += 1;
    }
    true
}

/// Decide whether startup may proceed, given one probe per required
/// path.
pub fn setup_system(probes: &Vec<DirectoryStatus>) -> (r: Result<(), SetupError>)
    ensures
        match r {
            Ok(()) => forall|i: int|
                0 <= i < probes@.len() ==> probe_acceptable(#[trigger] probes@[i]),
            Err(SetupError) => exists|i: int|
                0 <= i < probes@.len() && !probe_acceptable(#[trigger] probes@[i]),
        },
{
    if setup_directories_structure(probes) {
        Ok(())
    } else {
        Err(SetupError)
    }
}

} // verus!
