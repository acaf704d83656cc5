//! The manifest model: the artifacts to install and the pack's metadata.
use vstd::prelude::*;

verus! {

/// One artifact of the manifest: a remote file and where it goes.
pub struct ModFile {
    /// Candidate source URLs; the first one is used.
    pub downloads: Vec<String>,
    /// Where the artifact applies (client, server), as name and value pairs.
    pub env: Vec<(String, String)>,
    /// Declared size in bytes, used to size progress displays only.
    pub file_size: u64,
    /// Expected digests by algorithm name; carried, not checked.
    pub hashes: Vec<(String, String)>,
    /// Destination, relative to the output root.
    pub path: String,
}

/// A manifest: its artifacts in order, and its metadata.
pub struct ModrinthIndex {
    /// Dependency names (runtime, loader) with their versions; names unique.
    pub dependencies: Vec<(String, String)>,
    pub files: Vec<ModFile>,
    pub format_version: u32,
    pub game: String,
    pub name: String,
    pub version_id: String,
}

/// The version recorded for the first dependency named `key`, if any.
pub open spec fn find_dependency(deps: Seq<(String, String)>, key: Seq<char>) -> Option<Seq<char>>
    decreases deps.len(),
{
    if deps.len() == 0 {
        None
    } else if deps[0].0@ == key {
        Some(deps[0].1@)
    } else {
        find_dependency(deps.drop_first(), key)
    }
}

/// The version recorded for dependency `key`, or `unknown`.
pub open spec fn dependency_or_unknown(deps: Seq<(String, String)>, key: Seq<char>) -> Seq<char> {
    match find_dependency(deps, key) {
        Some(v) => v,
        None => "unknown"@,
    }
}

/// Looks up the version of dependency `key`.
pub fn dependency_version(deps: &Vec<(String, String)>, key: &str) -> (r: Option<String>)
    ensures
        match r {
            Some(v) => find_dependency(deps@, key@) == Some(v@),
            None => find_dependency(deps@, key@) is None,
        },
{
    let n = deps.len();
    let k = String::from_str(key);
    let mut i: usize = 0;
    proof {
        assert(deps@.subrange(0, n as int) =~= deps@);
    }
    while i < n
        invariant
            n == deps@.len(),
            i <= n,
            k@ == key@,
            find_dependency(deps@, key@) == find_dependency(deps@.subrange(i as int, n as int), key@),
        decreases n - i,
    {
        proof {
            assert(deps@.subrange(i as int, n as int).drop_first() =~= deps@.subrange(
                i + 1,
                n as int,
            ));
            assert(deps@.subrange(i as int, n as int)[0] == deps@[i as int]);
        }
        if deps[i].0 == k {
            return Some(deps[i].1.clone());
        }
        i = i + 1;
    }
    None
}

/// Looks up the version of dependency `key`, `unknown` where there is none.
pub fn dependency_or_unknown_text(deps: &Vec<(String, String)>, key: &str) -> (r: String)
    ensures
        r@ == dependency_or_unknown(deps@, key@),
{
    match dependency_version(deps, key) {
        Some(v) => v,
        None => String::from_str("unknown"),
    }
}

/// The mod loader a manifest targets.
#[derive(Debug, Clone, Copy, PartialEq, Eq)]
pub enum Loader {
    Fabric,
    Forge,
    Quilt,
    Unknown,
}

/// The loader of a manifest, by which dependency it names: `fabric-loader`
/// first, then `forge`, then `quilt-loader`.
pub open spec fn loader_of(deps: Seq<(String, String)>) -> Loader {
    if find_dependency(deps, "fabric-loader"@) is Some {
        Loader::Fabric
    } else if find_dependency(deps, "forge"@) is Some {
        Loader::Forge
    } else if find_dependency(deps, "quilt-loader"@) is Some {
        Loader::Quilt
    } else {
        Loader::Unknown
    }
}

/// The dependency name under which a loader records its version.
pub open spec fn loader_key(l: Loader) -> Option<Seq<char>> {
    match l {
        Loader::Fabric => Some("fabric-loader"@),
        Loader::Forge => Some("forge"@),
        Loader::Quilt => Some("quilt-loader"@),
        Loader::Unknown => None,
    }
}

pub open spec fn loader_label(l: Loader) -> Seq<char> {
    match l {
        Loader::Fabric => "Fabric"@,
        Loader::Forge => "Forge"@,
        Loader::Quilt => "Quilt"@,
        Loader::Unknown => "Unknown"@,
    }
}

/// The loader's version as the manifest records it, or `unknown`.
pub open spec fn loader_version_of(deps: Seq<(String, String)>) -> Seq<char> {
    match loader_key(loader_of(deps)) {
        Some(key) => dependency_or_unknown(deps, key),
        None => "unknown"@,
    }
}

impl Loader {
    /// The loader's display name.
    pub fn label(&self) -> (r: &'static str)
        ensures
            r@ == loader_label(*self),
    {
        match self {
            Loader::Fabric => "Fabric",
            Loader::Forge => "Forge",
            Loader::Quilt => "Quilt",
            Loader::Unknown => "Unknown",
        }
    }
}

/// Detects the loader a manifest targets from its dependencies.
pub fn detect_loader(deps: &Vec<(String, String)>) -> (r: Loader)
    ensures
        r == loader_of(deps@),
{
    if dependency_version(deps, "fabric-loader").is_some() {
        Loader::Fabric
    } else if dependency_version(deps, "forge").is_some() {
        Loader::Forge
    } else if dependency_version(deps, "quilt-loader").is_some() {
        Loader::Quilt
    } else {
        Loader::Unknown
    }
}

/// The version of the loader a manifest targets, or `unknown`.
pub fn loader_version(deps: &Vec<(String, String)>) -> (r: String)
    ensures
        r@ == loader_version_of(deps@),
{
    match detect_loader(deps) {
        Loader::Fabric => dependency_or_unknown_text(deps, "fabric-loader"),
        Loader::Forge => dependency_or_unknown_text(deps, "forge"),
        Loader::Quilt => dependency_or_unknown_text(deps, "quilt-loader"),
        Loader::Unknown => String::from_str("unknown"),
    }
}

/// Why a manifest cannot be run. No artifact is fetched from such a manifest.
#[derive(Debug, Clone, Copy, PartialEq, Eq)]
pub enum ManifestError {
    /// The artifact at this index lists no download URL.
    NoDownloadUrl(usize),
}

/// Every artifact lists at least one download URL.
pub open spec fn manifest_valid(index: ModrinthIndex) -> bool {
    forall|i: int| 0 <= i < index.files@.len() ==> (#[trigger] index.files@[i]).downloads@.len() > 0
}

/// Checks a manifest before a run: every artifact must list a download URL.
/// The error names the first artifact that does not.
pub fn validate(index: &ModrinthIndex) -> (r: Result<(), ManifestError>)
    ensures
        r is Ok <==> manifest_valid(*index),
        r matches Err(ManifestError::NoDownloadUrl(i)) ==> i < index.files@.len()
            && index.files@[i as int].downloads@.len() == 0 && forall|k: int|
            0 <= k < i ==> (#[trigger] index.files@[k]).downloads@.len() > 0,
{
    let n = index.files.len();
    let mut i: usize = 0;
    while i < n
        invariant
            n == index.files@.len(),
            i <= n,
            forall|k: int| 0 <= k < i ==> (#[trigger] index.files@[k]).downloads@.len() > 0,
        decreases n - i,
    {
        if index.files[i].downloads.len() == 0 {
            return Err(ManifestError::NoDownloadUrl(i));
        }
        i = i + 1;
    }
    Ok(())
}

} // verus!
