//! The version descriptor and asset index, as the planners read them.

use vstd::prelude::*;

verus! {

/// Where the asset index of a version is found.
pub struct AssetIndexMeta {
    pub id: String,
    pub url: String,
    pub sha1: String,
}

/// One downloadable file of a library.
pub struct Artifact {
    pub path: String,
    pub url: String,
    pub sha1: String,
    pub size: u64,
}

/// The downloads of a library; natives not resolved for this platform have
/// no artifact.
pub struct LibraryDownloads {
    pub artifact: Option<Artifact>,
}

/// A library that a version depends on.
pub struct LibraryEntry {
    pub name: String,
    pub downloads: Option<LibraryDownloads>,
}

/// The core archive of a version.
pub struct CoreDownload {
    pub url: String,
    pub sha1: String,
    pub size: u64,
}

/// The per-version descriptor: asset index, libraries and core archive.
pub struct VersionManifestJson {
    pub asset_index: AssetIndexMeta,
    pub libraries: Vec<LibraryEntry>,
    pub core_download: Option<CoreDownload>,
}

/// One object of an asset index, addressed by its content hash.
pub struct AssetObject {
    pub hash: String,
    pub size: u64,
}

/// An asset index: logical asset names with the object each stands for.
/// Many names may share one hash.
pub struct AssetIndexJson {
    pub objects: Vec<(String, AssetObject)>,
}

/// The artifact of a library, if it has one.
pub open spec fn artifact_of(lib: LibraryEntry) -> Option<Artifact> {
    match lib.downloads {
        Some(d) => d.artifact,
        None => None,
    }
}

} // verus!
