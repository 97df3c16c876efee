//! Manifest resolution: from a version id to the URL of its descriptor.

use vstd::prelude::*;
use crate::error::AppError;
use crate::mirror::{apply_mirror, mirrored, MirrorRule, PISTON_META_HOST};
use crate::text::{join2, owned};

verus! {

/// One entry of the remote version index.
pub struct RemoteVersion {
    pub id: String,
    /// release, snapshot, old_alpha or old_beta.
    pub kind: String,
    pub url: String,
    pub time: String,
    pub release_time: String,
}

/// The remote version index.
pub struct RemoteVersionManifest {
    pub versions: Vec<RemoteVersion>,
}

/// Upstream URL of the version index.
pub open spec fn version_index_url_spec() -> Seq<char> {
    PISTON_META_HOST@ + "/mc/game/version_manifest_v2.json"@
}

/// The index has an entry for `id`.
pub open spec fn index_has(vs: Seq<RemoteVersion>, id: Seq<char>) -> bool {
    exists|i: int| 0 <= i < vs.len() && (#[trigger] vs[i]).id@ == id
}

/// `i` is the first entry of the index for `id`.
pub open spec fn first_entry(vs: Seq<RemoteVersion>, id: Seq<char>, i: int) -> bool {
    &&& 0 <= i < vs.len()
    &&& vs[i].id@ == id
    &&& forall|j: int| 0 <= j < i ==> (#[trigger] vs[j]).id@ != id
}

/// The URL from which the version index is fetched, after mirroring.
pub fn version_index_url(rules: &Vec<MirrorRule>) -> (r: String)
    ensures
        r@ == mirrored(version_index_url_spec(), rules@),
{
    let u = join2(PISTON_META_HOST, "/mc/game/version_manifest_v2.json");
    apply_mirror(u.as_str(), rules)
}

/// Looks up `id` in the index: the mirrored descriptor URL of its first
/// entry, or `VersionNotFound` when the index has none. Nothing is to be
/// written on failure.
pub fn find_descriptor_url(index: &RemoteVersionManifest, id: &str, rules: &Vec<MirrorRule>) -> (r: Result<String, AppError>)
    ensures
        r is Ok <==> index_has(index.versions@, id@),
        r matches Ok(u) ==> exists|i: int| first_entry(index.versions@, id@, i) && u@ == mirrored(
            index.versions@[i].url@,
            rules@,
        ),
        r matches Err(e) ==> e matches AppError::VersionNotFound(m) && m@ == id@,
{
    let key = owned(id);
    let vs = &index.versions;
    let mut i: usize = 0;
    while i < vs.len()
        invariant
            i <= vs@.len(),
            key@ == id@,
            vs@ == index.versions@,
            forall|j: int| 0 <= j < i ==> (#[trigger] vs@[j]).id@ != id@,
        decreases vs.len() - i,
    {
        if vs[i].id == key {
            assert(vs@[i as int].id@ == id@);
            assert(first_entry(vs@, id@, i as int));
            let u = apply_mirror(vs[i].url.as_str(), rules);
            assert(u@ == mirrored(index.versions@[i as int].url@, rules@));
            return Ok(u);
        }
        i = i + 1;
    }
    Err(AppError::VersionNotFound(key))
}

} // verus!
