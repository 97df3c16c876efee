//! Layout of the content store shared by all instances, and of the
//! directories of one instance.

use vstd::prelude::*;
use crate::text::{join2, join3};

verus! {

/// `a/b`.
pub open spec fn path_join(a: Seq<char>, b: Seq<char>) -> Seq<char> {
    a + seq!['/'] + b
}

/// `<root>/versions/<id>`.
pub open spec fn version_dir_spec(root: Seq<char>, id: Seq<char>) -> Seq<char> {
    path_join(path_join(root, "versions"@), id)
}

/// `<root>/versions/<id>/<id>.json`.
pub open spec fn descriptor_path_spec(root: Seq<char>, id: Seq<char>) -> Seq<char> {
    path_join(version_dir_spec(root, id), id + ".json"@)
}

/// `<root>/versions/<id>/<id>.jar`.
pub open spec fn core_archive_path_spec(root: Seq<char>, id: Seq<char>) -> Seq<char> {
    path_join(version_dir_spec(root, id), id + ".jar"@)
}

/// `<root>/libraries/<relative path>`.
pub open spec fn library_path_spec(root: Seq<char>, rel: Seq<char>) -> Seq<char> {
    path_join(path_join(root, "libraries"@), rel)
}

/// `<root>/assets/indexes/<index id>.json`.
pub open spec fn asset_index_path_spec(root: Seq<char>, index_id: Seq<char>) -> Seq<char> {
    path_join(path_join(path_join(root, "assets"@), "indexes"@), index_id + ".json"@)
}

/// The first two characters of a hash.
pub open spec fn hash_prefix(hash: Seq<char>) -> Seq<char> {
    hash.subrange(0, 2)
}

/// `<root>/assets/objects`.
pub open spec fn objects_dir_spec(root: Seq<char>) -> Seq<char> {
    path_join(path_join(root, "assets"@), "objects"@)
}

/// `<root>/assets/objects/<first two characters of hash>/<hash>`.
pub open spec fn asset_object_path_spec(root: Seq<char>, hash: Seq<char>) -> Seq<char> {
    path_join(path_join(objects_dir_spec(root), hash_prefix(hash)), hash)
}

/// Appends `/` and `b` to `a`.
pub fn join_path(a: &str, b: &str) -> (r: String)
    ensures
        r@ == path_join(a@, b@),
{
    proof {
        reveal_strlit("/");
    }
    assert("/"@ =~= seq!['/']);
    join3(a, "/", b)
}

/// Directory of a version.
pub fn version_dir(root: &str, id: &str) -> (r: String)
    ensures
        r@ == version_dir_spec(root@, id@),
{
    let v = join_path(root, "versions");
    join_path(v.as_str(), id)
}

/// Path of the descriptor of a version.
pub fn descriptor_path(root: &str, id: &str) -> (r: String)
    ensures
        r@ == descriptor_path_spec(root@, id@),
{
    let d = version_dir(root, id);
    let f = join2(id, ".json");
    join_path(d.as_str(), f.as_str())
}

/// Path of the core archive of a version.
pub fn core_archive_path(root: &str, id: &str) -> (r: String)
    ensures
        r@ == core_archive_path_spec(root@, id@),
{
    let d = version_dir(root, id);
    let f = join2(id, ".jar");
    join_path(d.as_str(), f.as_str())
}

/// Path of a library artifact.
pub fn library_path(root: &str, rel: &str) -> (r: String)
    ensures
        r@ == library_path_spec(root@, rel@),
{
    let l = join_path(root, "libraries");
    join_path(l.as_str(), rel)
}

/// Path of an asset index.
pub fn asset_index_path(root: &str, index_id: &str) -> (r: String)
    ensures
        r@ == asset_index_path_spec(root@, index_id@),
{
    let a = join_path(root, "assets");
    let i = join_path(a.as_str(), "indexes");
    let f = join2(index_id, ".json");
    join_path(i.as_str(), f.as_str())
}

/// Directory that holds all asset objects.
pub fn objects_dir(root: &str) -> (r: String)
    ensures
        r@ == objects_dir_spec(root@),
{
    let a = join_path(root, "assets");
    join_path(a.as_str(), "objects")
}

/// Path of an asset object.
pub fn asset_object_path(root: &str, hash: &str) -> (r: String)
    requires
        hash@.len() >= 2,
    ensures
        r@ == asset_object_path_spec(root@, hash@),
{
    let o = objects_dir(root);
    let p = join_path(o.as_str(), hash.substring_char(0, 2));
    join_path(p.as_str(), hash)
}

/// Two hashes of at least two characters have the same object path only
/// when they are equal.
pub proof fn lemma_asset_object_path_injective(root: Seq<char>, h1: Seq<char>, h2: Seq<char>)
    requires
        h1.len() >= 2,
        h2.len() >= 2,
        asset_object_path_spec(root, h1) == asset_object_path_spec(root, h2),
    ensures
        h1 == h2,
{
    let p1 = path_join(objects_dir_spec(root), hash_prefix(h1)) + seq!['/'];
    let p2 = path_join(objects_dir_spec(root), hash_prefix(h2)) + seq!['/'];
    let s = asset_object_path_spec(root, h1);
    assert(p1.len() == p2.len());
    assert(s =~= p1 + h1);
    assert(asset_object_path_spec(root, h2) =~= p2 + h2);
    assert(h1 =~= s.subrange(p1.len() as int, s.len() as int));
    assert(h2 =~= s.subrange(p2.len() as int, s.len() as int));
}

} // verus!
