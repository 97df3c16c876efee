//! Mod loader versions: where each loader publishes them, and how the
//! answers are read.

use vstd::prelude::*;
use crate::instance::{lower_of, lowercase, views};
use crate::text::{join2, join3, owned};

verus! {

/// One entry of Fabric's loader list.
pub struct FabricLoaderMeta {
    pub loader: FabricLoaderInfo,
}

/// The loader part of a Fabric entry.
pub struct FabricLoaderInfo {
    pub version: String,
}

/// One entry of the mirror's Forge or NeoForge list.
pub struct BmclApiLoaderVersion {
    pub version: String,
}

/// Looks up the versions of a mod loader for a game version.
pub struct LoaderMetadataService;

/// Where the versions of the loader `kind` (in lower case) for game version
/// `gv` are listed; `None` for a loader without a list.
pub open spec fn versions_url_spec(kind: Seq<char>, gv: Seq<char>) -> Option<Seq<char>> {
    if kind == "fabric"@ {
        Some("https://meta.fabricmc.net/v2/versions/loader/"@ + gv)
    } else if kind == "forge"@ {
        Some("https://bmclapi2.bangbang93.com/forge/minecraft/"@ + gv)
    } else if kind == "neoforge"@ {
        Some("https://bmclapi2.bangbang93.com/neoforge/list/"@ + gv)
    } else {
        None
    }
}

impl LoaderMetadataService {
    /// The key under which the versions of a loader for a game version are
    /// cached.
    pub fn cache_key(loader_type: &str, game_version: &str) -> (r: String)
        ensures
            r@ == lower_of(loader_type@) + "_"@ + game_version@,
    {
        let l = lowercase(loader_type);
        Self::cache_key_for(l.as_str(), game_version)
    }

    /// The cache key for a loader named in lower case.
    pub fn cache_key_for(kind: &str, game_version: &str) -> (r: String)
        ensures
            r@ == kind@ + "_"@ + game_version@,
    {
        join3(kind, "_", game_version)
    }

    /// Where the versions of a loader, named in lower case, are listed.
    pub fn versions_url_for(kind: &str, game_version: &str) -> (r: Option<String>)
        ensures
            r matches Some(u) ==> versions_url_spec(kind@, game_version@) == Some(u@),
            r is None ==> versions_url_spec(kind@, game_version@) is None,
    {
        let k = owned(kind);
        if k == owned("fabric") {
            Some(join2("https://meta.fabricmc.net/v2/versions/loader/", game_version))
        } else if k == owned("forge") {
            Some(join2("https://bmclapi2.bangbang93.com/forge/minecraft/", game_version))
        } else if k == owned("neoforge") {
            Some(join2("https://bmclapi2.bangbang93.com/neoforge/list/", game_version))
        } else {
            None
        }
    }

    /// Whether a loader, named in any case, is Fabric, whose list has a
    /// shape of its own.
    pub fn is_fabric(loader_type: &str) -> (r: bool)
        ensures
            r == (lower_of(loader_type@) == "fabric"@),
    {
        let l = lowercase(loader_type);
        l == owned("fabric")
    }

    /// Where the versions of a loader, named in any case, are listed.
    pub fn versions_url(loader_type: &str, game_version: &str) -> (r: Option<String>)
        ensures
            r matches Some(u) ==> versions_url_spec(lower_of(loader_type@), game_version@) == Some(u@),
            r is None ==> versions_url_spec(lower_of(loader_type@), game_version@) is None,
    {
        let l = lowercase(loader_type);
        Self::versions_url_for(l.as_str(), game_version)
    }

    /// The version numbers of Fabric's answer, in order.
    pub fn fabric_versions(data: &Vec<FabricLoaderMeta>) -> (r: Vec<String>)
        ensures
            views(r@) == data@.map_values(|m: FabricLoaderMeta| m.loader.version@),
    {
        let mut r: Vec<String> = Vec::new();
        let mut i: usize = 0;
        while i < data.len()
            invariant
                i <= data@.len(),
                views(r@) == data@.subrange(0, i as int).map_values(|m: FabricLoaderMeta| m.loader.version@),
            decreases data.len() - i,
        {
            let ghost before = r@;
            r.push(data[i].loader.version.clone());
            assert(views(r@) =~= views(before).push(data@[i as int].loader.version@));
            assert(data@.subrange(0, i + 1).map_values(|m: FabricLoaderMeta| m.loader.version@) =~= data@.subrange(
                0,
                i as int,
            ).map_values(|m: FabricLoaderMeta| m.loader.version@).push(data@[i as int].loader.version@));
            i = i + 1;
        }
        assert(data@.subrange(0, data@.len() as int) =~= data@);
        r
    }

    /// The version numbers of the mirror's answer, in order.
    pub fn bmclapi_versions(data: &Vec<BmclApiLoaderVersion>) -> (r: Vec<String>)
        ensures
            views(r@) == data@.map_values(|m: BmclApiLoaderVersion| m.version@),
    {
        let mut r: Vec<String> = Vec::new();
        let mut i: usize = 0;
        while i < data.len()
            invariant
                i <= data@.len(),
                views(r@) == data@.subrange(0, i as int).map_values(|m: BmclApiLoaderVersion| m.version@),
            decreases data.len() - i,
        {
            let ghost before = r@;
            r.push(data[i].version.clone());
            assert(views(r@) =~= views(before).push(data@[i as int].version@));
            assert(data@.subrange(0, i + 1).map_values(|m: BmclApiLoaderVersion| m.version@) =~= data@.subrange(
                0,
                i as int,
            ).map_values(|m: BmclApiLoaderVersion| m.version@).push(data@[i as int].version@));
            i = i + 1;
        }
        assert(data@.subrange(0, data@.len() as int) =~= data@);
        r
    }
}

} // verus!
