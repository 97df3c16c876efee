//! Mirror substitution: an ordered list of (upstream host, mirror host)
//! rules, applied to every URL before it is requested.

use vstd::prelude::*;
use crate::text::{is_prefix_of, has_prefix, join2};

verus! {

/// Host of the distribution mirror that every upstream host is redirected to.
pub const MIRROR_HOST: &'static str = "https://bmclapi2.bangbang93.com";
/// Upstream host of version indices and descriptors.
pub const PISTON_META_HOST: &'static str = "https://piston-meta.mojang.com";
/// Upstream host of core archives.
pub const PISTON_DATA_HOST: &'static str = "https://piston-data.mojang.com";
/// Upstream host of library artifacts.
pub const LIBRARIES_HOST: &'static str = "https://libraries.minecraft.net";
/// Mirror location of library artifacts.
pub const LIBRARIES_MIRROR: &'static str = "https://bmclapi2.bangbang93.com/maven";
/// Upstream host of asset indices.
pub const LAUNCHER_META_HOST: &'static str = "https://launchermeta.mojang.com";
/// Upstream host of asset objects.
pub const RESOURCES_HOST: &'static str = "https://resources.download.minecraft.net";
/// Mirror location of asset objects.
pub const RESOURCES_MIRROR: &'static str = "https://bmclapi2.bangbang93.com/assets";

/// Rewrites URLs whose host is `from` so that they point at `to`.
pub struct MirrorRule {
    pub from: String,
    pub to: String,
}

/// A character that ends the host part of a URL: the start of a port, a
/// path, a query or a fragment.
pub open spec fn ends_host(c: char) -> bool {
    c == '/' || c == ':' || c == '?' || c == '#'
}

/// `url` names the host `host` exactly: `host` is a prefix of it and is
/// followed by the end of the URL, a port, a path, a query or a fragment.
pub open spec fn names_host(host: Seq<char>, url: Seq<char>) -> bool {
    is_prefix_of(host, url) && (url.len() == host.len() || ends_host(url[host.len() as int]))
}

/// `url` after the first rule that names its host has been applied; `url`
/// itself when no rule does.
pub open spec fn mirrored(url: Seq<char>, rules: Seq<MirrorRule>) -> Seq<char>
    decreases rules.len(),
{
    if rules.len() == 0 {
        url
    } else if names_host(rules[0].from@, url) {
        rules[0].to@ + url.subrange(rules[0].from@.len() as int, url.len() as int)
    } else {
        mirrored(url, rules.drop_first())
    }
}

/// Each rule really changes the host that it matches.
pub open spec fn rules_well_formed(rules: Seq<MirrorRule>) -> bool {
    forall|i: int| 0 <= i < rules.len() ==> #[trigger] rules[i].from@ != rules[i].to@
}

/// Some rule names the host of `url`.
pub open spec fn has_rule_for(url: Seq<char>, rules: Seq<MirrorRule>) -> bool {
    exists|i: int| 0 <= i < rules.len() && names_host(#[trigger] rules[i].from@, url)
}

/// Whether `url` names the host `host` exactly.
pub fn url_names_host(url: &str, host: &str) -> (r: bool)
    ensures
        r == names_host(host@, url@),
{
    if !has_prefix(url, host) {
        return false;
    }
    let n = host.unicode_len();
    let m = url.unicode_len();
    if n == m {
        return true;
    }
    let c = url.get_char(n);
    c == '/' || c == ':' || c == '?' || c == '#'
}

/// Applies the first rule whose host `url` names.
pub fn apply_mirror(url: &str, rules: &Vec<MirrorRule>) -> (r: String)
    ensures
        r@ == mirrored(url@, rules@),
{
    let mut i: usize = 0;
    assert(rules@.subrange(0, rules@.len() as int) =~= rules@);
    while i < rules.len()
        invariant
            i <= rules@.len(),
            mirrored(url@, rules@) == mirrored(url@, rules@.subrange(i as int, rules@.len() as int)),
        decreases rules.len() - i,
    {
        let rest = Ghost(rules@.subrange(i as int, rules@.len() as int));
        assert(rest@[0] == rules@[i as int]);
        if url_names_host(url, rules[i].from.as_str()) {
            let n = rules[i].from.as_str().unicode_len();
            let m = url.unicode_len();
            let tail = url.substring_char(n, m);
            return join2(rules[i].to.as_str(), tail);
        }
        assert(rest@.drop_first() =~= rules@.subrange(i + 1, rules@.len() as int));
        i = i + 1;
    }
    assert(rules@.subrange(i as int, rules@.len() as int).len() == 0);
    String::from_str(url)
}

/// The rules of the default mirror, in the order they are tried.
pub fn default_rules() -> (r: Vec<MirrorRule>)
    ensures
        r@.len() == 5,
        r@[0].from@ == PISTON_META_HOST@ && r@[0].to@ == MIRROR_HOST@,
        r@[1].from@ == PISTON_DATA_HOST@ && r@[1].to@ == MIRROR_HOST@,
        r@[2].from@ == LIBRARIES_HOST@ && r@[2].to@ == LIBRARIES_MIRROR@,
        r@[3].from@ == LAUNCHER_META_HOST@ && r@[3].to@ == MIRROR_HOST@,
        r@[4].from@ == RESOURCES_HOST@ && r@[4].to@ == RESOURCES_MIRROR@,
        rules_well_formed(r@),
{
    proof {
        reveal_strlit("https://bmclapi2.bangbang93.com");
        reveal_strlit("https://piston-meta.mojang.com");
        reveal_strlit("https://piston-data.mojang.com");
        reveal_strlit("https://libraries.minecraft.net");
        reveal_strlit("https://bmclapi2.bangbang93.com/maven");
        reveal_strlit("https://launchermeta.mojang.com");
        reveal_strlit("https://resources.download.minecraft.net");
        reveal_strlit("https://bmclapi2.bangbang93.com/assets");
    }
    let mut r: Vec<MirrorRule> = Vec::new();
    r.push(MirrorRule { from: String::from_str(PISTON_META_HOST), to: String::from_str(MIRROR_HOST) });
    r.push(MirrorRule { from: String::from_str(PISTON_DATA_HOST), to: String::from_str(MIRROR_HOST) });
    r.push(MirrorRule { from: String::from_str(LIBRARIES_HOST), to: String::from_str(LIBRARIES_MIRROR) });
    r.push(MirrorRule { from: String::from_str(LAUNCHER_META_HOST), to: String::from_str(MIRROR_HOST) });
    r.push(MirrorRule { from: String::from_str(RESOURCES_HOST), to: String::from_str(RESOURCES_MIRROR) });
    assert(r@[0].from@[8] != r@[0].to@[8]);
    assert(r@[1].from@[8] != r@[1].to@[8]);
    assert(r@[2].from@[8] != r@[2].to@[8]);
    assert(r@[3].from@[8] != r@[3].to@[8]);
    assert(r@[4].from@[8] != r@[4].to@[8]);
    r
}

/// A URL whose host one of the rules names is never requested as it
/// stands: it is rewritten to that rule's mirror host.
pub proof fn lemma_upstream_url_is_rewritten(url: Seq<char>, rules: Seq<MirrorRule>)
    requires
        rules_well_formed(rules),
        has_rule_for(url, rules),
    ensures
        mirrored(url, rules) != url,
        exists|i: int| 0 <= i < rules.len() && is_prefix_of(#[trigger] rules[i].to@, mirrored(url, rules)),
    decreases rules.len(),
{
    if names_host(rules[0].from@, url) {
        let from = rules[0].from@;
        let to = rules[0].to@;
        let tail = url.subrange(from.len() as int, url.len() as int);
        assert(url =~= from + tail);
        assert(to != from);
        if to + tail == url {
            assert(to.len() == from.len());
            assert(to =~= (to + tail).subrange(0, to.len() as int));
            assert(from =~= (from + tail).subrange(0, from.len() as int));
        }
        assert((to + tail).subrange(0, to.len() as int) =~= to);
    } else {
        let i = choose|i: int| 0 <= i < rules.len() && names_host(#[trigger] rules[i].from@, url);
        let rest = rules.drop_first();
        assert(rest[i - 1] == rules[i]);
        assert forall|j: int| 0 <= j < rest.len() implies #[trigger] rest[j].from@ != rest[j].to@ by {
            assert(rest[j] == rules[j + 1]);
        }
        lemma_upstream_url_is_rewritten(url, rest);
        let k = choose|k: int| 0 <= k < rest.len() && is_prefix_of(#[trigger] rest[k].to@, mirrored(url, rest));
        assert(rest[k] == rules[k + 1]);
    }
}

} // verus!
