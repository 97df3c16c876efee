//! The version list shown to the user: which group each version falls in,
//! read from the shape of its id.

use vstd::prelude::*;
use crate::resolver::RemoteVersion;
use crate::runtime::{first_index_of, index_of_char};
use crate::text::{join2, join3, owned};

verus! {

/// A version as the list shows it.
pub struct McVersion {
    pub id: String,
    pub kind: String,
    /// Release date, `YYYY-MM-DD`.
    pub release_time: String,
    pub wiki_url: String,
}

/// A named group of versions.
pub struct VersionGroup {
    pub group_name: String,
    pub versions: Vec<McVersion>,
}

/// Builds the version list.
pub struct McMetadataService;

/// Release candidates, such as `1.21.2-rc1`; the group is the base version.
pub const RC_PATTERN: &'static str = "^([\\d\\.]+)-rc\\d+$";
/// Pre-releases, such as `1.21.2-pre2`; the group is the base version.
pub const PRE_PATTERN: &'static str = "^([\\d\\.]+)-pre\\d+$";
/// Weekly snapshots, such as `23w31a`; the group is the two-digit year.
pub const WEEK_PATTERN: &'static str = "^(\\d{2})w\\d+[a-z]$";
/// Numbered snapshots, such as `1.21-snapshot-3`; the group is the base version.
pub const SNAPSHOT_PATTERN: &'static str = "^([\\d\\.]+)-snapshot-\\d+$";

/// A name for what the `regex` crate finds as the first capture group of
/// `pattern` in `text`: `None` when the pattern does not match (or does
/// not compile) or the group takes no part in the match.
pub uninterp spec fn regex_group_one(pattern: Seq<char>, text: Seq<char>) -> Option<Seq<char>>;

/// Relies on `regex::Regex::new` and `Regex::captures` with
/// `Captures::get(1)`: the first capture group of `pattern` in `text`.
/// Neither panics; the result depends on the two texts alone.
#[verifier::external_body]
fn first_group(pattern: &str, text: &str) -> (r: Option<String>)
    ensures
        r matches Some(s) ==> regex_group_one(pattern@, text@) == Some(s@),
        r is None ==> regex_group_one(pattern@, text@) is None,
{
    let re = match regex::Regex::new(pattern) {
        Ok(re) => re,
        Err(_) => return None,
    };
    let caps = re.captures(text)?;
    let group = caps.get(1)?;
    Some(group.as_str().to_string())
}

/// The views of an optional string.
pub open spec fn opt_view(o: Option<String>) -> Option<Seq<char>> {
    match o {
        Some(s) => Some(s@),
        None => None,
    }
}

/// The group of a release: `Minecraft <major>.<minor>`, or the whole id
/// when it has no dot.
pub open spec fn release_group(id: Seq<char>) -> Seq<char> {
    let p = first_index_of(id, '.');
    if p >= id.len() {
        "Minecraft "@ + id
    } else {
        let rest = id.subrange(p + 1, id.len() as int);
        "Minecraft "@ + id.subrange(0, p) + "."@ + rest.subrange(0, first_index_of(rest, '.'))
    }
}

/// The group a version is listed in, given what each id pattern captured
/// of its id: release candidates and pre-releases by their base version,
/// releases by major and minor, snapshots by year or base version.
pub open spec fn group_name_for(
    id: Seq<char>,
    kind: Seq<char>,
    rc: Option<Seq<char>>,
    pre: Option<Seq<char>>,
    week: Option<Seq<char>>,
    snapshot: Option<Seq<char>>,
) -> Seq<char> {
    if rc is Some {
        rc->0 + " 候选版 (RC)"@
    } else if pre is Some {
        pre->0 + " 预发布版 (Pre)"@
    } else if kind == "release"@ {
        release_group(id)
    } else if kind == "snapshot"@ {
        if week is Some {
            "快照 20"@ + week->0
        } else if snapshot is Some {
            "快照 "@ + snapshot->0
        } else {
            "其他快照"@
        }
    } else {
        "其他版本"@
    }
}

/// The group a version is listed in.
pub open spec fn group_name_spec(id: Seq<char>, kind: Seq<char>) -> Seq<char> {
    group_name_for(
        id,
        kind,
        regex_group_one(RC_PATTERN@, id),
        regex_group_one(PRE_PATTERN@, id),
        regex_group_one(WEEK_PATTERN@, id),
        regex_group_one(SNAPSHOT_PATTERN@, id),
    )
}

/// The part of a timestamp before its `T`.
pub open spec fn date_part(t: Seq<char>) -> Seq<char> {
    t.subrange(0, first_index_of(t, 'T'))
}

impl McMetadataService {
    /// The group of a release id.
    pub fn release_group_of(id: &str) -> (r: String)
        ensures
            r@ == release_group(id@),
    {
        let n = id.unicode_len();
        let p = index_of_char(id, '.');
        if p >= n {
            return join2("Minecraft ", id);
        }
        let rest = id.substring_char(p + 1, n);
        let q = index_of_char(rest, '.');
        let mut r = join3("Minecraft ", id.substring_char(0, p), ".");
        r.append(rest.substring_char(0, q));
        r
    }

    /// The group a version is listed in, from its id, its kind and what
    /// the release-candidate, pre-release, weekly-snapshot and
    /// numbered-snapshot patterns captured of the id.
    pub fn group_name_from(
        id: &str,
        kind: &str,
        rc: &Option<String>,
        pre: &Option<String>,
        week: &Option<String>,
        snapshot: &Option<String>,
    ) -> (r: String)
        ensures
            r@ == group_name_for(id@, kind@, opt_view(*rc), opt_view(*pre), opt_view(*week), opt_view(*snapshot)),
    {
        if let Some(b) = rc {
            return join2(b.as_str(), " 候选版 (RC)");
        }
        if let Some(b) = pre {
            return join2(b.as_str(), " 预发布版 (Pre)");
        }
        let k = owned(kind);
        if k == owned("release") {
            Self::release_group_of(id)
        } else if k == owned("snapshot") {
            if let Some(y) = week {
                join2("快照 20", y.as_str())
            } else if let Some(b) = snapshot {
                join2("快照 ", b.as_str())
            } else {
                owned("其他快照")
            }
        } else {
            owned("其他版本")
        }
    }

    /// The group a version is listed in, from its id and kind.
    pub fn group_name(id: &str, kind: &str) -> (r: String)
        ensures
            r@ == group_name_spec(id@, kind@),
    {
        let rc = first_group(RC_PATTERN, id);
        let pre = first_group(PRE_PATTERN, id);
        let week = first_group(WEEK_PATTERN, id);
        let snapshot = first_group(SNAPSHOT_PATTERN, id);
        Self::group_name_from(id, kind, &rc, &pre, &week, &snapshot)
    }

    /// A remote index entry as the list shows it: its date without the time
    /// of day, and its wiki page.
    pub fn to_mc_version(v: &RemoteVersion) -> (r: McVersion)
        ensures
            r.id@ == v.id@,
            r.kind@ == v.kind@,
            r.release_time@ == date_part(v.release_time@),
            r.wiki_url@ == "https://minecraft.wiki/w/Java_Edition_"@ + v.id@,
    {
        let t = index_of_char(v.release_time.as_str(), 'T');
        McVersion {
            id: v.id.clone(),
            kind: v.kind.clone(),
            release_time: owned(v.release_time.as_str().substring_char(0, t)),
            wiki_url: join2("https://minecraft.wiki/w/Java_Edition_", v.id.as_str()),
        }
    }
}

/// A listed version, as character sequences.
pub struct McVersionView {
    pub id: Seq<char>,
    pub kind: Seq<char>,
    pub release_time: Seq<char>,
    pub wiki_url: Seq<char>,
}

/// A group of listed versions, as character sequences.
pub struct GroupView {
    pub name: Seq<char>,
    pub versions: Seq<McVersionView>,
}

impl View for McVersion {
    type V = McVersionView;

    open spec fn view(&self) -> McVersionView {
        McVersionView { id: self.id@, kind: self.kind@, release_time: self.release_time@, wiki_url: self.wiki_url@ }
    }
}

impl View for VersionGroup {
    type V = GroupView;

    open spec fn view(&self) -> GroupView {
        GroupView { name: self.group_name@, versions: self.versions@.map_values(|m: McVersion| m@) }
    }
}

/// The views of a list of groups.
pub open spec fn group_views(gs: Seq<VersionGroup>) -> Seq<GroupView> {
    gs.map_values(|g: VersionGroup| g@)
}

/// `a` comes before `b` in the order of characters.
pub open spec fn text_lt(a: Seq<char>, b: Seq<char>) -> bool
    decreases a.len(),
{
    if a.len() == 0 {
        b.len() > 0
    } else if b.len() == 0 {
        false
    } else if a[0] != b[0] {
        a[0] < b[0]
    } else {
        text_lt(a.drop_first(), b.drop_first())
    }
}

/// Whether `a` comes before `b` in the order of characters.
pub fn text_less(a: &str, b: &str) -> (r: bool)
    ensures
        r == text_lt(a@, b@),
{
    let n = a.unicode_len();
    let m = b.unicode_len();
    let mut i: usize = 0;
    assert(a@.subrange(0, n as int) =~= a@);
    assert(b@.subrange(0, m as int) =~= b@);
    while i < n && i < m && a.get_char(i) == b.get_char(i)
        invariant
            n == a@.len(),
            m == b@.len(),
            i <= n && i <= m,
            text_lt(a@, b@) == text_lt(a@.subrange(i as int, n as int), b@.subrange(i as int, m as int)),
        decreases n - i,
    {
        assert(a@.subrange(i as int, n as int).drop_first() =~= a@.subrange(i + 1, n as int));
        assert(b@.subrange(i as int, m as int).drop_first() =~= b@.subrange(i + 1, m as int));
        i = i + 1;
    }
    if i == n {
        i < m
    } else if i == m {
        false
    } else {
        a.get_char(i) < b.get_char(i)
    }
}

/// `x` inserted into `s` after the last element that `x` does not go
/// before: an insertion that keeps equal elements in arrival order.
pub open spec fn insert_by<T>(s: Seq<T>, x: T, before: spec_fn(T, T) -> bool) -> Seq<T>
    decreases s.len(),
{
    if s.len() == 0 {
        seq![x]
    } else if before(x, s.last()) {
        insert_by(s.drop_last(), x, before).push(s.last())
    } else {
        s.push(x)
    }
}

/// `s` sorted by `before`, equal elements kept in order.
pub open spec fn sort_by<T>(s: Seq<T>, before: spec_fn(T, T) -> bool) -> Seq<T>
    decreases s.len(),
{
    if s.len() == 0 {
        s
    } else {
        insert_by(sort_by(s.drop_last(), before), s.last(), before)
    }
}

proof fn lemma_insert_at<T>(s: Seq<T>, x: T, before: spec_fn(T, T) -> bool, j: int)
    requires
        0 <= j <= s.len(),
        forall|m: int| j <= m < s.len() ==> before(x, #[trigger] s[m]),
        j > 0 ==> !before(x, s[j - 1]),
    ensures
        insert_by(s, x, before) == s.insert(j, x),
    decreases s.len(),
{
    if s.len() == 0 {
        assert(s.insert(j, x) =~= seq![x]);
    } else if j == s.len() {
        assert(s.insert(j, x) =~= s.push(x));
    } else {
        let d = s.drop_last();
        assert forall|m: int| j <= m < d.len() implies before(x, #[trigger] d[m]) by {
            assert(d[m] == s[m]);
        }
        if j > 0 {
            assert(d[j - 1] == s[j - 1]);
        }
        assert(before(x, s[s.len() - 1]));
        lemma_insert_at(d, x, before, j);
        assert(d.insert(j, x).push(s.last()) =~= s.insert(j, x));
    }
}

/// Version `a` was released after version `b`.
pub open spec fn released_after(a: McVersionView, b: McVersionView) -> bool {
    text_lt(b.release_time, a.release_time)
}

/// Group `a` is listed before group `b`: its latest version is newer, or
/// as new and its name comes first.
pub open spec fn group_first(a: GroupView, b: GroupView) -> bool {
    let ta = a.versions[0].release_time;
    let tb = b.versions[0].release_time;
    text_lt(tb, ta) || (ta == tb && text_lt(a.name, b.name))
}

/// The order of versions inside a group: newest first.
pub open spec fn by_release() -> spec_fn(McVersionView, McVersionView) -> bool {
    |a: McVersionView, b: McVersionView| released_after(a, b)
}

/// The order of groups.
pub open spec fn by_group() -> spec_fn(GroupView, GroupView) -> bool {
    |a: GroupView, b: GroupView| group_first(a, b)
}

/// A remote entry as listed.
pub open spec fn listed(v: RemoteVersion) -> McVersionView {
    McVersionView {
        id: v.id@,
        kind: v.kind@,
        release_time: date_part(v.release_time@),
        wiki_url: "https://minecraft.wiki/w/Java_Edition_"@ + v.id@,
    }
}

/// No two groups share a name, and none is empty.
pub open spec fn groups_ok(gs: Seq<GroupView>) -> bool {
    &&& forall|a: int, b: int| 0 <= a < gs.len() && 0 <= b < gs.len() && a != b ==> gs[a].name != gs[b].name
    &&& forall|a: int| 0 <= a < gs.len() ==> (#[trigger] gs[a]).versions.len() > 0
}

/// `v` added to the group named `name`, which is created at the end when
/// there is none yet.
pub open spec fn add_to_group(gs: Seq<GroupView>, name: Seq<char>, v: McVersionView) -> Seq<GroupView> {
    if exists|k: int| 0 <= k < gs.len() && (#[trigger] gs[k]).name == name {
        let k = choose|k: int| 0 <= k < gs.len() && (#[trigger] gs[k]).name == name;
        gs.update(k, GroupView { name, versions: insert_by(gs[k].versions, v, by_release()) })
    } else {
        gs.push(GroupView { name, versions: seq![v] })
    }
}

/// The groups of a version index, in order of first appearance.
pub open spec fn grouped(vs: Seq<RemoteVersion>) -> Seq<GroupView>
    decreases vs.len(),
{
    if vs.len() == 0 {
        Seq::empty()
    } else {
        add_to_group(
            grouped(vs.drop_last()),
            group_name_spec(vs.last().id@, vs.last().kind@),
            listed(vs.last()),
        )
    }
}

/// The version list: every entry in the group its id and kind give,
/// newest first within a group, and groups ordered by their newest
/// version (ties by name).
pub open spec fn version_list(vs: Seq<RemoteVersion>) -> Seq<GroupView> {
    sort_by(grouped(vs), by_group())
}

fn insert_version(v: &mut Vec<McVersion>, x: McVersion)
    ensures
        final(v)@.map_values(|m: McVersion| m@) == insert_by(old(v)@.map_values(|m: McVersion| m@), x@, by_release()),
{
    let ghost s = old(v)@.map_values(|m: McVersion| m@);
    let mut j: usize = v.len();
    while j > 0 && text_less(v[j - 1].release_time.as_str(), x.release_time.as_str())
        invariant
            j <= v@.len(),
            v@ == old(v)@,
            s == old(v)@.map_values(|m: McVersion| m@),
            forall|m: int| j <= m < s.len() ==> released_after(x@, #[trigger] s[m]),
        decreases j,
    {
        j = j - 1;
    }
    proof {
        lemma_insert_at(s, x@, by_release(), j as int);
    }
    v.insert(j, x);
    assert(v@.map_values(|m: McVersion| m@) =~= s.insert(j as int, x@));
}

fn insert_group(gs: &mut Vec<VersionGroup>, g: VersionGroup)
    requires
        g@.versions.len() > 0,
        forall|a: int| 0 <= a < old(gs)@.len() ==> (#[trigger] old(gs)@[a])@.versions.len() > 0,
    ensures
        group_views(final(gs)@) == insert_by(group_views(old(gs)@), g@, by_group()),
        forall|a: int| 0 <= a < final(gs)@.len() ==> (#[trigger] final(gs)@[a])@.versions.len() > 0,
{
    let ghost s = group_views(old(gs)@);
    let mut j: usize = gs.len();
    let mut stop = false;
    while j > 0 && !stop
        invariant
            j <= gs@.len(),
            gs@ == old(gs)@,
            s == group_views(old(gs)@),
            g@.versions.len() > 0,
            forall|a: int| 0 <= a < old(gs)@.len() ==> (#[trigger] old(gs)@[a])@.versions.len() > 0,
            forall|m: int| j <= m < s.len() ==> group_first(g@, #[trigger] s[m]),
            stop ==> j > 0 && !group_first(g@, s[j - 1]),
        decreases j + if stop { 0int } else { 1int },
    {
        let h = &gs[j - 1];
        assert(s[j - 1] == h@);
        assert(old(gs)@[j - 1]@.versions.len() > 0);
        let ta = g.versions[0].release_time.as_str();
        let tb = h.versions[0].release_time.as_str();
        let newer = text_less(tb, ta);
        let first = newer || (!text_less(ta, tb) && text_less(g.group_name.as_str(), h.group_name.as_str()));
        proof {
            lemma_text_lt_total(ta@, tb@);
        }
        if first {
            j = j - 1;
        } else {
            stop = true;
        }
    }
    proof {
        lemma_insert_at(s, g@, by_group(), j as int);
    }
    gs.insert(j, g);
    assert(group_views(gs@) =~= s.insert(j as int, g@));
}

/// Neither text comes before the other only when they are equal.
pub proof fn lemma_text_lt_total(a: Seq<char>, b: Seq<char>)
    ensures
        !text_lt(a, b) && !text_lt(b, a) ==> a == b,
    decreases a.len(),
{
    if a.len() > 0 && b.len() > 0 && a[0] == b[0] {
        lemma_text_lt_total(a.drop_first(), b.drop_first());
        if a.drop_first() == b.drop_first() {
            assert(a =~= seq![a[0]] + a.drop_first());
            assert(b =~= seq![b[0]] + b.drop_first());
        }
    } else if a.len() == 0 && b.len() == 0 {
        assert(a =~= b);
    }
}

impl McMetadataService {
    /// Groups and orders the entries of a version index for display.
    pub fn build_groups(vs: &Vec<RemoteVersion>) -> (r: Vec<VersionGroup>)
        ensures
            group_views(r@) == version_list(vs@),
    {
        let mut gs: Vec<VersionGroup> = Vec::new();
        let mut i: usize = 0;
        while i < vs.len()
            invariant
                i <= vs@.len(),
                group_views(gs@) == grouped(vs@.subrange(0, i as int)),
                groups_ok(group_views(gs@)),
            decreases vs.len() - i,
        {
            let ghost before = group_views(gs@);
            assert(vs@.subrange(0, i + 1).drop_last() =~= vs@.subrange(0, i as int));
            assert(vs@.subrange(0, i + 1).last() == vs@[i as int]);
            let v = &vs[i];
            let name = Self::group_name(v.id.as_str(), v.kind.as_str());
            let mv = Self::to_mc_version(v);
            assert(mv@ == listed(vs@[i as int]));
            let mut k: usize = 0;
            while k < gs.len() && !(gs[k].group_name == name)
                invariant
                    k <= gs@.len(),
                    before == group_views(gs@),
                    forall|q: int| 0 <= q < k ==> (#[trigger] before[q]).name != name@,
                decreases gs.len() - k,
            {
                assert(before[k as int] == gs@[k as int]@);
                k = k + 1;
            }
            if k < gs.len() {
                assert(before[k as int].name == name@);
                assert(add_to_group(before, name@, mv@) == before.update(
                    k as int,
                    GroupView { name: name@, versions: insert_by(before[k as int].versions, mv@, by_release()) },
                )) by {
                    let c = choose|c: int| 0 <= c < before.len() && (#[trigger] before[c]).name == name@;
                    assert(c == k);
                }
                let mut g = gs.remove(k);
                assert(g@ == before[k as int]);
                insert_version(&mut g.versions, mv);
                let ghost ng = g@;
                gs.insert(k, g);
                assert(group_views(gs@) =~= before.update(k as int, ng));
            } else {
                assert(!exists|c: int| 0 <= c < before.len() && (#[trigger] before[c]).name == name@);
                let mut vv: Vec<McVersion> = Vec::new();
                vv.push(mv);
                let g = VersionGroup { group_name: name, versions: vv };
                assert(g@.versions =~= seq![mv@]);
                let ghost ng = g@;
                gs.push(g);
                assert(group_views(gs@) =~= before.push(ng));
            }
            i = i + 1;
        }
        assert(vs@.subrange(0, vs@.len() as int) =~= vs@);
        let ghost all = group_views(gs@);
        let mut out: Vec<VersionGroup> = Vec::new();
        let mut n: usize = 0;
        let total = gs.len();
        assert(all.subrange(0, 0) =~= Seq::<GroupView>::empty());
        while n < total
            invariant
                n <= total,
                total == all.len(),
                groups_ok(all),
                group_views(gs@) == all.subrange(n as int, total as int),
                gs@.len() == total - n,
                group_views(out@) == sort_by(all.subrange(0, n as int), by_group()),
                forall|a: int| 0 <= a < out@.len() ==> (#[trigger] out@[a])@.versions.len() > 0,
            decreases total - n,
        {
            let ghost pre = gs@;
            assert(group_views(pre)[0] == all.subrange(n as int, total as int)[0]);
            let g = gs.remove(0);
            assert(g@ == all[n as int]);
            assert(gs@ =~= pre.subrange(1, pre.len() as int));
            assert forall|q: int| 0 <= q < gs@.len() implies #[trigger] group_views(gs@)[q] == all.subrange(
                n + 1,
                total as int,
            )[q] by {
                assert(group_views(gs@)[q] == group_views(pre)[q + 1]);
                assert(all.subrange(n as int, total as int)[q + 1] == all[n + 1 + q]);
            }
            assert(group_views(gs@) =~= all.subrange(n + 1, total as int));
            assert(all.subrange(0, n + 1).drop_last() =~= all.subrange(0, n as int));
            insert_group(&mut out, g);
            n = n + 1;
        }
        assert(all.subrange(0, total as int) =~= all);
        out
    }
}

/// The order of characters on texts is transitive.
pub proof fn lemma_text_lt_trans(a: Seq<char>, b: Seq<char>, c: Seq<char>)
    requires
        text_lt(a, b),
        text_lt(b, c),
    ensures
        text_lt(a, c),
    decreases a.len(),
{
    if a.len() > 0 && b.len() > 0 && c.len() > 0 && a[0] == b[0] && b[0] == c[0] {
        lemma_text_lt_trans(a.drop_first(), b.drop_first(), c.drop_first());
    }
}

/// No text comes before itself, nor before a text that comes before it.
pub proof fn lemma_text_lt_asymmetric(a: Seq<char>, b: Seq<char>)
    ensures
        text_lt(a, b) ==> !text_lt(b, a),
    decreases a.len(),
{
    if a.len() > 0 && b.len() > 0 && a[0] == b[0] {
        lemma_text_lt_asymmetric(a.drop_first(), b.drop_first());
    }
}

/// No element of `s` goes before an element ahead of it.
pub open spec fn in_order<T>(s: Seq<T>, before: spec_fn(T, T) -> bool) -> bool {
    forall|a: int, b: int| 0 <= a < b < s.len() ==> !before(#[trigger] s[b], #[trigger] s[a])
}

/// `before` is a strict weak order: asymmetric, and "not before" is
/// transitive.
pub open spec fn strict_weak<T>(before: spec_fn(T, T) -> bool) -> bool {
    &&& forall|x: T, y: T| #[trigger] before(x, y) ==> !before(y, x)
    &&& forall|x: T, y: T, z: T|
        #![trigger before(x, y), before(y, z)]
        !before(x, y) && !before(y, z) ==> !before(x, z)
}

proof fn lemma_insert_by_in_order<T>(s: Seq<T>, x: T, before: spec_fn(T, T) -> bool)
    requires
        strict_weak(before),
        in_order(s, before),
    ensures
        in_order(insert_by(s, x, before), before),
        insert_by(s, x, before).len() == s.len() + 1,
        forall|i: int| 0 <= i < insert_by(s, x, before).len() ==> #[trigger] insert_by(s, x, before)[i] == x
            || s.contains(insert_by(s, x, before)[i]),
    decreases s.len(),
{
    if s.len() == 0 {
    } else if before(x, s.last()) {
        let d = s.drop_last();
        let l = s.last();
        assert(in_order(d, before)) by {
            assert forall|a: int, b: int| 0 <= a < b < d.len() implies !before(#[trigger] d[b], #[trigger] d[a]) by {
                assert(d[a] == s[a] && d[b] == s[b]);
            }
        }
        lemma_insert_by_in_order(d, x, before);
        let t = insert_by(d, x, before);
        let r = t.push(l);
        assert forall|i: int| 0 <= i < t.len() implies !before(l, #[trigger] t[i]) by {
            if t[i] == x {
            } else {
                let q = choose|q: int| 0 <= q < d.len() && d[q] == t[i];
                assert(s[q] == d[q]);
                assert(s[s.len() - 1] == l);
            }
        }
        assert forall|a: int, b: int| 0 <= a < b < r.len() implies !before(#[trigger] r[b], #[trigger] r[a]) by {
            if b < t.len() {
                assert(r[a] == t[a] && r[b] == t[b]);
            } else {
                assert(r[a] == t[a]);
            }
        }
        assert forall|i: int| 0 <= i < r.len() implies #[trigger] r[i] == x || s.contains(r[i]) by {
            if i < t.len() {
                assert(r[i] == t[i]);
                if t[i] != x {
                    let q = choose|q: int| 0 <= q < d.len() && d[q] == t[i];
                    assert(s[q] == d[q]);
                }
            } else {
                assert(s[s.len() - 1] == l);
            }
        }
    } else {
        let r = s.push(x);
        let l = s.last();
        assert forall|a: int, b: int| 0 <= a < b < r.len() implies !before(#[trigger] r[b], #[trigger] r[a]) by {
            if b < s.len() {
                assert(r[a] == s[a] && r[b] == s[b]);
            } else {
                assert(r[a] == s[a]);
                if a < s.len() - 1 {
                    assert(!before(s[s.len() - 1], s[a]));
                }
            }
        }
        assert forall|i: int| 0 <= i < r.len() implies #[trigger] r[i] == x || s.contains(r[i]) by {
            if i < s.len() {
                assert(r[i] == s[i]);
            }
        }
    }
}

proof fn lemma_sort_by_in_order<T>(s: Seq<T>, before: spec_fn(T, T) -> bool)
    requires
        strict_weak(before),
    ensures
        in_order(sort_by(s, before), before),
        sort_by(s, before).len() == s.len(),
        forall|i: int| 0 <= i < sort_by(s, before).len() ==> s.contains(#[trigger] sort_by(s, before)[i]),
    decreases s.len(),
{
    if s.len() > 0 {
        let d = s.drop_last();
        lemma_sort_by_in_order(d, before);
        let t = sort_by(d, before);
        lemma_insert_by_in_order(t, s.last(), before);
        let r = insert_by(t, s.last(), before);
        assert forall|i: int| 0 <= i < r.len() implies s.contains(#[trigger] r[i]) by {
            if r[i] == s.last() {
                assert(s[s.len() - 1] == s.last());
            } else {
                let q = choose|q: int| 0 <= q < t.len() && t[q] == r[i];
                let w = choose|w: int| 0 <= w < d.len() && d[w] == t[q];
                assert(s[w] == d[w]);
            }
        }
    }
}

proof fn lemma_by_release_strict_weak()
    ensures
        strict_weak(by_release()),
{
    assert forall|x: McVersionView, y: McVersionView| #[trigger] by_release()(x, y) implies !by_release()(y, x) by {
        lemma_text_lt_asymmetric(y.release_time, x.release_time);
    }
    assert forall|x: McVersionView, y: McVersionView, z: McVersionView|
        #![trigger by_release()(x, y), by_release()(y, z)]
        !by_release()(x, y) && !by_release()(y, z) implies !by_release()(x, z) by {
        lemma_text_lt_total(x.release_time, y.release_time);
        lemma_text_lt_total(y.release_time, z.release_time);
        if text_lt(x.release_time, y.release_time) && text_lt(y.release_time, z.release_time) {
            lemma_text_lt_trans(x.release_time, y.release_time, z.release_time);
        }
        lemma_text_lt_asymmetric(x.release_time, z.release_time);
        lemma_text_lt_asymmetric(z.release_time, x.release_time);
    }
}

proof fn lemma_by_group_strict_weak()
    ensures
        strict_weak(by_group()),
{
    assert forall|x: GroupView, y: GroupView| #[trigger] by_group()(x, y) implies !by_group()(y, x) by {
        lemma_text_lt_asymmetric(y.versions[0].release_time, x.versions[0].release_time);
        lemma_text_lt_asymmetric(x.name, y.name);
    }
    assert forall|x: GroupView, y: GroupView, z: GroupView|
        #![trigger by_group()(x, y), by_group()(y, z)]
        !by_group()(x, y) && !by_group()(y, z) implies !by_group()(x, z) by {
        let (tx, ty, tz) = (x.versions[0].release_time, y.versions[0].release_time, z.versions[0].release_time);
        lemma_text_lt_total(tx, ty);
        lemma_text_lt_total(ty, tz);
        lemma_text_lt_total(x.name, y.name);
        lemma_text_lt_total(y.name, z.name);
        lemma_text_lt_asymmetric(tx, tz);
        lemma_text_lt_asymmetric(tz, tx);
        if text_lt(tx, ty) && text_lt(ty, tz) {
            lemma_text_lt_trans(tx, ty, tz);
        }
        if text_lt(z.name, y.name) && text_lt(y.name, x.name) {
            lemma_text_lt_trans(z.name, y.name, x.name);
        }
        lemma_text_lt_asymmetric(x.name, z.name);
        lemma_text_lt_asymmetric(z.name, x.name);
    }
}

proof fn lemma_grouped_in_order(vs: Seq<RemoteVersion>)
    ensures
        groups_ok(grouped(vs)),
        forall|g: int| 0 <= g < grouped(vs).len() ==> in_order(#[trigger] grouped(vs)[g].versions, by_release()),
    decreases vs.len(),
{
    if vs.len() > 0 {
        lemma_grouped_in_order(vs.drop_last());
        lemma_by_release_strict_weak();
        let gs = grouped(vs.drop_last());
        let name = group_name_spec(vs.last().id@, vs.last().kind@);
        let v = listed(vs.last());
        if exists|k: int| 0 <= k < gs.len() && (#[trigger] gs[k]).name == name {
            let k = choose|k: int| 0 <= k < gs.len() && (#[trigger] gs[k]).name == name;
            lemma_insert_by_in_order(gs[k].versions, v, by_release());
        } else {
            let r = gs.push(GroupView { name, versions: seq![v] });
            assert forall|a: int, b: int| 0 <= a < r.len() && 0 <= b < r.len() && a != b implies r[a].name != r[b].name by {
                if a < gs.len() && b < gs.len() {
                } else if a < gs.len() {
                    assert(gs[a].name != name);
                } else {
                    assert(gs[b].name != name);
                }
            }
        }
    }
}

/// The version list is in order: groups by their newest version (ties by
/// name), and within each group the newest version first.
pub proof fn lemma_version_list_in_order(vs: Seq<RemoteVersion>)
    ensures
        in_order(version_list(vs), by_group()),
        forall|g: int| 0 <= g < version_list(vs).len() ==> in_order(#[trigger] version_list(vs)[g].versions, by_release()),
        version_list(vs).len() == grouped(vs).len(),
{
    lemma_grouped_in_order(vs);
    lemma_by_group_strict_weak();
    lemma_sort_by_in_order(grouped(vs), by_group());
    let gs = grouped(vs);
    assert forall|g: int| 0 <= g < version_list(vs).len() implies in_order(#[trigger] version_list(vs)[g].versions, by_release()) by {
        let q = choose|q: int| 0 <= q < gs.len() && gs[q] == version_list(vs)[g];
    }
}

} // verus!
