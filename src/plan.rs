//! Fetch tasks: what to download, from where, to where.

use vstd::prelude::*;
use crate::descriptor::{artifact_of, AssetIndexJson, AssetObject, LibraryEntry};
use crate::error::AppError;
use crate::mirror::{apply_mirror, mirrored, MirrorRule, RESOURCES_HOST};
use crate::store::{
    asset_object_path, asset_object_path_spec, hash_prefix, join_path, library_path,
    library_path_spec, path_join,
};

verus! {

/// One file to bring into the content store.
pub struct FetchTask {
    pub url: String,
    pub dest: String,
    pub expected_size: Option<u64>,
    pub label: String,
}

/// What a fetch task says, as character sequences.
pub struct TaskView {
    pub url: Seq<char>,
    pub dest: Seq<char>,
    pub expected_size: Option<u64>,
    pub label: Seq<char>,
}

impl View for FetchTask {
    type V = TaskView;

    open spec fn view(&self) -> TaskView {
        TaskView { url: self.url@, dest: self.dest@, expected_size: self.expected_size, label: self.label@ }
    }
}

/// The views of a sequence of tasks.
pub open spec fn task_views(s: Seq<FetchTask>) -> Seq<TaskView> {
    s.map_values(|t: FetchTask| t@)
}

/// The destinations of a sequence of tasks.
pub open spec fn dests_of(s: Seq<TaskView>) -> Seq<Seq<char>> {
    s.map_values(|t: TaskView| t.dest)
}

/// Whether a destination must be fetched, given the size of the file found
/// there (`None` when there is none). A file is trusted when the task
/// expects no particular size or when the sizes are equal; its content is
/// never read.
pub open spec fn needs_fetch(expected: Option<u64>, on_disk: Option<u64>) -> bool {
    match on_disk {
        None => true,
        Some(n) => match expected {
            None => false,
            Some(e) => n != e,
        },
    }
}

/// Decides whether a task's destination must be fetched.
pub fn should_fetch(expected: Option<u64>, on_disk: Option<u64>) -> (r: bool)
    ensures
        r == needs_fetch(expected, on_disk),
{
    match on_disk {
        None => true,
        Some(n) => match expected {
            None => false,
            Some(e) => n != e,
        },
    }
}

/// The task for a library, when it has an artifact.
pub open spec fn library_task(root: Seq<char>, lib: LibraryEntry, rules: Seq<MirrorRule>) -> Option<TaskView> {
    match artifact_of(lib) {
        Some(a) => Some(TaskView {
            url: mirrored(a.url@, rules),
            dest: library_path_spec(root, a.path@),
            expected_size: Some(a.size),
            label: lib.name@,
        }),
        None => None,
    }
}

/// The tasks for a list of libraries: one per library with an artifact, in
/// order.
pub open spec fn library_tasks(root: Seq<char>, libs: Seq<LibraryEntry>, rules: Seq<MirrorRule>) -> Seq<TaskView>
    decreases libs.len(),
{
    if libs.len() == 0 {
        Seq::empty()
    } else {
        let prev = library_tasks(root, libs.drop_last(), rules);
        match library_task(root, libs.last(), rules) {
            Some(t) => prev.push(t),
            None => prev,
        }
    }
}

/// Builds the library tasks of a descriptor.
pub fn plan_library_tasks(root: &str, libs: &Vec<LibraryEntry>, rules: &Vec<MirrorRule>) -> (r: Vec<FetchTask>)
    ensures
        task_views(r@) == library_tasks(root@, libs@, rules@),
{
    let mut out: Vec<FetchTask> = Vec::new();
    let mut i: usize = 0;
    while i < libs.len()
        invariant
            i <= libs@.len(),
            task_views(out@) == library_tasks(root@, libs@.subrange(0, i as int), rules@),
        decreases libs.len() - i,
    {
        let ghost before = out@;
        let lib = &libs[i];
        assert(libs@.subrange(0, i + 1).drop_last() =~= libs@.subrange(0, i as int));
        assert(libs@.subrange(0, i + 1).last() == libs@[i as int]);
        match &lib.downloads {
            Some(d) => match &d.artifact {
                Some(a) => {
                    let t = FetchTask {
                        url: apply_mirror(a.url.as_str(), rules),
                        dest: library_path(root, a.path.as_str()),
                        expected_size: Some(a.size),
                        label: lib.name.clone(),
                    };
                    out.push(t);
                    assert(task_views(out@) =~= task_views(before).push(t@));
                },
                None => {},
            },
            None => {},
        }
        i = i + 1;
    }
    assert(libs@.subrange(0, libs@.len() as int) =~= libs@);
    out
}

/// Every asset hash of the index has at least two characters.
pub open spec fn index_well_formed(objs: Seq<(String, AssetObject)>) -> bool {
    forall|i: int| 0 <= i < objs.len() ==> (#[trigger] objs[i]).1.hash@.len() >= 2
}

/// The hashes that an index refers to, one per logical name.
pub open spec fn hashes_of(objs: Seq<(String, AssetObject)>) -> Seq<Seq<char>> {
    objs.map_values(|e: (String, AssetObject)| e.1.hash@)
}

/// Upstream URL of an asset object: `<resources host>/<prefix>/<hash>`.
pub open spec fn asset_url_spec(hash: Seq<char>) -> Seq<char> {
    path_join(path_join(RESOURCES_HOST@, hash_prefix(hash)), hash)
}

/// The task for one logical asset name.
pub open spec fn asset_task(root: Seq<char>, e: (String, AssetObject), rules: Seq<MirrorRule>) -> TaskView {
    TaskView {
        url: mirrored(asset_url_spec(e.1.hash@), rules),
        dest: asset_object_path_spec(root, e.1.hash@),
        expected_size: Some(e.1.size),
        label: e.0@,
    }
}

/// The tasks for an asset index: one per destination, in the order in which
/// destinations first occur.
pub open spec fn asset_tasks(root: Seq<char>, objs: Seq<(String, AssetObject)>, rules: Seq<MirrorRule>) -> Seq<TaskView>
    decreases objs.len(),
{
    if objs.len() == 0 {
        Seq::empty()
    } else {
        let prev = asset_tasks(root, objs.drop_last(), rules);
        let t = asset_task(root, objs.last(), rules);
        if dests_of(prev).contains(t.dest) {
            prev
        } else {
            prev.push(t)
        }
    }
}

/// Upstream URL of an asset object.
pub fn asset_url(hash: &str) -> (r: String)
    requires
        hash@.len() >= 2,
    ensures
        r@ == asset_url_spec(hash@),
{
    let p = join_path(RESOURCES_HOST, hash.substring_char(0, 2));
    join_path(p.as_str(), hash)
}

/// Builds the asset tasks of an index, one per distinct destination. Fails
/// when a hash is too short to be stored.
pub fn plan_asset_tasks(root: &str, index: &AssetIndexJson, rules: &Vec<MirrorRule>) -> (r: Result<Vec<FetchTask>, AppError>)
    ensures
        r is Ok <==> index_well_formed(index.objects@),
        r matches Ok(ts) ==> task_views(ts@) == asset_tasks(root@, index.objects@, rules@),
        r matches Err(e) ==> e is MalformedAssetIndex,
{
    let objs = &index.objects;
    let mut k: usize = 0;
    while k < objs.len()
        invariant
            objs@ == index.objects@,
            k <= objs@.len(),
            forall|j: int| 0 <= j < k ==> (#[trigger] objs@[j]).1.hash@.len() >= 2,
        decreases objs.len() - k,
    {
        if objs[k].1.hash.as_str().unicode_len() < 2 {
            return Err(AppError::MalformedAssetIndex);
        }
        k = k + 1;
    }
    let mut out: Vec<FetchTask> = Vec::new();
    let mut i: usize = 0;
    while i < objs.len()
        invariant
            objs@ == index.objects@,
            i <= objs@.len(),
            index_well_formed(objs@),
            task_views(out@) == asset_tasks(root@, objs@.subrange(0, i as int), rules@),
        decreases objs.len() - i,
    {
        let ghost before = out@;
        let entry = &objs[i];
        assert(objs@.subrange(0, i + 1).drop_last() =~= objs@.subrange(0, i as int));
        assert(objs@.subrange(0, i + 1).last() == objs@[i as int]);
        let hash = entry.1.hash.as_str();
        assert(objs@[i as int].1.hash@.len() >= 2);
        let dest = asset_object_path(root, hash);
        let mut found = false;
        let mut j: usize = 0;
        while j < out.len()
            invariant
                j <= out@.len(),
                out@ == before,
                found == exists|q: int| 0 <= q < j && (#[trigger] out@[q]).dest@ == dest@,
            decreases out.len() - j,
        {
            if out[j].dest == dest {
                found = true;
            }
            j = j + 1;
        }
        let ghost ds = dests_of(task_views(before));
        assert(found == ds.contains(dest@)) by {
            if found {
                let q = choose|q: int| 0 <= q < j && (#[trigger] out@[q]).dest@ == dest@;
                assert(ds[q] == dest@);
            }
            if ds.contains(dest@) {
                let q = choose|q: int| 0 <= q < ds.len() && ds[q] == dest@;
                assert(out@[q].dest@ == dest@);
            }
        }
        if !found {
            let t = FetchTask {
                url: {
                    let u = asset_url(hash);
                    apply_mirror(u.as_str(), rules)
                },
                dest: dest,
                expected_size: Some(entry.1.size),
                label: entry.0.clone(),
            };
            out.push(t);
            assert(task_views(out@) =~= task_views(before).push(t@));
        }
        i = i + 1;
    }
    assert(objs@.subrange(0, objs@.len() as int) =~= objs@);
    Ok(out)
}

/// A library whose file is on disk is fetched again exactly when the size
/// found differs from the artifact's declared size; with equal sizes it is
/// kept, whatever its content.
pub proof fn lemma_library_refetch_iff_size_differs(
    root: Seq<char>,
    libs: Seq<LibraryEntry>,
    rules: Seq<MirrorRule>,
    i: int,
    on_disk: u64,
)
    requires
        0 <= i < libs.len(),
        artifact_of(libs[i]) is Some,
    ensures
        library_task(root, libs[i], rules) matches Some(t) && t.expected_size == Some(
            artifact_of(libs[i])->0.size,
        ) && (needs_fetch(t.expected_size, Some(on_disk)) <==> on_disk != artifact_of(
            libs[i],
        )->0.size),
        library_tasks(root, libs, rules).contains(library_task(root, libs[i], rules)->0),
    decreases libs.len(),
{
    let prev = libs.drop_last();
    if i < libs.len() - 1 {
        assert(prev[i] == libs[i]);
        lemma_library_refetch_iff_size_differs(root, prev, rules, i, on_disk);
        let t = library_task(root, libs[i], rules)->0;
        let p = library_tasks(root, prev, rules);
        let k = choose|k: int| 0 <= k < p.len() && p[k] == t;
        match library_task(root, libs.last(), rules) {
            Some(u) => {
                assert(p.push(u)[k] == t);
            },
            None => {},
        }
    } else {
        let p = library_tasks(root, prev, rules);
        let t = library_task(root, libs.last(), rules)->0;
        assert(p.push(t)[p.len() as int] == t);
    }
}

/// Names that share a hash share one task: the destinations are distinct,
/// there is one for each hash of the index, and so as many tasks as
/// distinct hashes.
pub proof fn lemma_one_task_per_hash(root: Seq<char>, objs: Seq<(String, AssetObject)>, rules: Seq<MirrorRule>)
    requires
        index_well_formed(objs),
    ensures
        dests_of(asset_tasks(root, objs, rules)).no_duplicates(),
        forall|h: Seq<char>| h.len() >= 2 ==> (#[trigger] hashes_of(objs).contains(h) <==> dests_of(
            asset_tasks(root, objs, rules),
        ).contains(asset_object_path_spec(root, h))),
        forall|d: Seq<char>| #[trigger] dests_of(asset_tasks(root, objs, rules)).contains(d) ==> exists|h: Seq<char>|
            hashes_of(objs).contains(h) && d == asset_object_path_spec(root, h),
        asset_tasks(root, objs, rules).len() == hashes_of(objs).to_set().len(),
    decreases objs.len(),
{
    broadcast use vstd::set::group_set_axioms;
    if objs.len() == 0 {
        assert(hashes_of(objs).to_set() =~= Set::empty());
    } else {
        let prev = objs.drop_last();
        assert forall|i: int| 0 <= i < prev.len() implies (#[trigger] prev[i]).1.hash@.len() >= 2 by {
            assert(prev[i] == objs[i]);
        }
        lemma_one_task_per_hash(root, prev, rules);
        let pt = asset_tasks(root, prev, rules);
        let e = objs.last();
        let h = e.1.hash@;
        let t = asset_task(root, e, rules);
        let hp = hashes_of(prev);
        let ho = hashes_of(objs);
        assert(objs[objs.len() - 1] == e);
        assert(ho =~= hp.push(h));
        hp.lemma_push_to_set_commute(h);
        vstd::seq_lib::seq_to_set_is_finite(hp);
        assert(h.len() >= 2);
        assert forall|g: Seq<char>| #[trigger] ho.contains(g) <==> (hp.contains(g) || g == h) by {
            if ho.contains(g) {
                let q = choose|q: int| 0 <= q < ho.len() && ho[q] == g;
                if q < hp.len() {
                    assert(hp[q] == g);
                }
            }
            if hp.contains(g) {
                let q = choose|q: int| 0 <= q < hp.len() && hp[q] == g;
                assert(ho[q] == g);
            }
            if g == h {
                assert(ho[hp.len() as int] == h);
            }
        }
        assert forall|g: Seq<char>| #[trigger] hp.contains(g) implies g.len() >= 2 by {
            let q = choose|q: int| 0 <= q < hp.len() && hp[q] == g;
            assert(prev[q].1.hash@.len() >= 2);
        }
        // The new destination is already planned exactly when its hash was seen.
        assert(dests_of(pt).contains(t.dest) <==> hp.contains(h)) by {
            if dests_of(pt).contains(t.dest) {
                let g = choose|g: Seq<char>| hp.contains(g) && t.dest == asset_object_path_spec(root, g);
                crate::store::lemma_asset_object_path_injective(root, g, h);
            }
        }
        if dests_of(pt).contains(t.dest) {
            assert(asset_tasks(root, objs, rules) == pt);
            assert(ho.to_set() =~= hp.to_set());
            assert forall|g: Seq<char>| g.len() >= 2 implies (#[trigger] ho.contains(g) <==> dests_of(pt).contains(
                asset_object_path_spec(root, g),
            )) by {
                if hp.contains(g) {
                }
                if dests_of(pt).contains(asset_object_path_spec(root, g)) {
                    let w = choose|w: Seq<char>| hp.contains(w) && asset_object_path_spec(root, g) == asset_object_path_spec(root, w);
                    crate::store::lemma_asset_object_path_injective(root, g, w);
                }
            }
            assert forall|d: Seq<char>| #[trigger] dests_of(pt).contains(d) implies exists|g: Seq<char>|
                ho.contains(g) && d == asset_object_path_spec(root, g) by {
                let g = choose|g: Seq<char>| hp.contains(g) && d == asset_object_path_spec(root, g);
                assert(ho.contains(g));
            }
        } else {
            let nt = pt.push(t);
            assert(asset_tasks(root, objs, rules) == nt);
            let dp = dests_of(pt);
            let dn = dests_of(nt);
            assert(dn =~= dp.push(t.dest));
            assert(ho.to_set() =~= hp.to_set().insert(h));
            assert(!hp.to_set().contains(h));
            assert forall|d: Seq<char>| #[trigger] dn.contains(d) <==> (dp.contains(d) || d == t.dest) by {
                if dn.contains(d) {
                    let q = choose|q: int| 0 <= q < dn.len() && dn[q] == d;
                    if q < dp.len() {
                        assert(dp[q] == d);
                    }
                }
                if dp.contains(d) {
                    let q = choose|q: int| 0 <= q < dp.len() && dp[q] == d;
                    assert(dn[q] == d);
                }
                if d == t.dest {
                    assert(dn[dp.len() as int] == d);
                }
            }
            assert forall|g: Seq<char>| g.len() >= 2 implies (#[trigger] ho.contains(g) <==> dn.contains(
                asset_object_path_spec(root, g),
            )) by {
                if hp.contains(g) {
                }
                if dn.contains(asset_object_path_spec(root, g)) {
                    if asset_object_path_spec(root, g) == t.dest {
                        crate::store::lemma_asset_object_path_injective(root, g, h);
                    } else {
                        assert(dp.contains(asset_object_path_spec(root, g)));
                        let w = choose|w: Seq<char>| hp.contains(w) && asset_object_path_spec(root, g) == asset_object_path_spec(root, w);
                        crate::store::lemma_asset_object_path_injective(root, g, w);
                    }
                }
            }
            assert forall|d: Seq<char>| #[trigger] dn.contains(d) implies exists|g: Seq<char>|
                ho.contains(g) && d == asset_object_path_spec(root, g) by {
                if d == t.dest {
                    assert(ho.contains(h));
                } else {
                    assert(dp.contains(d));
                    let g = choose|g: Seq<char>| hp.contains(g) && d == asset_object_path_spec(root, g);
                    assert(ho.contains(g));
                }
            }
            assert(dn.no_duplicates()) by {
                assert forall|a: int, b: int| 0 <= a < dn.len() && 0 <= b < dn.len() && a != b implies
                    dn[a] != dn[b] by {
                    if a < pt.len() && b < pt.len() {
                        assert(dn[a] == dp[a]);
                        assert(dn[b] == dp[b]);
                    } else if a < pt.len() {
                        assert(dn[a] == dp[a]);
                        assert(dp.contains(dp[a]));
                    } else {
                        assert(dn[b] == dp[b]);
                        assert(dp.contains(dp[b]));
                    }
                }
            }
        }
    }
}

} // verus!
