//! Instances: the directories each one owns, the base-directory layout, and
//! the parts of an instance's metadata that creation decides.

use vstd::prelude::*;
use crate::error::AppError;
use crate::store::{join_path, path_join};
use crate::text::{join2, owned};

verus! {

/// What the user asks for when creating an instance.
pub struct CreateInstancePayload {
    pub name: String,
    pub folder_name: String,
    pub game_version: String,
    pub loader_type: String,
    pub loader_version: Option<String>,
    pub save_path: String,
    pub cover_image: Option<String>,
}

/// The mod loader of an instance.
pub struct LoaderConfig {
    pub kind: String,
    pub version: String,
}

/// The Java runtime of an instance.
pub struct JavaConfig {
    pub path: String,
    pub version: String,
}

/// Memory bounds of an instance, in MiB.
#[derive(Clone, Copy, PartialEq, Eq, Structural)]
pub struct MemoryConfig {
    pub min: u32,
    pub max: u32,
}

/// Window size of an instance.
#[derive(Clone, Copy, PartialEq, Eq, Structural)]
pub struct ResolutionConfig {
    pub width: u32,
    pub height: u32,
}

/// Reads and writes the configured base directory.
pub struct ConfigService;

/// Creates instances.
pub struct InstanceCreationService;

/// Renames, re-covers and deletes instances.
pub struct InstanceActionService;

/// Lists instances.
pub struct InstanceListingService;

/// A name for what `str::to_lowercase` returns.
pub uninterp spec fn lower_of(s: Seq<char>) -> Seq<char>;

/// Relies on `str::to_lowercase`: the result depends on the characters of
/// the argument alone.
#[verifier::external_body]
pub(crate) fn lowercase(s: &str) -> (r: String)
    ensures
        r@ == lower_of(s@),
{
    s.to_lowercase()
}

/// `<base>/instances/<id>`.
pub open spec fn instance_dir_spec(base: Seq<char>, id: Seq<char>) -> Seq<char> {
    path_join(path_join(base, "instances"@), id)
}

/// `<base>/runtime`: the content store of all instances.
pub open spec fn runtime_root_spec(base: Seq<char>) -> Seq<char> {
    path_join(base, "runtime"@)
}

/// The directories that an instance owns, under its root.
pub open spec fn instance_subdirs_spec(root: Seq<char>) -> Seq<Seq<char>> {
    seq![
        path_join(root, "mods"@),
        path_join(root, "config"@),
        path_join(root, "saves"@),
        path_join(root, "resourcepacks"@),
        path_join(root, "screenshots"@),
        path_join(root, "piconfig"@),
    ]
}

/// The views of a list of strings.
pub open spec fn views(v: Seq<String>) -> Seq<Seq<char>> {
    v.map_values(|s: String| s@)
}

fn push_joined(v: &mut Vec<String>, root: &str, name: &str)
    ensures
        views(final(v)@) == views(old(v)@).push(path_join(root@, name@)),
{
    let p = join_path(root, name);
    let ghost before = v@;
    v.push(p);
    assert(views(v@) =~= views(before).push(p@));
}

impl ConfigService {
    /// The configured base directory, or `NoBaseDirectory`.
    pub fn require_base(base: Option<String>) -> (r: Result<String, AppError>)
        ensures
            base matches Some(b) ==> (r matches Ok(s) && s@ == b@),
            base is None ==> (r matches Err(e) && e is NoBaseDirectory),
    {
        match base {
            Some(b) => Ok(b),
            None => Err(AppError::NoBaseDirectory),
        }
    }

    /// The directories that a new base directory is given.
    pub fn base_layout_dirs(target: &str) -> (r: Vec<String>)
        ensures
            views(r@) == seq![
                path_join(runtime_root_spec(target@), "assets"@),
                path_join(runtime_root_spec(target@), "libraries"@),
                path_join(runtime_root_spec(target@), "versions"@),
                path_join(target@, "instances"@),
                path_join(target@, "config"@),
            ],
    {
        let rt = join_path(target, "runtime");
        let mut r: Vec<String> = Vec::new();
        push_joined(&mut r, rt.as_str(), "assets");
        push_joined(&mut r, rt.as_str(), "libraries");
        push_joined(&mut r, rt.as_str(), "versions");
        push_joined(&mut r, target, "instances");
        push_joined(&mut r, target, "config");
        assert(views(r@) =~= seq![
            path_join(runtime_root_spec(target@), "assets"@),
            path_join(runtime_root_spec(target@), "libraries"@),
            path_join(runtime_root_spec(target@), "versions"@),
            path_join(target@, "instances"@),
            path_join(target@, "config"@),
        ]);
        r
    }
}

impl InstanceActionService {
    /// The directory of instance `id`; fails when no base directory is
    /// configured.
    pub fn instance_dir(base: Option<String>, id: &str) -> (r: Result<String, AppError>)
        ensures
            base matches Some(b) ==> (r matches Ok(s) && s@ == instance_dir_spec(b@, id@)),
            base is None ==> (r matches Err(e) && e is NoBaseDirectory),
    {
        let b = ConfigService::require_base(base)?;
        let i = join_path(b.as_str(), "instances");
        Ok(join_path(i.as_str(), id))
    }

    /// The file name of a cover image with extension `ext`.
    pub fn cover_file_name(ext: &str) -> (r: String)
        ensures
            r@ == "cover."@ + ext@,
    {
        join2("cover.", ext)
    }

    /// Where a cover is recorded in the metadata: relative to the instance.
    pub fn cover_relative_path(file_name: &str) -> (r: String)
        ensures
            r@ == "piconfig/"@ + file_name@,
    {
        join2("piconfig/", file_name)
    }
}

impl InstanceCreationService {
    /// The content store under a base directory.
    pub fn runtime_root(base: &str) -> (r: String)
        ensures
            r@ == runtime_root_spec(base@),
    {
        join_path(base, "runtime")
    }

    /// The directories of a new instance, under its root.
    pub fn instance_subdirs(root: &str) -> (r: Vec<String>)
        ensures
            views(r@) == instance_subdirs_spec(root@),
    {
        let mut r: Vec<String> = Vec::new();
        push_joined(&mut r, root, "mods");
        push_joined(&mut r, root, "config");
        push_joined(&mut r, root, "saves");
        push_joined(&mut r, root, "resourcepacks");
        push_joined(&mut r, root, "screenshots");
        push_joined(&mut r, root, "piconfig");
        assert(views(r@) =~= instance_subdirs_spec(root@));
        r
    }

    /// The name shown for a new instance: the folder name when none is given.
    pub fn display_name(name: &str, folder_name: &str) -> (r: String)
        ensures
            r@ == (if name@.len() == 0 {
                folder_name@
            } else {
                name@
            }),
    {
        if name.unicode_len() == 0 {
            owned(folder_name)
        } else {
            owned(name)
        }
    }

    /// The loader of a new instance: its kind in lower case, its version or
    /// the empty string.
    pub fn loader_config(loader_type: &str, loader_version: &Option<String>) -> (r: LoaderConfig)
        ensures
            r.kind@ == lower_of(loader_type@),
            r.version@ == (match loader_version {
                Some(v) => v@,
                None => Seq::<char>::empty(),
            }),
    {
        let version = match loader_version {
            Some(v) => v.clone(),
            None => String::new(),
        };
        LoaderConfig { kind: lowercase(loader_type), version }
    }

    /// A new instance picks its Java runtime automatically.
    pub fn default_java() -> (r: JavaConfig)
        ensures
            r.path@ == "auto"@,
            r.version@ == "auto"@,
    {
        JavaConfig { path: owned("auto"), version: owned("auto") }
    }

    /// A new instance's memory bounds: 1024 to 4096 MiB.
    pub fn default_memory() -> (r: MemoryConfig)
        ensures
            r == (MemoryConfig { min: 1024, max: 4096 }),
    {
        MemoryConfig { min: 1024, max: 4096 }
    }

    /// A new instance's window: 1280 by 720.
    pub fn default_resolution() -> (r: ResolutionConfig)
        ensures
            r == (ResolutionConfig { width: 1280, height: 720 }),
    {
        ResolutionConfig { width: 1280, height: 720 }
    }
}

impl InstanceListingService {
    /// The cover files looked for in an instance, in order of preference.
    pub fn cover_candidates(root: &str) -> (r: Vec<String>)
        ensures
            views(r@) == seq![
                path_join(path_join(root@, "piconfig"@), "cover.png"@),
                path_join(path_join(root@, "piconfig"@), "cover.jpg"@),
                path_join(path_join(root@, "piconfig"@), "cover.jpeg"@),
                path_join(path_join(root@, "piconfig"@), "cover.webp"@),
            ],
    {
        let p = join_path(root, "piconfig");
        let mut r: Vec<String> = Vec::new();
        push_joined(&mut r, p.as_str(), "cover.png");
        push_joined(&mut r, p.as_str(), "cover.jpg");
        push_joined(&mut r, p.as_str(), "cover.jpeg");
        push_joined(&mut r, p.as_str(), "cover.webp");
        assert(views(r@) =~= seq![
            path_join(path_join(root@, "piconfig"@), "cover.png"@),
            path_join(path_join(root@, "piconfig"@), "cover.jpg"@),
            path_join(path_join(root@, "piconfig"@), "cover.jpeg"@),
            path_join(path_join(root@, "piconfig"@), "cover.webp"@),
        ]);
        r
    }
}

} // verus!
