use pi_launcher::descriptor::{AssetIndexJson, AssetObject, Artifact, LibraryDownloads, LibraryEntry};
use pi_launcher::error::AppError;
use pi_launcher::mirror::default_rules;
use pi_launcher::plan::{asset_url, plan_asset_tasks, plan_library_tasks, should_fetch};

fn lib(name: &str, path: Option<&str>, size: u64) -> LibraryEntry {
    LibraryEntry {
        name: name.to_string(),
        downloads: Some(LibraryDownloads {
            artifact: path.map(|p| Artifact {
                path: p.to_string(),
                url: format!("https://libraries.minecraft.net/{}", p),
                sha1: "00".to_string(),
                size,
            }),
        }),
    }
}

fn obj(name: &str, hash: &str, size: u64) -> (String, AssetObject) {
    (name.to_string(), AssetObject { hash: hash.to_string(), size })
}

#[test]
fn library_tasks_skip_entries_without_artifact() {
    let libs = vec![
        lib("a:a:1", Some("a/a/1/a-1.jar"), 10),
        lib("natives:n:1", None, 0),
        LibraryEntry { name: "x:x:1".to_string(), downloads: None },
        lib("b:b:2", Some("b/b/2/b-2.jar"), 20),
    ];
    let tasks = plan_library_tasks("/r", &libs, &default_rules());
    assert_eq!(tasks.len(), 2);
    assert_eq!(tasks[0].label, "a:a:1");
    assert_eq!(tasks[0].dest, "/r/libraries/a/a/1/a-1.jar");
    assert_eq!(tasks[0].url, "https://bmclapi2.bangbang93.com/maven/a/a/1/a-1.jar");
    assert_eq!(tasks[0].expected_size, Some(10));
    assert_eq!(tasks[1].label, "b:b:2");
    assert_eq!(tasks[1].expected_size, Some(20));
}

#[test]
fn library_tasks_of_empty_list() {
    let tasks = plan_library_tasks("/r", &Vec::new(), &default_rules());
    assert!(tasks.is_empty());
}

#[test]
fn size_mismatch_is_refetched_and_equal_size_is_skipped() {
    assert!(should_fetch(Some(100), Some(99)));
    assert!(should_fetch(Some(100), Some(101)));
    assert!(!should_fetch(Some(100), Some(100)));
    assert!(should_fetch(Some(100), None));
    assert!(!should_fetch(None, Some(5)));
    assert!(should_fetch(None, None));
}

#[test]
fn equal_size_with_different_content_is_still_skipped() {
    let libs = vec![lib("a:a:1", Some("a.jar"), 4)];
    let tasks = plan_library_tasks("/r", &libs, &default_rules());
    // a file of the right size but of other content: only its size is read
    let on_disk_size = "XXXX".len() as u64;
    assert!(!should_fetch(tasks[0].expected_size, Some(on_disk_size)));
    assert!(should_fetch(tasks[0].expected_size, Some(3)));
}

#[test]
fn shared_hash_gives_one_task() {
    let objs = vec![
        obj("minecraft/sounds/a.ogg", "aa11", 5),
        obj("minecraft/sounds/b.ogg", "bb22", 6),
        obj("minecraft/sounds/a_copy.ogg", "aa11", 5),
        obj("minecraft/lang/x.json", "cc33", 7),
        obj("minecraft/lang/y.json", "bb22", 6),
    ];
    let tasks = match plan_asset_tasks("/r", &AssetIndexJson { objects: objs }, &default_rules()) {
        Ok(t) => t,
        Err(_) => panic!("well-formed index refused"),
    };
    assert_eq!(tasks.len(), 3);
    assert_eq!(tasks[0].dest, "/r/assets/objects/aa/aa11");
    assert_eq!(tasks[0].label, "minecraft/sounds/a.ogg");
    assert_eq!(tasks[0].url, "https://bmclapi2.bangbang93.com/assets/aa/aa11");
    assert_eq!(tasks[1].dest, "/r/assets/objects/bb/bb22");
    assert_eq!(tasks[2].dest, "/r/assets/objects/cc/cc33");
    assert_eq!(tasks[2].expected_size, Some(7));
}

#[test]
fn asset_index_with_short_hash_is_refused() {
    let objs = vec![obj("a", "aa11", 1), obj("b", "z", 1)];
    match plan_asset_tasks("/r", &AssetIndexJson { objects: objs }, &default_rules()) {
        Err(AppError::MalformedAssetIndex) => {}
        _ => panic!("expected a malformed index"),
    }
}

#[test]
fn empty_asset_index_gives_no_tasks() {
    match plan_asset_tasks("/r", &AssetIndexJson { objects: Vec::new() }, &default_rules()) {
        Ok(t) => assert!(t.is_empty()),
        Err(_) => panic!("empty index refused"),
    }
}

#[test]
fn asset_upstream_url() {
    assert_eq!(asset_url("0123abcd"), "https://resources.download.minecraft.net/01/0123abcd");
}
