use std::collections::BTreeSet;

use pi_launcher::batch::TaskOutcome;
use pi_launcher::core_installer::{archive_step, descriptor_step, ArchiveStep, DescriptorStep};
use pi_launcher::deploy::{advance, asset_batch, batch_event, library_batch, Deployment};
use pi_launcher::descriptor::{
    AssetIndexJson, AssetIndexMeta, AssetObject, Artifact, CoreDownload, LibraryDownloads, LibraryEntry,
    VersionManifestJson,
};
use pi_launcher::error::AppError;
use pi_launcher::event::{DeployStage, DownloadProgressEvent};
use pi_launcher::mirror::default_rules;
use pi_launcher::plan::{plan_asset_tasks, plan_library_tasks, should_fetch, FetchTask};
use pi_launcher::resolver::{find_descriptor_url, version_index_url, RemoteVersion, RemoteVersionManifest};

fn remote(id: &str, kind: &str, time: &str) -> RemoteVersion {
    RemoteVersion {
        id: id.to_string(),
        kind: kind.to_string(),
        url: format!("https://piston-meta.mojang.com/v1/packages/h/{}.json", id),
        time: time.to_string(),
        release_time: time.to_string(),
    }
}

fn index() -> RemoteVersionManifest {
    RemoteVersionManifest {
        versions: vec![
            remote("1.20.2", "release", "2023-09-20T09:02:57+00:00"),
            remote("1.20.1", "release", "2023-06-12T13:25:51+00:00"),
            remote("23w31a", "snapshot", "2023-08-01T10:03:21+00:00"),
        ],
    }
}

fn descriptor() -> VersionManifestJson {
    let lib = |name: &str, path: &str, size: u64| LibraryEntry {
        name: name.to_string(),
        downloads: Some(LibraryDownloads {
            artifact: Some(Artifact {
                path: path.to_string(),
                url: format!("https://libraries.minecraft.net/{}", path),
                sha1: "0".to_string(),
                size,
            }),
        }),
    };
    VersionManifestJson {
        asset_index: AssetIndexMeta {
            id: "5".to_string(),
            url: "https://piston-meta.mojang.com/v1/packages/i/5.json".to_string(),
            sha1: "1".to_string(),
        },
        libraries: vec![
            lib("com.mojang:logging:1.1.1", "com/mojang/logging/1.1.1/logging-1.1.1.jar", 15343),
            LibraryEntry {
                name: "org.lwjgl:lwjgl:3.3.1:natives-macos".to_string(),
                downloads: Some(LibraryDownloads { artifact: None }),
            },
            lib("org.lwjgl:lwjgl:3.3.1", "org/lwjgl/lwjgl/3.3.1/lwjgl-3.3.1.jar", 724243),
        ],
        core_download: Some(CoreDownload {
            url: "https://piston-data.mojang.com/v1/objects/0c3e/client.jar".to_string(),
            sha1: "0c3e".to_string(),
            size: 23028853,
        }),
    }
}

fn asset_objects() -> Vec<(String, AssetObject)> {
    let mut v = Vec::new();
    for i in 0..30u64 {
        // every third name shares the hash of the one before it
        let h = if i % 3 == 2 { i - 1 } else { i };
        v.push((format!("minecraft/sounds/s{}.ogg", i), AssetObject { hash: format!("{:02x}{:038x}", h, h), size: 100 + h }));
    }
    v
}

fn run_batch(
    d: &Deployment,
    stage: DeployStage,
    tasks: &[FetchTask],
    mut batch: pi_launcher::batch::BatchScheduler,
    events: &mut Vec<DownloadProgressEvent>,
    disk: &mut BTreeSet<String>,
) {
    let mut running: Vec<u64> = Vec::new();
    while !batch.is_drained() {
        while let Some(i) = batch.start_next() {
            running.push(i);
        }
        let i = running.remove(0) as usize;
        let t = &tasks[i];
        let outcome = if should_fetch(t.expected_size, if disk.contains(&t.dest) { t.expected_size } else { None }) {
            disk.insert(t.dest.clone());
            TaskOutcome::Fetched
        } else {
            TaskOutcome::Skipped
        };
        let tick = batch.end_task(outcome);
        if tick.report {
            events.push(batch_event(&d.instance_id, stage, &t.label, tick));
        }
    }
}

#[test]
fn deploying_into_empty_store_reports_stages_in_order() {
    let rules = default_rules();
    let root = "/base/runtime";
    let mut disk: BTreeSet<String> = BTreeSet::new();
    let mut events: Vec<DownloadProgressEvent> = Vec::new();
    let mut d = Deployment::new("my-pack", "1.20.1");

    events.push(d.begin());
    assert!(d.stage == DeployStage::Core);

    let dest = match descriptor_step("my-pack", "1.20.1", root, disk.contains("/base/runtime/versions/1.20.1/1.20.1.json"), &rules) {
        DescriptorStep::Resolve { index_url, dest, event } => {
            assert_eq!(index_url, version_index_url(&rules));
            assert_eq!(event.current, 10);
            dest
        }
        DescriptorStep::Cached { .. } => panic!("store was empty"),
    };
    let url = match find_descriptor_url(&index(), "1.20.1", &rules) {
        Ok(u) => u,
        Err(_) => panic!("1.20.1 is in the index"),
    };
    assert_eq!(url, "https://bmclapi2.bangbang93.com/v1/packages/h/1.20.1.json");
    disk.insert(dest);

    let desc = descriptor();
    match archive_step("my-pack", "1.20.1", root, &desc, &rules, false) {
        Ok(ArchiveStep::Fetch { url, dest, start, done }) => {
            assert_eq!(url, "https://bmclapi2.bangbang93.com/v1/objects/0c3e/client.jar");
            assert_eq!(start.current, 50);
            disk.insert(dest);
            events.push(done);
        }
        _ => panic!("archive must be fetched"),
    }
    d.core_finished();

    let libs = plan_library_tasks(root, &desc.libraries, &rules);
    let k = libs.len() as u64;
    run_batch(&d, DeployStage::Libraries, &libs, library_batch(k), &mut events, &mut disk);
    d.libraries_finished();

    let assets = match plan_asset_tasks(root, &AssetIndexJson { objects: asset_objects() }, &rules) {
        Ok(t) => t,
        Err(_) => panic!("index is well formed"),
    };
    run_batch(&d, DeployStage::Assets, &assets, asset_batch(assets.len() as u64), &mut events, &mut disk);
    events.push(d.assets_finished());
    assert!(d.stage == DeployStage::Done);

    let summary: Vec<(String, u64, u64)> =
        events.iter().map(|e| (e.stage.clone(), e.current, e.total)).collect();
    assert_eq!(summary[0], ("VANILLA_CORE".to_string(), 0, 100));
    assert_eq!(summary[1], ("VANILLA_CORE".to_string(), 100, 100));
    assert_eq!(summary[2], ("LIBRARIES".to_string(), 1, 2));
    assert_eq!(summary[3], ("LIBRARIES".to_string(), 2, 2));
    assert_eq!(summary[4], ("ASSETS".to_string(), 20, 20));
    assert_eq!(summary[5], ("DONE".to_string(), 100, 100));
    assert_eq!(summary.len(), 6);
    assert_eq!(events[0].message, "正在准备部署 Minecraft 1.20.1...");
    assert_eq!(events[3].message, "正在下载依赖库 (2/2)");
    assert_eq!(events[4].message, "正在下载游戏资源 (20/20)");

    assert!(disk.contains("/base/runtime/versions/1.20.1/1.20.1.json"));
    assert!(disk.contains("/base/runtime/versions/1.20.1/1.20.1.jar"));
    let lib_files = disk.iter().filter(|p| p.starts_with("/base/runtime/libraries/")).count();
    assert_eq!(lib_files, 2);
    let unique_hashes: BTreeSet<String> = asset_objects().into_iter().map(|(_, o)| o.hash).collect();
    let object_files = disk.iter().filter(|p| p.starts_with("/base/runtime/assets/objects/")).count();
    assert_eq!(object_files, unique_hashes.len());
    assert_eq!(object_files, 20);
}

#[test]
fn unknown_version_is_not_found() {
    let rules = default_rules();
    for id in ["1.99", "", "1.20"] {
        match find_descriptor_url(&index(), id, &rules) {
            Err(AppError::VersionNotFound(v)) => assert_eq!(v, id),
            _ => panic!("{} is not in the index", id),
        }
    }
    let empty = RemoteVersionManifest { versions: Vec::new() };
    assert!(matches!(find_descriptor_url(&empty, "1.20.1", &rules), Err(AppError::VersionNotFound(_))));
}

#[test]
fn first_index_entry_wins() {
    let mut idx = index();
    let mut dup = remote("1.20.1", "release", "t");
    dup.url = "https://piston-meta.mojang.com/other.json".to_string();
    idx.versions.push(dup);
    match find_descriptor_url(&idx, "1.20.1", &default_rules()) {
        Ok(u) => assert_eq!(u, "https://bmclapi2.bangbang93.com/v1/packages/h/1.20.1.json"),
        Err(_) => panic!("present"),
    }
}

#[test]
fn populated_version_transfers_nothing() {
    let rules = default_rules();
    match descriptor_step("p", "1.20.1", "/r", true, &rules) {
        DescriptorStep::Cached { event } => {
            assert_eq!((event.current, event.total), (100, 100));
            assert_eq!(event.file_name, "1.20.1.json");
        }
        _ => panic!("nothing to fetch"),
    }
    match archive_step("p", "1.20.1", "/r", &descriptor(), &rules, true) {
        Ok(ArchiveStep::Cached { event }) => {
            assert_eq!((event.current, event.total), (100, 100));
            assert_eq!(event.stage, "VANILLA_CORE");
            assert_eq!(event.file_name, "1.20.1.jar");
        }
        _ => panic!("nothing to fetch"),
    }
}

#[test]
fn missing_core_url_is_fatal() {
    let mut desc = descriptor();
    desc.core_download = None;
    assert!(matches!(
        archive_step("p", "1.20.1", "/r", &desc, &default_rules(), false),
        Err(AppError::MissingCoreUrl)
    ));
    // with the archive already present the URL is not needed
    assert!(matches!(
        archive_step("p", "1.20.1", "/r", &desc, &default_rules(), true),
        Ok(ArchiveStep::Cached { .. })
    ));
}

#[test]
fn fatal_error_ends_in_error_stage() {
    let mut d = Deployment::new("p", "1.20.1");
    d.begin();
    let e = d.fail(&AppError::VersionNotFound("1.20.1".to_string()));
    assert!(d.stage == DeployStage::Error);
    assert_eq!(e.stage, "ERROR");
    assert_eq!(e.message, "未找到目标版本 URL: 1.20.1");
    assert!(advance(DeployStage::Error, true) == DeployStage::Error);
    assert!(advance(DeployStage::Assets, false) == DeployStage::Error);
    assert!(advance(DeployStage::Init, true) == DeployStage::Core);
}

#[test]
fn error_messages() {
    assert_eq!(AppError::Io("disk full".to_string()).message(), "I/O Error: disk full");
    assert_eq!(AppError::Serde("eof".to_string()).message(), "JSON Error: eof");
    assert_eq!(AppError::Network("timeout".to_string()).message(), "Network Error: timeout");
    assert_eq!(AppError::PathResolution.message(), "Failed to resolve AppData directory");
    assert_eq!(AppError::InstanceNotFound("/x".to_string()).message(), "Instance path not found: /x");
    assert_eq!(AppError::Generic("boom".to_string()).message(), "boom");
    assert_eq!(AppError::NoBaseDirectory.message(), "尚未配置基础数据目录");
    assert_eq!(AppError::MissingCoreUrl.message(), "JSON 中无客户端 URL");
    assert_eq!(
        AppError::MalformedAssetIndex.message(),
        "资源索引中有不足两个字符的哈希"
    );
}
