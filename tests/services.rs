use pi_launcher::fonts::sorted_font_names;
use pi_launcher::animation::{AnimationRequest, AnimationService};
use pi_launcher::error::AppError;
use pi_launcher::instance::{ConfigService, InstanceActionService, InstanceCreationService, InstanceListingService};
use pi_launcher::loader::{BmclApiLoaderVersion, FabricLoaderInfo, FabricLoaderMeta, LoaderMetadataService};
use pi_launcher::resolver::RemoteVersion;
use pi_launcher::runtime::{
    is_steam_deck, java_version_label, memory_stats_from_bytes, partition_java_installs, JavaInstall,
    RuntimeConfig,
};
use pi_launcher::versions::McMetadataService;

#[test]
fn instance_directories() {
    let dirs = InstanceCreationService::instance_subdirs("/b/instances/pack");
    assert_eq!(
        dirs,
        vec![
            "/b/instances/pack/mods",
            "/b/instances/pack/config",
            "/b/instances/pack/saves",
            "/b/instances/pack/resourcepacks",
            "/b/instances/pack/screenshots",
            "/b/instances/pack/piconfig",
        ]
    );
    assert_eq!(InstanceCreationService::runtime_root("/b"), "/b/runtime");
    assert_eq!(
        ConfigService::base_layout_dirs("/b"),
        vec!["/b/runtime/assets", "/b/runtime/libraries", "/b/runtime/versions", "/b/instances", "/b/config"]
    );
}

#[test]
fn instance_dir_needs_a_base() {
    match InstanceActionService::instance_dir(Some("/b".to_string()), "pack") {
        Ok(p) => assert_eq!(p, "/b/instances/pack"),
        Err(_) => panic!("base is set"),
    }
    assert!(matches!(InstanceActionService::instance_dir(None, "pack"), Err(AppError::NoBaseDirectory)));
    assert!(matches!(ConfigService::require_base(None), Err(AppError::NoBaseDirectory)));
}

#[test]
fn new_instance_metadata() {
    assert_eq!(InstanceCreationService::display_name("", "folder"), "folder");
    assert_eq!(InstanceCreationService::display_name("My Pack", "folder"), "My Pack");
    let l = InstanceCreationService::loader_config("Fabric", &Some("0.15.7".to_string()));
    assert_eq!(l.kind, "fabric");
    assert_eq!(l.version, "0.15.7");
    let v = InstanceCreationService::loader_config("Vanilla", &None);
    assert_eq!(v.kind, "vanilla");
    assert_eq!(v.version, "");
    let j = InstanceCreationService::default_java();
    assert_eq!((j.path.as_str(), j.version.as_str()), ("auto", "auto"));
    let m = InstanceCreationService::default_memory();
    assert_eq!((m.min, m.max), (1024, 4096));
    let r = InstanceCreationService::default_resolution();
    assert_eq!((r.width, r.height), (1280, 720));
}

#[test]
fn cover_names_and_candidates() {
    assert_eq!(InstanceActionService::cover_file_name("jpg"), "cover.jpg");
    assert_eq!(InstanceActionService::cover_relative_path("cover.jpg"), "piconfig/cover.jpg");
    assert_eq!(
        InstanceListingService::cover_candidates("/i"),
        vec!["/i/piconfig/cover.png", "/i/piconfig/cover.jpg", "/i/piconfig/cover.jpeg", "/i/piconfig/cover.webp"]
    );
}

#[test]
fn loader_urls_and_keys() {
    assert_eq!(LoaderMetadataService::cache_key("NeoForge", "1.20.1"), "neoforge_1.20.1");
    assert_eq!(
        LoaderMetadataService::versions_url("Fabric", "1.20.1"),
        Some("https://meta.fabricmc.net/v2/versions/loader/1.20.1".to_string())
    );
    assert_eq!(
        LoaderMetadataService::versions_url("forge", "1.20.1"),
        Some("https://bmclapi2.bangbang93.com/forge/minecraft/1.20.1".to_string())
    );
    assert_eq!(
        LoaderMetadataService::versions_url("NEOFORGE", "1.20.1"),
        Some("https://bmclapi2.bangbang93.com/neoforge/list/1.20.1".to_string())
    );
    assert_eq!(LoaderMetadataService::versions_url("quilt", "1.20.1"), None);
    assert_eq!(LoaderMetadataService::versions_url_for("Fabric", "1.20.1"), None);
}

#[test]
fn loader_answers_are_read_in_order() {
    let f = vec![
        FabricLoaderMeta { loader: FabricLoaderInfo { version: "0.15.7".to_string() } },
        FabricLoaderMeta { loader: FabricLoaderInfo { version: "0.15.6".to_string() } },
    ];
    assert_eq!(LoaderMetadataService::fabric_versions(&f), vec!["0.15.7", "0.15.6"]);
    let b = vec![BmclApiLoaderVersion { version: "47.2.0".to_string() }];
    assert_eq!(LoaderMetadataService::bmclapi_versions(&b), vec!["47.2.0"]);
    assert!(LoaderMetadataService::bmclapi_versions(&Vec::new()).is_empty());
}

#[test]
fn animation_search_order() {
    let mut req = AnimationRequest {
        animation_name: "hover.animation.json".to_string(),
        instance_path: "/inst".to_string(),
        is_premium: true,
        user_prioritized: true,
    };
    assert_eq!(
        AnimationService::search_order("/app", &req),
        vec!["/app/piconfig/animations/hover.animation.json", "/inst/piconfig/animations/hover.animation.json"]
    );
    req.is_premium = false;
    assert_eq!(
        AnimationService::search_order("/app", &req),
        vec!["/inst/piconfig/animations/hover.animation.json", "/app/piconfig/animations/hover.animation.json"]
    );
}

#[test]
fn runtime_probes() {
    let m = memory_stats_from_bytes(17_179_869_184, 8_589_934_592 + 1);
    assert_eq!((m.total, m.available), (16384, 8192));
    let installs = vec![
        JavaInstall { version: "17".to_string(), path: "/a".to_string() },
        JavaInstall { version: "8".to_string(), path: "/b".to_string() },
        JavaInstall { version: "21".to_string(), path: "/c".to_string() },
    ];
    let r = partition_java_installs(&installs, &vec![true, false, true]);
    let valid: Vec<&str> = r.valid.iter().map(|j| j.path.as_str()).collect();
    let missing: Vec<&str> = r.missing.iter().map(|j| j.path.as_str()).collect();
    assert_eq!(valid, vec!["/a", "/c"]);
    assert_eq!(missing, vec!["/b"]);
    assert!(is_steam_deck(true, ""));
    assert!(is_steam_deck(false, "model name\t: AMD Custom APU 0405\n"));
    assert!(!is_steam_deck(false, "model name\t: Intel(R) Core(TM) i7"));
    let c = RuntimeConfig::fallback();
    assert_eq!((c.max_memory, c.min_memory), (4096, 1024));
    assert_eq!(c.jvm_args, "-XX:+UseG1GC -XX:+UnlockExperimentalVMOptions");
}

#[test]
fn java_version_labels() {
    let out = "openjdk version \"17.0.8\" 2023-07-18\r\nOpenJDK Runtime Environment\nOpenJDK 64-Bit Server VM (build 17.0.8+7, mixed mode)\n";
    assert_eq!(java_version_label(out), Some("17.0.8 (64-bit)".to_string()));
    let old = "java version \"1.8.0_381\"\nJava HotSpot(TM) Client VM\n";
    assert_eq!(java_version_label(old), Some("1.8.0_381 (32-bit)".to_string()));
    assert_eq!(java_version_label("garbage\n"), Some("Unknown (32-bit)".to_string()));
    assert_eq!(java_version_label(""), None);
    assert_eq!(java_version_label("\"unterminated"), Some("unterminated (32-bit)".to_string()));
}

fn rv(id: &str, kind: &str, t: &str) -> RemoteVersion {
    RemoteVersion {
        id: id.to_string(),
        kind: kind.to_string(),
        url: String::new(),
        time: t.to_string(),
        release_time: t.to_string(),
    }
}

#[test]
fn version_group_names() {
    assert_eq!(McMetadataService::group_name("1.21.2-rc1", "snapshot"), "1.21.2 候选版 (RC)");
    assert_eq!(McMetadataService::group_name("1.21.2-pre2", "snapshot"), "1.21.2 预发布版 (Pre)");
    assert_eq!(McMetadataService::group_name("1.20.1", "release"), "Minecraft 1.20");
    assert_eq!(McMetadataService::group_name("1.21", "release"), "Minecraft 1.21");
    assert_eq!(McMetadataService::group_name("b1", "release"), "Minecraft b1");
    assert_eq!(McMetadataService::group_name("23w31a", "snapshot"), "快照 2023");
    assert_eq!(McMetadataService::group_name("1.21-snapshot-3", "snapshot"), "快照 1.21");
    assert_eq!(McMetadataService::group_name("3D Shareware v1.34", "snapshot"), "其他快照");
    assert_eq!(McMetadataService::group_name("b1.7.3", "old_beta"), "其他版本");
    assert_eq!(McMetadataService::group_name("1.21-rc", "snapshot"), "其他快照");
}

#[test]
fn version_list_is_grouped_and_ordered() {
    let vs = vec![
        rv("1.20.2", "release", "2023-09-20T09:02:57+00:00"),
        rv("23w31a", "snapshot", "2023-08-01T10:03:21+00:00"),
        rv("1.20.1", "release", "2023-06-12T13:25:51+00:00"),
        rv("1.19.4", "release", "2023-03-14T12:56:18+00:00"),
        rv("1.20", "release", "2023-06-07T09:35:21+00:00"),
    ];
    let groups = McMetadataService::build_groups(&vs);
    let names: Vec<&str> = groups.iter().map(|g| g.group_name.as_str()).collect();
    assert_eq!(names, vec!["Minecraft 1.20", "快照 2023", "Minecraft 1.19"]);
    let ids: Vec<&str> = groups[0].versions.iter().map(|v| v.id.as_str()).collect();
    assert_eq!(ids, vec!["1.20.2", "1.20.1", "1.20"]);
    assert_eq!(groups[0].versions[0].release_time, "2023-09-20");
    assert_eq!(groups[0].versions[0].wiki_url, "https://minecraft.wiki/w/Java_Edition_1.20.2");
    assert!(McMetadataService::build_groups(&Vec::new()).is_empty());
}

#[test]
fn groups_with_equal_dates_are_ordered_by_name() {
    let vs = vec![
        rv("b1.0", "old_beta", "2010-12-20T17:28:00+00:00"),
        rv("a1.0", "old_alpha", "2010-12-20T17:28:00+00:00"),
        rv("1.0", "release", "2010-12-20T17:28:00+00:00"),
    ];
    let groups = McMetadataService::build_groups(&vs);
    let names: Vec<&str> = groups.iter().map(|g| g.group_name.as_str()).collect();
    assert_eq!(names, vec!["Minecraft 1.0", "其他版本"]);
    let ids: Vec<&str> = groups[1].versions.iter().map(|v| v.id.as_str()).collect();
    assert_eq!(ids, vec!["b1.0", "a1.0"]);
}

#[test]
fn fabric_is_recognised_in_any_case() {
    assert!(LoaderMetadataService::is_fabric("Fabric"));
    assert!(LoaderMetadataService::is_fabric("fabric"));
    assert!(!LoaderMetadataService::is_fabric("forge"));
}

#[test]
fn cache_key_of_lowered_kind() {
    assert_eq!(LoaderMetadataService::cache_key_for("fabric", "1.21"), "fabric_1.21");
    assert_eq!(LoaderMetadataService::cache_key("FABRIC", "1.21"), "fabric_1.21");
}

#[test]
fn font_names_are_sorted_and_unique() {
    let names: Vec<String> = ["Noto Sans", "DejaVu Serif", "Noto Sans", "Arial", "DejaVu Sans"]
        .iter()
        .map(|s| s.to_string())
        .collect();
    assert_eq!(sorted_font_names(&names), vec!["Arial", "DejaVu Sans", "DejaVu Serif", "Noto Sans"]);
    assert!(sorted_font_names(&Vec::new()).is_empty());
}

#[test]
fn group_names_from_captures() {
    let none: Option<String> = None;
    let some = |t: &str| Some(t.to_string());
    assert_eq!(
        McMetadataService::group_name_from("1.21.2-rc1", "snapshot", &some("1.21.2"), &none, &none, &none),
        "1.21.2 候选版 (RC)"
    );
    assert_eq!(McMetadataService::group_name_from("24w14a", "snapshot", &none, &none, &some("24"), &none), "快照 2024");
    assert_eq!(McMetadataService::group_name_from("1.20.4", "release", &none, &none, &none, &none), "Minecraft 1.20");
    assert_eq!(McMetadataService::group_name_from("x", "old_alpha", &none, &none, &none, &none), "其他版本");
}

#[test]
fn group_pattern_digits_are_unicode_digits() {
    // the regex crate's \d matches every Unicode decimal digit
    assert_eq!(McMetadataService::group_name("\u{0661}.\u{0662}-rc1", "snapshot"), "\u{0661}.\u{0662} 候选版 (RC)");
}
