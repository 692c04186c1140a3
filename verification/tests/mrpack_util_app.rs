use mc_cli::app::{open_target_path, McLaunchCtx, OpenTarget};
use mc_cli::mrpack::{
    empty_hashmap, is_affirmative, is_affirmative_lowercase, is_minecraft_pack, is_needed_by_client, listing_line,
    MrpackEnv, MrpackFile, MrpackIndexJson, SideType,
};
use mc_cli::quilt::schema::Quilt;
use mc_cli::string_map::StringMap;
use mc_cli::util::{archive_entries, class_path, classify_version_dir, is_archive_entry, PathEntry};

fn s(x: &str) -> String {
    x.to_string()
}

fn file(path: &str, deps: Vec<(&str, &str)>, client: SideType) -> MrpackFile {
    let mut d = empty_hashmap();
    for (k, v) in deps {
        d.insert(s(k), s(v));
    }
    MrpackFile { path: s(path), env: MrpackEnv { client, server: SideType::Optional }, downloads: vec![], file_size: 1, dependencies: d }
}

#[test]
fn modpack_listing_lines() {
    assert_eq!(listing_line(&file("mods/sodium.jar", vec![], SideType::Required)), "sodium.jar []");
    assert_eq!(
        listing_line(&file("resourcepacks/pack.zip", vec![("minecraft", "1.20"), ("fabric", "0.15")], SideType::Required)),
        "pack.zip [minecraft@1.20, fabric@0.15]"
    );
    assert_eq!(listing_line(&file("config/x.toml", vec![], SideType::Required)), "config/x.toml []");
    assert_eq!(listing_line(&file("mods/resourcepacks/odd", vec![], SideType::Required)), "odd []");
}

#[test]
fn modpack_checks() {
    let index = MrpackIndexJson { format_version: 1, game: s("minecraft"), version_id: s("1"), name: s("p"), summary: None, files: vec![] };
    assert!(is_minecraft_pack(&index));
    let other = MrpackIndexJson { game: s("terraria"), ..index };
    assert!(!is_minecraft_pack(&other));
    assert!(!is_needed_by_client(&file("a", vec![], SideType::Unsupported)));
    assert!(is_needed_by_client(&file("a", vec![], SideType::Optional)));
}

#[test]
fn confirmation_answers() {
    for a in ["yes\n", "Y", "  yea ", "YE\r\n", "\n", ""] {
        assert!(is_affirmative(a), "{:?}", a);
    }
    for a in ["no", "yess", "n\n", "yep"] {
        assert!(!is_affirmative(a), "{:?}", a);
    }
    assert!(is_affirmative_lowercase(" y "));
    assert!(!is_affirmative_lowercase("Y"));
}

#[test]
fn installed_versions_are_classified() {
    let c = |n: &str| classify_version_dir(n);
    assert_eq!(c("fabric-1.20.1"), (s("fabric"), s("1.20.1")));
    assert_eq!(c("quilt-1.20"), (s("quilt"), s("1.20")));
    assert_eq!(c("liteloader-1.12.2"), (s("liteloader"), s("1.12.2")));
    assert_eq!(c("risugami-b1.7.3"), (s("risugami"), s("b1.7.3")));
    assert_eq!(c("ornithe-1.8"), (s("ornithe"), s("1.8")));
    assert_eq!(c("babric-b1.7.3"), (s("babric"), s("b1.7.3")));
    assert_eq!(c("labric-1.8.9"), (s("legacy_fabric"), s("labric-1.8.9")));
    assert_eq!(c("1.20.4"), (s("vanilla"), s("1.20.4")));
}

#[test]
fn class_paths() {
    let entries = vec![
        PathEntry { path: s("/l/a.jar"), extension: Some(s("jar")) },
        PathEntry { path: s("/l/b"), extension: None },
        PathEntry { path: s("/l/c.zip"), extension: Some(s("zip")) },
        PathEntry { path: s("/l/d.JAR"), extension: Some(s("JAR")) },
    ];
    assert!(is_archive_entry(&entries[0]));
    assert!(!is_archive_entry(&entries[3]));
    assert_eq!(archive_entries(&entries), vec!["/l/a.jar", "/l/c.zip"]);
    assert_eq!(class_path(&entries, &vec![s("/v/client.jar")], true), "/l/a.jar;/l/c.zip;/v/client.jar");
    assert_eq!(class_path(&vec![], &vec![], false), "");
}

#[test]
fn open_targets() {
    assert_eq!(open_target_path(&OpenTarget::Game), "");
    assert_eq!(open_target_path(&OpenTarget::ResourcePacks), "resourcepacks");
    assert_eq!(open_target_path(&OpenTarget::McOptions), "options.txt");
}

#[test]
fn string_map_behaves_as_a_map() {
    let mut m: StringMap<u32> = StringMap::new();
    assert_eq!(m.insert(s("a"), 1), None);
    assert_eq!(m.insert(s("b"), 2), None);
    assert_eq!(m.insert(s("a"), 3), Some(1));
    assert_eq!(m.len(), 2);
    assert_eq!(m.get("a"), Some(&3));
    assert_eq!(m.get("c"), None);
    assert!(m.contains_key("b"));
    assert_eq!(m.key_at(0), "a");
    assert_eq!(*m.value_at(1), 2);
    let c = m.clone();
    assert_eq!(c.get("b"), Some(&2));
}

#[test]
fn defaults_and_launch_context() {
    let q = Quilt::default();
    assert!(!q.snapshot && q.ver_dir.is_none() && q.main_class.is_empty());
    let ctx = McLaunchCtx { limit: s("1G"), username: s("u"), javaagent: false, extra_game_args: vec![], launchwrapper: false };
    assert_eq!(ctx.clone().limit, "1G");
}
