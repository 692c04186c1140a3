use mc_cli::app::McLaunchCtx;
use mc_cli::string_map::{hashmap_contains, StringMap};
use mc_cli::util::PathEntry;
use mc_cli::vanilla::schema::{
    classifiers_needed, get_ver_json_url, matches_arg_rule, matches_os_rule, rust_arch_to_minecraft_arch,
    rust_os_to_minecraft_os, Os, Platform, Vanilla, VanillaArguments, VanillaAssetIndex, VanillaDownload,
    VanillaDownloads, VanillaExtract, VanillaGameArgument, VanillaGameArgumentValue, VanillaJvmArgument,
    VanillaJvmArgumentValue, VanillaLatest, VanillaLibrary, VanillaLibraryClassifiers, VanillaLibraryDownload,
    VanillaLibraryDownloads, VanillaManifest, VanillaRule, VanillaRuleFeatures, VanillaVersion,
    VanillaVersionJson,
};
use mc_cli::vanilla::{
    asset_dir, asset_url, launch_command, launch_command_with_ids, launch_features, library_downloads, select_version,
    LaunchEnv,
};

fn s(x: &str) -> String {
    x.to_string()
}

fn platform(os: &str, arch: &str) -> Platform {
    Platform { os: s(os), arch: s(arch) }
}

fn rule(action: &str, os: Option<Os>, features: Option<Vec<(&str, bool)>>) -> VanillaRule {
    VanillaRule {
        action: s(action),
        os,
        features: features.map(|fs| {
            let mut m = StringMap::new();
            for (k, v) in fs {
                m.insert(s(k), v);
            }
            VanillaRuleFeatures(m)
        }),
    }
}

fn download(path: &str) -> VanillaLibraryDownload {
    VanillaLibraryDownload { path: s(path), sha1: s("0"), size: 1, url: format!("https://l/{}", path) }
}

fn json(arguments: Option<VanillaArguments>, legacy: Option<&str>, libraries: Vec<VanillaLibrary>) -> VanillaVersionJson {
    VanillaVersionJson {
        arguments,
        minecraftArguments: legacy.map(s),
        downloads: VanillaDownloads {
            client: VanillaDownload { sha1: s("0"), size: 1, url: s("https://c/client.jar") },
            client_mappings: None,
            server: None,
            server_mappings: None,
        },
        libraries,
        mainClass: s("net.minecraft.client.main.Main"),
        kind: s("release"),
        assetIndex: VanillaAssetIndex { id: s("5"), sha1: s("0"), size: 1, totalSize: 1, url: s("https://a") },
    }
}

fn ctx(extra: Vec<&str>, javaagent: bool, launchwrapper: bool) -> McLaunchCtx {
    McLaunchCtx {
        limit: s("2G"),
        username: s("Alex"),
        javaagent,
        extra_game_args: extra.into_iter().map(s).collect(),
        launchwrapper,
    }
}

fn env() -> LaunchEnv {
    LaunchEnv {
        platform: platform("linux", "x86_64"),
        mod_files: vec![
            PathEntry { path: s("/g/mods/a.jar"), extension: Some(s("jar")) },
            PathEntry { path: s("/g/mods/b.zip"), extension: Some(s("zip")) },
        ],
        lib_files: vec![PathEntry { path: s("/v/libs/x.jar"), extension: Some(s("jar")) }],
        client_jar: s("/v/client.jar"),
        libs_dir: s("/v/libs"),
        game_dir: s("/g"),
        assets_dir: s("/a"),
        version_name: s("1.20"),
        launcher_version: s("0.0.1"),
    }
}

#[test]
fn os_and_arch_names() {
    assert_eq!(rust_os_to_minecraft_os("macos"), "osx");
    assert_eq!(rust_os_to_minecraft_os("freebsd"), "unknown");
    assert_eq!(rust_arch_to_minecraft_arch("arm"), "arm32");
    assert_eq!(rust_arch_to_minecraft_arch("x86"), "x86");
}

#[test]
fn os_rules() {
    let linux = platform("linux", "x86_64");
    assert!(matches_os_rule(&rule("disallow", None, None), &linux));
    assert!(matches_os_rule(&rule("allow", Some(Os::Name { name: s("linux") }), None), &linux));
    assert!(!matches_os_rule(&rule("disallow", Some(Os::Name { name: s("linux") }), None), &linux));
    assert!(!matches_os_rule(&rule("allow", Some(Os::Name { name: s("osx") }), None), &linux));
    assert!(matches_os_rule(&rule("allow", Some(Os::Arch { arch: s("x86_64") }), None), &linux));
    // only the architecture of a combined rule is compared
    assert!(matches_os_rule(&rule("allow", Some(Os::Both { name: s("windows"), arch: s("x86_64") }), None), &linux));
}

#[test]
fn feature_rules() {
    let features = launch_features();
    assert!(matches_arg_rule(features.copied(), &rule("allow", None, None)));
    assert!(matches_arg_rule(features.copied(), &rule("allow", None, Some(vec![("is_demo_user", false)]))));
    assert!(!matches_arg_rule(features.copied(), &rule("allow", None, Some(vec![("is_demo_user", true)]))));
    assert!(!matches_arg_rule(features.copied(), &rule("allow", None, Some(vec![("unknown_feature", false)]))));
    assert!(!matches_arg_rule(features.copied(), &rule("disallow", None, Some(vec![("is_demo_user", false)]))));
}

#[test]
fn map_containment() {
    let mut big = StringMap::new();
    big.insert(s("a"), true);
    big.insert(s("b"), false);
    let mut small = StringMap::new();
    small.insert(s("b"), false);
    assert!(hashmap_contains(&big, &small));
    assert!(hashmap_contains(&big, &big));
    assert!(!hashmap_contains(&small, &big));
    small.insert(s("b"), true);
    assert!(!hashmap_contains(&big, &small));
    assert!(hashmap_contains(&big, &StringMap::new()));
}

#[test]
fn natives_per_platform() {
    let c = VanillaLibraryClassifiers {
        natives_windows_64: Some(download("w64")),
        natives_windows_32: Some(download("w32")),
        natives_windows: Some(download("w")),
        natives_osx: Some(download("o")),
        natives_osx_64: None,
        natives_osx_32: Some(download("o32")),
        natives_linux: Some(download("l")),
        natives_linux_32: None,
        natives_linux_64: Some(download("l64")),
    };
    let paths = |p: &Platform| classifiers_needed(&c, p).iter().map(|d| d.path.clone()).collect::<Vec<_>>();
    assert_eq!(paths(&platform("macos", "aarch64")), vec!["o", "o32"]);
    assert_eq!(paths(&platform("windows", "x86")), vec!["w32", "w"]);
    assert_eq!(paths(&platform("windows", "aarch64")), vec!["w"]);
    assert_eq!(paths(&platform("linux", "x86_64")), vec!["l64", "l"]);
    assert!(paths(&platform("freebsd", "x86_64")).is_empty());
}

#[test]
fn version_json_url_lookup() {
    let manifest = VanillaManifest {
        latest: VanillaLatest { release: s("1.20"), snapshot: s("23w01a") },
        versions: vec![
            VanillaVersion { id: s(" 1.20 "), url: s("https://v/1.20.json") },
            VanillaVersion { id: s("1.19"), url: s("https://v/1.19.json") },
            VanillaVersion { id: s("1.20"), url: s("https://v/dup.json") },
        ],
    };
    assert_eq!(get_ver_json_url(manifest.clone(), s("1.20\n")), Some(s("https://v/1.20.json")));
    assert_eq!(get_ver_json_url(manifest.clone(), s("1.18")), None);
    assert_eq!(select_version(None, &manifest), "23w01a");
    assert_eq!(select_version(Some(s("1.19")), &manifest), "1.19");
}

#[test]
fn legacy_launch_command() {
    let j = json(None, Some("--username ${auth_player_name} --version ${version_name} --uuid ${auth_uuid}"), vec![]);
    let c = ctx(vec!["--tweakClass", "T"], false, true);
    let game_count = 6 + 2;
    let ids: Vec<(String, String)> = (0..game_count).map(|i| (format!("auth{}", i), format!("client{}", i))).collect();
    let cmd = launch_command_with_ids(&j, &c, &env(), &ids);
    assert_eq!(
        cmd,
        vec![
            "-Xmx2G",
            "-Djava.library.path=/v/libs",
            "-Djna.tmpdir=/v/libs",
            "-Dorg.lwjgl.system.SharedLibraryExtractPath=/v/libs",
            "-Dio.netty.native.workdir=/v/libs",
            "-Dminecraft.launcher.brand=mc_cli",
            "-Dminecraft.launcher.version=0.0.1",
            "-cp",
            "/v/libs/x.jar:/v/client.jar",
            "net.minecraft.launchwrapper.Launch",
            "--username", "Alex", "--version", "1.20", "--uuid", "auth5", "--tweakClass", "T",
        ]
    );
}

#[test]
fn structured_launch_command() {
    let jvm = vec![
        VanillaJvmArgument::String(s("-Dx=${launcher_name}")),
        VanillaJvmArgument::ArgWithRule {
            rules: vec![rule("allow", Some(Os::Name { name: s("osx") }), None)],
            value: VanillaJvmArgumentValue::String(s("-XstartOnFirstThread")),
        },
        VanillaJvmArgument::ArgWithRule {
            rules: vec![rule("allow", Some(Os::Name { name: s("linux") }), None), rule("allow", None, None)],
            value: VanillaJvmArgumentValue::Strings(vec![s("-a"), s("-b")]),
        },
    ];
    let game = vec![
        VanillaGameArgument::String(s("--gameDir")),
        VanillaGameArgument::String(s("${game_directory}")),
        VanillaGameArgument::ArgWithRule {
            rules: vec![rule("allow", None, Some(vec![("is_demo_user", true)]))],
            value: VanillaGameArgumentValue::String(s("--demo")),
        },
        VanillaGameArgument::ArgWithRule {
            rules: vec![rule("allow", None, Some(vec![("has_custom_resolution", false)]))],
            value: VanillaGameArgumentValue::Strings(vec![s("--type"), s("${version_type}")]),
        },
    ];
    let j = json(Some(VanillaArguments { game, jvm }), None, vec![]);
    let c = ctx(vec![], true, false);
    let ids: Vec<(String, String)> = (0..4).map(|_| (s("A"), s("C"))).collect();
    let cmd = launch_command_with_ids(&j, &c, &env(), &ids);
    assert_eq!(
        cmd,
        vec![
            "-Xmx2G", "-javaagent:/g/mods/a.jar", "-Dx=mc_cli", "-a", "-b", "-a", "-b",
            "net.minecraft.client.main.Main", "--gameDir", "/g", "--type", "release",
        ]
    );
    let drawn = launch_command(&j, &c, &env());
    assert_eq!(drawn.len(), cmd.len());
}

#[test]
fn library_download_plan() {
    let libs = vec![
        VanillaLibrary {
            downloads: VanillaLibraryDownloads { artifact: Some(download("a.jar")), classifiers: None },
            name: s("a"),
            rules: None,
            extract: None,
        },
        VanillaLibrary {
            downloads: VanillaLibraryDownloads { artifact: Some(download("mac-only.jar")), classifiers: None },
            name: s("m"),
            rules: Some(vec![rule("allow", Some(Os::Name { name: s("osx") }), None)]),
            extract: None,
        },
        VanillaLibrary {
            downloads: VanillaLibraryDownloads {
                artifact: None,
                classifiers: Some(VanillaLibraryClassifiers {
                    natives_windows_64: None,
                    natives_windows_32: None,
                    natives_windows: None,
                    natives_osx: None,
                    natives_osx_64: None,
                    natives_osx_32: None,
                    natives_linux: Some(download("native-linux.jar")),
                    natives_linux_32: None,
                    natives_linux_64: None,
                }),
            },
            name: s("n"),
            rules: None,
            extract: Some(VanillaExtract { exclude: vec![s("META-INF/")] }),
        },
    ];
    let plan = library_downloads(&json(None, None, libs), &platform("linux", "x86_64"));
    let got: Vec<(String, String, Option<Vec<String>>)> =
        plan.into_iter().map(|d| (d.path, d.url, d.unpack_excluding)).collect();
    assert_eq!(
        got,
        vec![
            (s("a.jar"), s("https://l/a.jar"), None),
            (s("native-linux.jar"), s("https://l/native-linux.jar"), Some(vec![s("META-INF/")])),
        ]
    );
}

#[test]
fn asset_urls() {
    assert_eq!(
        asset_url("bdf48ef6b5d0d23bbb02e17d04865216179f510a"),
        "https://resources.download.minecraft.net/bd/bdf48ef6b5d0d23bbb02e17d04865216179f510a"
    );
    let hash = "\u{e9}abc";
    assert_eq!(asset_dir(hash), &hash[..2]);
    assert_eq!(asset_dir("ab"), "ab");
}

#[test]
fn vanilla_default_is_empty() {
    let v = Vanilla::default();
    assert!(v.json.is_none() && v.ver_dir.is_none());
}

#[test]
fn feature_containment_orders_maps() {
    let mut a = StringMap::new();
    a.insert(s("x"), true);
    a.insert(s("y"), false);
    a.insert(s("z"), true);
    let mut b = StringMap::new();
    b.insert(s("x"), true);
    b.insert(s("y"), false);
    let mut c = StringMap::new();
    c.insert(s("y"), false);
    assert!(hashmap_contains(&a, &b) && hashmap_contains(&b, &c));
    assert!(hashmap_contains(&a, &c));
    assert!(hashmap_contains(&a, &a));
    let mut b2 = StringMap::new();
    b2.insert(s("y"), false);
    b2.insert(s("x"), true);
    assert!(hashmap_contains(&b, &b2) && hashmap_contains(&b2, &b));
    assert_eq!(b.get("x"), b2.get("x"));
    assert_eq!(b.get("y"), b2.get("y"));
    assert_eq!(b.len(), b2.len());
}
