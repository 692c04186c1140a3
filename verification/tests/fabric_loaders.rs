use mc_cli::fabric::schema::{Fabric, FabricIntermediaryVersion, FabricLib, FabricLoaderVersion, FabricVersion};
use mc_cli::fabric::{
    fabric_launch_args, fabric_launch_command, find_intermediary, get_ver, intermediary_release_dir,
    intermediary_url, library_url, loader_jar_url, loader_json_url, loader_release_dir,
    select_game_version, select_loader_version, version_dir_name, FabricLaunchPaths,
};
use mc_cli::loaders::{babric, fabric, labric, loader_for, ornithe, quilt};
use mc_cli::util::PathEntry;
use mc_cli::version::{maven_to_path, FabricBase};

fn v(s: &str) -> FabricVersion {
    FabricVersion { version: s.to_string() }
}

fn loader(maven: &str, version: &str, sep: &str) -> FabricLoaderVersion {
    FabricLoaderVersion { separator: sep.to_string(), build: 1, maven: maven.to_string(), version: version.to_string() }
}

#[test]
fn maven_to_path_builds_repository_path() {
    assert_eq!(
        maven_to_path("net.fabricmc:intermediary:1.20.1".to_string()),
        "net/fabricmc/intermediary/1.20.1/intermediary-1.20.1.jar"
    );
    assert_eq!(maven_to_path("a:b:c".to_string()), "a/b/c/b-c.jar");
}

#[test]
fn get_ver_picks_named_or_last() {
    let vs = vec![v("1.20"), v("1.19"), v("1.18")];
    assert_eq!(get_ver(vs.clone(), "1.19".to_string()).version, "1.19");
    assert_eq!(get_ver(vs, "9.9".to_string()).version, "1.18");
    assert_eq!(get_ver(vec![], "x".to_string()).version, "");
}

#[test]
fn selecting_versions() {
    let vs = vec![v("1.20"), v("1.19")];
    assert_eq!(select_game_version(vs.clone(), None).unwrap().version, "1.20");
    assert_eq!(select_game_version(vs, Some("1.19".to_string())).unwrap().version, "1.19");
    assert!(select_game_version(vec![], None).is_none());
    let ls = vec![loader("m", "0.15", "+"), loader("m", "0.14", "+")];
    assert_eq!(select_loader_version(&ls, &None), Some(0));
    assert_eq!(select_loader_version(&ls, &Some("0.14".to_string())), Some(1));
    assert_eq!(select_loader_version(&ls, &Some("0.1".to_string())), None);
    assert_eq!(select_loader_version(&vec![], &None), None);
}

#[test]
fn loader_version_split_like_std() {
    let l = loader("net.fabricmc:fabric-loader:0.14.21+build.1", "0.14.21+build.1", "+");
    assert_eq!(l.split(), ("0.14.21", "build.1"));
    let l = loader("x", "0.14.21", "+");
    assert_eq!(l.split(), ("0.14.21", ""));
    let l = loader("x", "a+b+c", "+");
    assert_eq!(l.split(), ("a+b+c", ""));
    let l = loader("x", "abc", "");
    assert_eq!(l.split(), ("abc", ""));
    let l = loader("x", "", "");
    assert_eq!(l.split(), ("", ""));
}

#[test]
fn split_pieces_rejoin_to_the_version() {
    let l = loader("x", "1.2-beta", "-");
    let (a, b) = l.split();
    assert_eq!((a, b), ("1.2", "beta"));
    assert_eq!(format!("{}{}{}", a, l.separator, b), l.version);
    let l = loader("x", "0.16.9+build.7", "+");
    let (a, b) = l.split();
    assert_eq!(format!("{}{}{}", a, l.separator, b), l.version);
}

#[test]
fn loader_paths() {
    let l = loader("net.fabricmc:fabric-loader:0.14.21", "0.14.21", ".");
    assert_eq!(l.replace(), "net/fabricmc/fabric-loader/0.14.21");
    assert_eq!(l.jar_path("fabric".to_string()), "net/fabricmc/fabric-loader/0.14.21/fabric-loader-0.14.21.jar");
    assert_eq!(l.json_path("labric".to_string()), "net/fabricmc/fabric-loader/0.14.21/fabric-loader-0.14.21.json");
    assert_eq!(l.jar_path("quilt".to_string()), "net/fabricmc/fabric-loader/0.14.21/quilt-loader-0.14.21.jar");
}

#[test]
fn loader_urls_per_base() {
    let l = loader("org.quiltmc:quilt-loader:0.20.0", "0.20.0", ".");
    assert_eq!(
        loader_jar_url(&FabricBase::Quilt(true), &l),
        "https://maven.quiltmc.org/repository/release/org/quiltmc/quilt-loader/0.20.0/quilt-loader-0.20.0.jar"
    );
    let f = loader("net.fabricmc:fabric-loader:0.15.0", "0.15.0", ".");
    let fabric_url = loader_json_url(&FabricBase::Fabric, &f);
    assert_eq!(fabric_url, "https://maven.fabricmc.net/net/fabricmc/fabric-loader/0.15.0/fabric-loader-0.15.0.json");
    assert_eq!(loader_json_url(&FabricBase::Labric, &f), fabric_url);
    assert_eq!(loader_json_url(&FabricBase::Babric, &f), fabric_url);
    assert_eq!(loader_json_url(&FabricBase::Ornithe, &f), fabric_url);
    assert_eq!(intermediary_release_dir(&FabricBase::Babric), "releases/");
    assert_eq!(intermediary_release_dir(&FabricBase::Quilt(false)), "repository/snapshot/");
    assert_eq!(loader_release_dir(&FabricBase::Ornithe), "");
}

#[test]
fn intermediary_lookup_and_url() {
    let is = vec![
        FabricIntermediaryVersion { maven: "net.fabricmc:intermediary:1.19".to_string(), version: "1.19".to_string() },
        FabricIntermediaryVersion { maven: "net.fabricmc:intermediary:1.20".to_string(), version: "1.20".to_string() },
    ];
    let found = find_intermediary(&is, &v("1.20"));
    assert_eq!(found.maven, "net.fabricmc:intermediary:1.20");
    let missing = find_intermediary(&is, &v("1.2"));
    assert_eq!((missing.maven.as_str(), missing.version.as_str()), ("", ""));
    assert_eq!(
        intermediary_url(&FabricBase::Ornithe, &found),
        "https://maven.ornithemc.net/releases/net/fabricmc/intermediary/1.20/intermediary-1.20.jar"
    );
}

#[test]
fn library_urls_and_dir_names() {
    let lib = FabricLib { name: "org.ow2.asm:asm:9.5".to_string(), url: "https://maven.fabricmc.net/".to_string() };
    assert_eq!(library_url(&lib), "https://maven.fabricmc.net/org/ow2/asm/asm/9.5/asm-9.5.jar");
    assert_eq!(version_dir_name(&FabricBase::Labric, &v("1.8.9")), "labric-1.8.9");
    assert_eq!(version_dir_name(&FabricBase::Quilt(false), &v("1.20")), "quilt-1.20");
}

#[test]
fn loader_endpoints() {
    assert_eq!(fabric().maven, "https://maven.fabricmc.net/");
    assert_eq!(quilt().id, "quilt");
    assert_eq!(labric().game_versions, "https://meta.legacyfabric.net/v2/versions/game");
    assert_eq!(babric().intermediary_versions, "https://meta.babric.glass-launcher.net/v2/versions/intermediary");
    assert_eq!(ornithe().loader_versions, "https://meta.ornithemc.net/v3/versions/gen2/fabric-loader");
    assert_eq!(loader_for(&FabricBase::Babric).id, "babric");
}

fn paths(macos: bool) -> FabricLaunchPaths {
    FabricLaunchPaths {
        libs: vec![
            PathEntry { path: "/v/libs/a.jar".to_string(), extension: Some("jar".to_string()) },
            PathEntry { path: "/v/libs/readme.txt".to_string(), extension: Some("txt".to_string()) },
            PathEntry { path: "/v/libs/n.zip".to_string(), extension: Some("zip".to_string()) },
        ],
        intermediary_jar: "/v/inter.jar".to_string(),
        client_jar: "/v/client.jar".to_string(),
        loader_jar: "/v/fabric.jar".to_string(),
        game_dir: "/game".to_string(),
        assets_dir: "/assets".to_string(),
        version_dir_name: "fabric-1.20".to_string(),
        windows: false,
        macos,
    }
}

#[test]
fn fabric_launch_arguments() {
    let args = fabric_launch_args(&paths(false), "net.fabricmc.Main", "Steve", "u-u-i-d");
    assert_eq!(
        args,
        vec![
            "-cp", "/v/libs/a.jar:/v/libs/n.zip:/v/inter.jar:/v/client.jar:/v/fabric.jar",
            "net.fabricmc.Main", "--gameDir", "/game", "--assetsDir", "/assets", "--assetIndex", "1.20",
            "--uuid", "u-u-i-d", "--username", "Steve",
        ]
    );
    let mac = fabric_launch_args(&paths(true), "M", "S", "U");
    assert_eq!(mac[0], "-XstartOnFirstThread");
    let drawn = fabric_launch_command(&paths(false), "M", "S");
    let uuid = &drawn[10];
    assert_eq!(uuid.len(), 36);
    assert_eq!(uuid.as_bytes()[14], b'4');
}

#[test]
fn fabric_default_is_empty() {
    let f = Fabric::default();
    assert!(f.ver_dir.is_none());
    assert_eq!(f.main_class, "");
}

#[test]
fn loader_jar_sits_at_maven_path() {
    let l = loader("net.fabricmc:fabric-loader:0.14.21", "0.14.21", "+");
    assert_eq!(l.jar_path("fabric".to_string()), maven_to_path(l.maven.clone()));
    let l = loader("org.quiltmc:quilt-loader:0.26.4-beta.3", "0.26.4-beta.3", "+");
    assert_eq!(l.jar_path("quilt".to_string()), maven_to_path(l.maven.clone()));
    assert_eq!(l.jar_path("quilt".to_string()), "org/quiltmc/quilt-loader/0.26.4-beta.3/quilt-loader-0.26.4-beta.3.jar");
}
