use mc_cli::liteloader::schema::Liteloader;
use mc_cli::liteloader::{
    candidate_bases, choose_build, is_snapshot, jar_file_name, latest_version, lex_greater, library_layout,
    release_jar_url, release_liteloader_url, required_libraries, select_version, snapshot_jar_url,
    snapshot_metadata_url, url_file_name, version_numbers_of,
};
use mc_cli::risugami::schema::Risugami;
use mc_cli::risugami::{modloader_archive_url, risugami_dir_name, risugami_main_class, select_mod_version};
use mc_cli::string_map::StringMap;
use mc_cli::version::{
    LiteLoaderArtifact, LiteLoaderArtifacts, LiteLoaderLibrary, LiteLoaderRepo, LiteLoaderSnapshots,
    LiteLoaderTweaks, LiteLoaderVersion, MavenMetadataSnapshot, McArchiveModFile, McArchiveModVersion,
};

fn s(x: &str) -> String {
    x.to_string()
}

fn lib(name: &str, url: Option<&str>) -> LiteLoaderLibrary {
    LiteLoaderLibrary { name: s(name), url: url.map(s) }
}

fn repo(url: &str) -> LiteLoaderRepo {
    LiteLoaderRepo { stream: s("RELEASE"), kind: s("m2"), url: s(url), classifier: s("") }
}

fn tweaks(libs: Vec<LiteLoaderLibrary>, file: &str, version: &str) -> LiteLoaderTweaks {
    LiteLoaderTweaks {
        tweakClass: s("T"),
        libraries: libs,
        stream: s("SNAPSHOT"),
        file: s(file),
        version: s(version),
        build: s("1"),
        md5: s("0"),
        timestamp: s("0"),
        lastSuccessfulBuild: 1,
    }
}

fn artifacts(libs: Vec<LiteLoaderLibrary>, file: &str) -> LiteLoaderArtifacts {
    LiteLoaderArtifacts {
        tweakClass: s("T"),
        libraries: libs,
        stream: s("RELEASE"),
        file: s(file),
        version: s("1.12.2"),
        md5: s("0"),
        timestamp: s("0"),
    }
}

fn version_entry(art: Option<LiteLoaderArtifacts>, snap: Option<(Vec<LiteLoaderLibrary>, LiteLoaderTweaks)>) -> LiteLoaderVersion {
    LiteLoaderVersion {
        repo: repo("http://repo.mumfrey.com/content/repositories/snapshots/"),
        artefacts: art.map(|a| {
            let mut m = StringMap::new();
            m.insert(s("latest"), a);
            LiteLoaderArtifact { liteloader: m }
        }),
        snapshots: snap.map(|(libs, t)| {
            let mut m = StringMap::new();
            m.insert(s("1.12.2-SNAPSHOT"), t);
            LiteLoaderSnapshots { libraries: libs, liteloader: m }
        }),
    }
}

#[test]
fn snapshot_urls() {
    assert_eq!(
        snapshot_metadata_url("http://r/", "com/mumfrey", "liteloader", "1.12.2-SNAPSHOT"),
        "http://r/com/mumfrey/liteloader/1.12.2-SNAPSHOT/maven-metadata.xml"
    );
    let snap = MavenMetadataSnapshot { timestamp: s("20200101.101010"), buildNumber: 42 };
    assert_eq!(
        snapshot_jar_url("http://r//", "com/mumfrey", "liteloader", "1.12.2-SNAPSHOT", &snap, Some("release")),
        "http://r/com/mumfrey/liteloader/1.12.2-SNAPSHOT/liteloader-1.12.2-20200101.101010-42-release.jar"
    );
    assert_eq!(
        snapshot_jar_url("http://r", "g", "a", "1-SNAPSHOT", &snap, None),
        "http://r/g/a/1-SNAPSHOT/a-1-20200101.101010-42.jar"
    );
}

#[test]
fn library_layouts_and_urls() {
    assert!(library_layout(&lib("bad:name", None)).is_none());
    assert!(library_layout(&lib("a:b:c:d", None)).is_none());
    let l = library_layout(&lib("net.minecraft:launchwrapper:1.12", None)).unwrap();
    assert_eq!((l.group.as_str(), l.group_path.as_str(), l.artifact.as_str(), l.version.as_str()),
        ("net.minecraft", "net/minecraft", "launchwrapper", "1.12"));
    assert_eq!(jar_file_name(&l), "launchwrapper-1.12.jar");
    assert!(!is_snapshot(&l));
    assert_eq!(release_jar_url("https://m", &l), "https://m/net/minecraft/launchwrapper/1.12/launchwrapper-1.12.jar");
    let bases = candidate_bases(&lib("net.minecraft:launchwrapper:1.12", Some("https://repo1.maven.org/maven2/")), &l, "http://repo.liteloader.com/");
    assert_eq!(bases, vec!["https://repo1.maven.org/maven2", "https://libraries.minecraft.net", "http://repo.liteloader.com"]);
    let other = library_layout(&lib("org.ow2.asm:asm-all:5.2-SNAPSHOT", None)).unwrap();
    assert!(is_snapshot(&other));
    let bases = candidate_bases(&lib("org.ow2.asm:asm-all:5.2-SNAPSHOT", None), &other, "http://x/");
    assert_eq!(bases, vec!["http://repo.liteloader.com", "https://repo1.maven.org/maven2", "http://x"]);
}

#[test]
fn version_numbers_and_order() {
    assert_eq!(version_numbers_of("1.12.2"), vec![1, 12, 2]);
    assert_eq!(version_numbers_of("1.x.3"), vec![1, 3]);
    assert!(lex_greater(&vec![1, 12], &vec![1, 9, 9]));
    assert!(lex_greater(&vec![1, 12, 1], &vec![1, 12]));
    assert!(!lex_greater(&vec![1, 12], &vec![1, 12]));
    assert!(!lex_greater(&vec![], &vec![]));
}

#[test]
fn newest_version_is_picked() {
    let mut versions = StringMap::new();
    for k in ["1.9", "1.12.2", "1.10", "1.12.2"] {
        versions.insert(s(k), version_entry(None, None));
    }
    versions.insert(s("snapshot"), version_entry(None, None));
    assert_eq!(latest_version(&versions), Some(s("1.12.2")));
    assert_eq!(select_version(&versions, Some(s("1.10"))), Some(s("1.10")));
    assert_eq!(select_version(&versions, Some(s("2.0"))), None);
    assert_eq!(select_version(&versions, None), Some(s("1.12.2")));
    let mut words = StringMap::new();
    words.insert(s("alpha"), version_entry(None, None));
    assert_eq!(latest_version(&words), None);
}

#[test]
fn required_libraries_keep_first_of_each_name() {
    let entry = version_entry(
        Some(artifacts(vec![lib("a:a:1", None), lib("b:b:1", Some("http://b"))], "liteloader-1.12.2.jar")),
        Some((vec![lib("b:b:1", Some("http://other")), lib("c:c:1", None)], tweaks(vec![lib("a:a:1", None), lib("d:d:1", None)], "f", "1.12.2-SNAPSHOT"))),
    );
    let libs = required_libraries(&entry);
    let names: Vec<(String, Option<String>)> = libs.into_iter().map(|l| (l.name, l.url)).collect();
    assert_eq!(names, vec![
        (s("a:a:1"), None),
        (s("b:b:1"), Some(s("http://b"))),
        (s("c:c:1"), None),
        (s("d:d:1"), None),
    ]);
    let art = entry.artefacts.as_ref().unwrap();
    assert_eq!(choose_build(&art.liteloader).unwrap().file, "liteloader-1.12.2.jar");
    let snap = entry.snapshots.as_ref().unwrap();
    assert_eq!(choose_build(&snap.liteloader).unwrap().version, "1.12.2-SNAPSHOT");
    assert!(choose_build::<LiteLoaderTweaks>(&StringMap::new()).is_none());
}

#[test]
fn liteloader_jar_locations() {
    assert_eq!(
        release_liteloader_url("http://dl.liteloader.com/versions/", "1.12.2", "liteloader-1.12.2.jar"),
        "http://dl.liteloader.com/versions/com/mumfrey/liteloader/1.12.2/liteloader-1.12.2.jar"
    );
    assert_eq!(url_file_name("http://r/a/b/file-1.jar"), "file-1.jar");
    assert_eq!(url_file_name("noslash"), "noslash");
    assert_eq!(url_file_name("ends/"), "");
    let l = Liteloader::default();
    assert!(l.ver_dir.is_none() && l.main_class.is_empty());
}

fn mod_file(archive: Option<&str>, name: &str) -> McArchiveModFile {
    McArchiveModFile {
        uuid: uuid::Uuid::nil(),
        sha256: s("abc123"),
        name: s(name),
        description: s(""),
        page_url: s(""),
        redirect_url: s(""),
        archive_url: archive.map(s),
    }
}

#[test]
fn risugami_release_and_archive() {
    let versions = vec![
        McArchiveModVersion { files: vec![mod_file(None, "ModLoader b1.7.3.zip")], uuid: uuid::Uuid::nil(), name: s("b1.7.3"), page_url: s(""), description: s("") },
        McArchiveModVersion { files: vec![], uuid: uuid::Uuid::nil(), name: s("b1.6.6"), page_url: s(""), description: s("") },
    ];
    assert_eq!(select_mod_version(&versions, &None), Some(0));
    assert_eq!(select_mod_version(&versions, &Some(s("b1.6.6"))), Some(1));
    assert_eq!(select_mod_version(&versions, &Some(s("1.0"))), None);
    assert_eq!(
        modloader_archive_url(&versions[0].files[0]),
        "http://b2.mcarchive.net/file/mcarchive/abc123/ModLoader%20b1.7.3.zip"
    );
    assert_eq!(modloader_archive_url(&mod_file(Some("https://x/y.zip"), "n")), "https://x/y.zip");
    assert_eq!(modloader_archive_url(&mod_file(None, "é~_")), "http://b2.mcarchive.net/file/mcarchive/abc123/%C3%A9~_");
    assert_eq!(risugami_dir_name(&versions[0]), "risugami-b1.7.3");
    assert_eq!(risugami_main_class(), "org.mcphackers.launchwrapper.Launch");
    assert_eq!(Risugami::game_versions(), "https://mcarchive.net/api/v1/mods/by_slug/modloader");
    assert_eq!(Risugami::id(), "risugami");
    assert!(Risugami::default().ver_dir.is_none());
}
