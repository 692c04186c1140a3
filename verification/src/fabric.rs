//! Installing and launching Fabric-like loaders: which versions, which
//! files, and which command.
pub mod schema;

use vstd::prelude::*;

use crate::fabric::schema::{
    loader_file_stem, FabricIntermediaryVersion, FabricLib, FabricLoaderVersion, FabricVersion,
};
use crate::loaders::{base_id, base_maven, fabric, loader_for};
use crate::outside::{is_v4_uuid_text, new_v4_uuid_text};
use crate::text::{
    copy_str, first_index_of, join_seq, lemma_first_index_of, lemma_first_index_of_by_prefix,
    replace_seq, replace_str, str_eq, views,
};
use crate::util::{archive_paths, class_path, class_path_separator, PathEntry};
use crate::version::{is_maven_coords, maven_path_seq, maven_to_path, FabricBase};

verus! {

/// The Minecraft version strings of a version list.
pub open spec fn version_names(vs: Seq<FabricVersion>) -> Seq<Seq<char>> {
    vs.map_values(|v: FabricVersion| v.version@)
}

/// The version `get_ver` picks: the first with the requested name; when
/// there is none, the last one scanned; an empty name when the list is empty.
pub open spec fn picked_version(vs: Seq<FabricVersion>, name: Seq<char>) -> Seq<char> {
    match first_index_of(version_names(vs), name) {
        Some(i) => vs[i].version@,
        None => if vs.len() > 0 {
            vs.last().version@
        } else {
            Seq::empty()
        },
    }
}

/// The version named `version`; if no version has that name, the last one
/// of the list (an empty version for an empty list).
pub fn get_ver(versions: Vec<FabricVersion>, version: String) -> (v: FabricVersion)
    ensures
        v.version@ == picked_version(versions@, version@),
{
    proof {
        lemma_first_index_of(version_names(versions@), version@);
    }
    let mut i: usize = 0;
    while i < versions.len()
        invariant
            i <= versions.len(),
            forall|j: int| 0 <= j < i ==> version_names(versions@)[j] != version@,
        decreases versions.len() - i,
    {
        if str_eq(versions[i].version.as_str(), version.as_str()) {
            proof {
                lemma_first_index_of_by_prefix(version_names(versions@), version@, i as int);
            }
            return FabricVersion { version: versions[i].version.clone() };
        }
        i += 1;
    }
    proof {
        lemma_first_index_of_by_prefix(version_names(versions@), version@, i as int);
    }
    if versions.len() > 0 {
        FabricVersion { version: versions[versions.len() - 1].version.clone() }
    } else {
        FabricVersion { version: String::new() }
    }
}

/// The Minecraft version an install uses: the requested one (picked as by
/// `get_ver`), or else the first of the list; none when nothing was
/// requested and the list is empty.
pub fn select_game_version(versions: Vec<FabricVersion>, requested: Option<String>) -> (r: Option<
    FabricVersion,
>)
    ensures
        match requested {
            Some(name) => r matches Some(v) && v.version@ == picked_version(versions@, name@),
            None => if versions@.len() > 0 {
                r matches Some(v) && v.version@ == versions@[0].version@
            } else {
                r is None
            },
        },
{
    match requested {
        Some(name) => Some(get_ver(versions, name)),
        None => if versions.len() > 0 {
            Some(FabricVersion { version: versions[0].version.clone() })
        } else {
            None
        },
    }
}

/// The loader build names of a list of builds.
pub open spec fn loader_names(ls: Seq<FabricLoaderVersion>) -> Seq<Seq<char>> {
    ls.map_values(|l: FabricLoaderVersion| l.version@)
}

/// The loader build an install uses: the one with the requested version,
/// or else the first of the list.
pub fn select_loader_version(loaders: &Vec<FabricLoaderVersion>, requested: &Option<String>) -> (r:
    Option<usize>)
    ensures
        match requested {
            Some(name) => match first_index_of(loader_names(loaders@), name@) {
                Some(i) => r matches Some(k) && k == i,
                None => r is None,
            },
            None => if loaders@.len() > 0 {
                r == Some(0usize)
            } else {
                r is None
            },
        },
{
    match requested {
        Some(name) => {
            proof {
                lemma_first_index_of(loader_names(loaders@), name@);
            }
            let mut i: usize = 0;
            while i < loaders.len()
                invariant
                    i <= loaders.len(),
                    *requested == Some(*name),
                    forall|j: int| 0 <= j < i ==> loader_names(loaders@)[j] != name@,
                decreases loaders.len() - i,
            {
                if str_eq(loaders[i].version.as_str(), name.as_str()) {
                    proof {
                        lemma_first_index_of_by_prefix(loader_names(loaders@), name@, i as int);
                    }
                    return Some(i);
                }
                i += 1;
            }
            proof {
                lemma_first_index_of_by_prefix(loader_names(loaders@), name@, i as int);
            }
            None
        },
        None => if loaders.len() > 0 {
            Some(0)
        } else {
            None
        },
    }
}

/// The Minecraft versions of a list of intermediary builds.
pub open spec fn intermediary_names(is: Seq<FabricIntermediaryVersion>) -> Seq<Seq<char>> {
    is.map_values(|i: FabricIntermediaryVersion| i.version@)
}

/// The intermediary build for a Minecraft version: the first one for it, or
/// an empty build when there is none.
pub fn find_intermediary(intermediaries: &Vec<FabricIntermediaryVersion>, version: &FabricVersion) -> (r:
    FabricIntermediaryVersion)
    ensures
        match first_index_of(intermediary_names(intermediaries@), version.version@) {
            Some(i) => r.maven@ == intermediaries@[i].maven@ && r.version@
                == intermediaries@[i].version@,
            None => r.maven@ == Seq::<char>::empty() && r.version@ == Seq::<char>::empty(),
        },
{
    proof {
        lemma_first_index_of(intermediary_names(intermediaries@), version.version@);
    }
    let mut i: usize = 0;
    while i < intermediaries.len()
        invariant
            i <= intermediaries.len(),
            forall|j: int|
                0 <= j < i ==> intermediary_names(intermediaries@)[j] != version.version@,
        decreases intermediaries.len() - i,
    {
        if str_eq(intermediaries[i].version.as_str(), version.version.as_str()) {
            proof {
                lemma_first_index_of_by_prefix(
                    intermediary_names(intermediaries@),
                    version.version@,
                    i as int,
                );
            }
            return FabricIntermediaryVersion {
                maven: intermediaries[i].maven.clone(),
                version: intermediaries[i].version.clone(),
            };
        }
        i += 1;
    }
    proof {
        lemma_first_index_of_by_prefix(
            intermediary_names(intermediaries@),
            version.version@,
            i as int,
        );
    }
    FabricIntermediaryVersion { maven: String::new(), version: String::new() }
}

/// The repository directory that intermediary jars are published under.
pub open spec fn intermediary_release_dir_seq(base: FabricBase) -> Seq<char> {
    match base {
        FabricBase::Quilt(release) => if release {
            "repository/release/"@
        } else {
            "repository/snapshot/"@
        },
        FabricBase::Fabric | FabricBase::Labric => ""@,
        FabricBase::Babric | FabricBase::Ornithe => "releases/"@,
    }
}

/// The repository directory that intermediary jars are published under.
pub fn intermediary_release_dir(base: &FabricBase) -> (s: &'static str)
    ensures
        s@ == intermediary_release_dir_seq(*base),
{
    match base {
        FabricBase::Quilt(release) => if *release {
            "repository/release/"
        } else {
            "repository/snapshot/"
        },
        FabricBase::Fabric | FabricBase::Labric => "",
        FabricBase::Babric | FabricBase::Ornithe => "releases/",
    }
}

/// The repository directory that loader jars and profiles are published
/// under.
pub open spec fn loader_release_dir_seq(base: FabricBase) -> Seq<char> {
    match base {
        FabricBase::Quilt(release) => if release {
            "repository/release/"@
        } else {
            "repository/snapshot/"@
        },
        _ => ""@,
    }
}

/// The repository directory that loader jars and profiles are published
/// under.
pub fn loader_release_dir(base: &FabricBase) -> (s: &'static str)
    ensures
        s@ == loader_release_dir_seq(*base),
{
    match base {
        FabricBase::Quilt(release) => if *release {
            "repository/release/"
        } else {
            "repository/snapshot/"
        },
        _ => "",
    }
}

/// The URL of the intermediary jar for a base's loader.
pub open spec fn intermediary_url_seq(base: FabricBase, maven: Seq<char>) -> Seq<char> {
    base_maven(base) + intermediary_release_dir_seq(base) + maven_path_seq(maven)
}

/// The URL of an intermediary build's jar.
pub fn intermediary_url(base: &FabricBase, intermediary: &FabricIntermediaryVersion) -> (url: String)
    requires
        is_maven_coords(intermediary.maven@),
    ensures
        url@ == intermediary_url_seq(*base, intermediary.maven@),
{
    let loader = loader_for(base);
    let mut url = copy_str(loader.maven);
    url.append(intermediary_release_dir(base));
    let path = maven_to_path(intermediary.maven.clone());
    url.append(path.as_str());
    url
}

/// The repository loader builds are fetched from: Fabric's for the loaders
/// that publish Fabric's builds, else the loader's own.
pub open spec fn loader_artifact_maven_seq(base: FabricBase) -> Seq<char> {
    match base {
        FabricBase::Labric | FabricBase::Babric | FabricBase::Ornithe => base_maven(
            FabricBase::Fabric,
        ),
        _ => base_maven(base),
    }
}

/// The URL of a loader build's jar (`ext` = `.jar`) or profile (`.json`).
pub open spec fn loader_file_url_seq(base: FabricBase, l: FabricLoaderVersion, ext: Seq<char>) -> Seq<
    char,
> {
    loader_artifact_maven_seq(base) + loader_release_dir_seq(base) + loader_file_stem(l, base_id(base))
        + ext
}

fn loader_artifact_maven(base: &FabricBase) -> (s: &'static str)
    ensures
        s@ == loader_artifact_maven_seq(*base),
{
    match base {
        FabricBase::Labric | FabricBase::Babric | FabricBase::Ornithe => fabric().maven,
        _ => loader_for(base).maven,
    }
}

/// The URL of a loader build's jar.
pub fn loader_jar_url(base: &FabricBase, loader: &FabricLoaderVersion) -> (url: String)
    ensures
        url@ == loader_file_url_seq(*base, *loader, ".jar"@),
{
    let mut url = copy_str(loader_artifact_maven(base));
    url.append(loader_release_dir(base));
    let path = loader.jar_path(copy_str(loader_for(base).id));
    url.append(path.as_str());
    url
}

/// The URL of a loader build's JSON profile.
pub fn loader_json_url(base: &FabricBase, loader: &FabricLoaderVersion) -> (url: String)
    ensures
        url@ == loader_file_url_seq(*base, *loader, ".json"@),
{
    let mut url = copy_str(loader_artifact_maven(base));
    url.append(loader_release_dir(base));
    let path = loader.json_path(copy_str(loader_for(base).id));
    url.append(path.as_str());
    url
}

/// The URL of a profile library: its repository followed by the path its
/// coordinates name.
pub fn library_url(lib: &FabricLib) -> (url: String)
    requires
        is_maven_coords(lib.name@),
    ensures
        url@ == lib.url@ + maven_path_seq(lib.name@),
{
    let mut url = lib.url.clone();
    let path = maven_to_path(lib.name.clone());
    url.append(path.as_str());
    url
}

/// The name of the version directory of an install: `id-version`.
pub fn version_dir_name(base: &FabricBase, version: &FabricVersion) -> (name: String)
    ensures
        name@ == base_id(*base) + "-"@ + version.version@,
{
    let mut name = copy_str(loader_for(base).id);
    name.append("-");
    name.append(version.version.as_str());
    name
}

/// Where a launch finds its files: the libraries found under the version
/// directory, the three jars, the game and assets directories, and the
/// version directory's name.
pub struct FabricLaunchPaths {
    pub libs: Vec<PathEntry>,
    pub intermediary_jar: String,
    pub client_jar: String,
    pub loader_jar: String,
    pub game_dir: String,
    pub assets_dir: String,
    pub version_dir_name: String,
    pub windows: bool,
    pub macos: bool,
}

/// The asset index named after the version directory, without its loader
/// prefix.
pub open spec fn fabric_asset_index_seq(dir_name: Seq<char>) -> Seq<char> {
    replace_seq(replace_seq(dir_name, "fabric-"@, ""@), "quilt-"@, ""@)
}

/// The class path of a launch: the archives among the libraries, then the
/// intermediary, client and loader jars.
pub open spec fn fabric_class_path_seq(p: FabricLaunchPaths) -> Seq<char> {
    join_seq(
        archive_paths(p.libs@) + seq![p.intermediary_jar@, p.client_jar@, p.loader_jar@],
        class_path_separator(p.windows),
    )
}

/// The Java arguments of a launch, given the UUID it uses.
pub open spec fn fabric_launch_args_seq(
    p: FabricLaunchPaths,
    main_class: Seq<char>,
    username: Seq<char>,
    uuid: Seq<char>,
) -> Seq<Seq<char>> {
    (if p.macos {
        seq!["-XstartOnFirstThread"@]
    } else {
        Seq::empty()
    }) + seq![
        "-cp"@,
        fabric_class_path_seq(p),
        main_class,
        "--gameDir"@,
        p.game_dir@,
        "--assetsDir"@,
        p.assets_dir@,
        "--assetIndex"@,
        fabric_asset_index_seq(p.version_dir_name@),
        "--uuid"@,
        uuid,
        "--username"@,
        username,
    ]
}

/// The Java arguments of a launch with the given UUID.
pub fn fabric_launch_args(p: &FabricLaunchPaths, main_class: &str, username: &str, uuid: &str) -> (args:
    Vec<String>)
    ensures
        views(args@) == fabric_launch_args_seq(*p, main_class@, username@, uuid@),
{
    let mut extra: Vec<String> = Vec::new();
    extra.push(copy_str(p.intermediary_jar.as_str()));
    extra.push(copy_str(p.client_jar.as_str()));
    extra.push(copy_str(p.loader_jar.as_str()));
    assert(views(extra@) =~= seq![p.intermediary_jar@, p.client_jar@, p.loader_jar@]);
    let cp = class_path(&p.libs, &extra, p.windows);
    let without_fabric = replace_str(p.version_dir_name.as_str(), "fabric-", "");
    let asset_index = replace_str(without_fabric.as_str(), "quilt-", "");
    let mut args: Vec<String> = Vec::new();
    if p.macos {
        args.push(copy_str("-XstartOnFirstThread"));
    }
    let ghost head = views(args@);
    args.push(copy_str("-cp"));
    args.push(cp);
    args.push(copy_str(main_class));
    args.push(copy_str("--gameDir"));
    args.push(copy_str(p.game_dir.as_str()));
    args.push(copy_str("--assetsDir"));
    args.push(copy_str(p.assets_dir.as_str()));
    args.push(copy_str("--assetIndex"));
    args.push(asset_index);
    args.push(copy_str("--uuid"));
    args.push(copy_str(uuid));
    args.push(copy_str("--username"));
    args.push(copy_str(username));
    assert(views(args@) =~= fabric_launch_args_seq(*p, main_class@, username@, uuid@));
    args
}

/// The Java arguments of a launch, with a freshly drawn UUID: whichever
/// UUID came back, the arguments are those of `fabric_launch_args` for it.
pub fn fabric_launch_command(p: &FabricLaunchPaths, main_class: &str, username: &str) -> (args: Vec<
    String,
>)
    ensures
        exists|u: Seq<char>|
            is_v4_uuid_text(u) && views(args@) == fabric_launch_args_seq(
                *p,
                main_class@,
                username@,
                u,
            ),
{
    let uuid = new_v4_uuid_text();
    fabric_launch_args(p, main_class, username, uuid.as_str())
}

/// When a version with the requested name is listed, `get_ver` returns a
/// version of that name.
pub proof fn law_get_ver_finds_listed(versions: Seq<FabricVersion>, name: Seq<char>)
    requires
        exists|i: int| 0 <= i < versions.len() && #[trigger] versions[i].version@ == name,
    ensures
        picked_version(versions, name) == name,
{
    lemma_first_index_of(version_names(versions), name);
    let i = choose|i: int| 0 <= i < versions.len() && #[trigger] versions[i].version@ == name;
    assert(version_names(versions)[i] == name);
}

/// Legacy Fabric, Babric and Ornithe fetch the very loader jar and profile
/// that Fabric does.
pub proof fn law_legacy_loaders_use_fabric_builds(l: FabricLoaderVersion, ext: Seq<char>)
    ensures
        loader_file_url_seq(FabricBase::Labric, l, ext) == loader_file_url_seq(FabricBase::Fabric, l, ext),
        loader_file_url_seq(FabricBase::Babric, l, ext) == loader_file_url_seq(FabricBase::Fabric, l, ext),
        loader_file_url_seq(FabricBase::Ornithe, l, ext) == loader_file_url_seq(FabricBase::Fabric, l, ext),
{
    reveal_strlit("fabric");
    reveal_strlit("labric");
    reveal_strlit("babric");
    reveal_strlit("ornithe");
    reveal_strlit("/");
    reveal_strlit("-loader-");
    reveal_strlit("/fabric-loader-");
    let d = crate::fabric::schema::loader_dir_seq(l);
    assert("fabric"@[0] != "labric"@[0]);
    assert("fabric"@[0] != "babric"@[0]);
    assert("fabric"@[0] != "ornithe"@[0]);
    assert(!crate::fabric::schema::uses_fabric_artifacts("fabric"@));
    assert(d + "/"@ + "fabric"@ + "-loader-"@ + l.version@ =~= d + "/fabric-loader-"@ + l.version@);
}

/// Each loader's intermediary jar is fetched from the loader's own
/// repository followed by the Maven path of the intermediary's coordinates:
/// directly for Fabric and Legacy Fabric, under `releases/` for Babric and
/// Ornithe, and under `repository/release/` or `repository/snapshot/` for
/// Quilt.
pub proof fn law_intermediary_urls(maven: Seq<char>)
    ensures
        intermediary_url_seq(FabricBase::Fabric, maven) == "https://maven.fabricmc.net/"@
            + maven_path_seq(maven),
        intermediary_url_seq(FabricBase::Labric, maven)
            == "https://repo.legacyfabric.net/legacyfabric/"@ + maven_path_seq(maven),
        intermediary_url_seq(FabricBase::Babric, maven)
            == "https://maven.glass-launcher.net/babric/releases/"@ + maven_path_seq(maven),
        intermediary_url_seq(FabricBase::Ornithe, maven) == "https://maven.ornithemc.net/releases/"@
            + maven_path_seq(maven),
        intermediary_url_seq(FabricBase::Quilt(true), maven)
            == "https://maven.quiltmc.org/repository/release/"@ + maven_path_seq(maven),
        intermediary_url_seq(FabricBase::Quilt(false), maven)
            == "https://maven.quiltmc.org/repository/snapshot/"@ + maven_path_seq(maven),
{
    reveal_strlit("");
    reveal_strlit("releases/");
    reveal_strlit("repository/release/");
    reveal_strlit("repository/snapshot/");
    reveal_strlit("https://maven.fabricmc.net/");
    reveal_strlit("https://repo.legacyfabric.net/legacyfabric/");
    reveal_strlit("https://maven.glass-launcher.net/babric/");
    reveal_strlit("https://maven.glass-launcher.net/babric/releases/");
    reveal_strlit("https://maven.ornithemc.net/");
    reveal_strlit("https://maven.ornithemc.net/releases/");
    reveal_strlit("https://maven.quiltmc.org/");
    reveal_strlit("https://maven.quiltmc.org/repository/release/");
    reveal_strlit("https://maven.quiltmc.org/repository/snapshot/");
    let path = maven_path_seq(maven);
    assert("https://maven.fabricmc.net/"@ + ""@ =~= "https://maven.fabricmc.net/"@);
    assert("https://repo.legacyfabric.net/legacyfabric/"@ + ""@
        =~= "https://repo.legacyfabric.net/legacyfabric/"@);
    assert("https://maven.glass-launcher.net/babric/"@ + "releases/"@
        =~= "https://maven.glass-launcher.net/babric/releases/"@);
    assert("https://maven.ornithemc.net/"@ + "releases/"@ =~= "https://maven.ornithemc.net/releases/"@);
    assert("https://maven.quiltmc.org/"@ + "repository/release/"@
        =~= "https://maven.quiltmc.org/repository/release/"@);
    assert("https://maven.quiltmc.org/"@ + "repository/snapshot/"@
        =~= "https://maven.quiltmc.org/repository/snapshot/"@);
}

/// Fabric's and Quilt's loader jars and profiles are fetched from the
/// loader's own repository (Quilt's under its release or snapshot
/// directory), at the loader build's path for the loader's id.
pub proof fn law_loader_file_urls(l: FabricLoaderVersion, ext: Seq<char>)
    ensures
        loader_file_url_seq(FabricBase::Fabric, l, ext) == "https://maven.fabricmc.net/"@
            + loader_file_stem(l, "fabric"@) + ext,
        loader_file_url_seq(FabricBase::Quilt(true), l, ext)
            == "https://maven.quiltmc.org/repository/release/"@ + loader_file_stem(l, "quilt"@) + ext,
        loader_file_url_seq(FabricBase::Quilt(false), l, ext)
            == "https://maven.quiltmc.org/repository/snapshot/"@ + loader_file_stem(l, "quilt"@) + ext,
{
    reveal_strlit("");
    reveal_strlit("repository/release/");
    reveal_strlit("repository/snapshot/");
    reveal_strlit("https://maven.fabricmc.net/");
    reveal_strlit("https://maven.quiltmc.org/");
    reveal_strlit("https://maven.quiltmc.org/repository/release/");
    reveal_strlit("https://maven.quiltmc.org/repository/snapshot/");
    assert("https://maven.fabricmc.net/"@ + ""@ =~= "https://maven.fabricmc.net/"@);
    assert("https://maven.quiltmc.org/"@ + "repository/release/"@
        =~= "https://maven.quiltmc.org/repository/release/"@);
    assert("https://maven.quiltmc.org/"@ + "repository/snapshot/"@
        =~= "https://maven.quiltmc.org/repository/snapshot/"@);
}

/// In a Fabric-like launch, after the macOS thread flag when on macOS, the
/// class path follows `-cp`, then comes the main class; the game directory
/// follows `--gameDir`, the assets directory `--assetsDir`, the asset index
/// `--assetIndex`, the UUID `--uuid` and the player name `--username`, which
/// ends the arguments.
pub proof fn law_fabric_launch_flags(
    p: FabricLaunchPaths,
    main_class: Seq<char>,
    username: Seq<char>,
    uuid: Seq<char>,
)
    ensures
        ({
            let a = fabric_launch_args_seq(p, main_class, username, uuid);
            let o: int = if p.macos {
                1
            } else {
                0
            };
            &&& a.len() == o + 13
            &&& p.macos ==> a[0] == "-XstartOnFirstThread"@
            &&& a[o] == "-cp"@ && a[o + 1] == fabric_class_path_seq(p) && a[o + 2] == main_class
            &&& a[o + 3] == "--gameDir"@ && a[o + 4] == p.game_dir@
            &&& a[o + 5] == "--assetsDir"@ && a[o + 6] == p.assets_dir@
            &&& a[o + 7] == "--assetIndex"@ && a[o + 8] == fabric_asset_index_seq(p.version_dir_name@)
            &&& a[o + 9] == "--uuid"@ && a[o + 10] == uuid
            &&& a[o + 11] == "--username"@ && a[o + 12] == username
        }),
{
}

} // verus!
