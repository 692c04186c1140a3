//! Shared metadata types of the loaders, and Maven coordinates.
use vstd::prelude::*;

use crate::string_map::StringMap;
use crate::text::{join_seq, replace_seq, split_seq, views, replace_str, split_char};

verus! {

/// The metadata endpoints and Maven repository of a Fabric-like loader.
#[derive(Clone, Copy)]
pub struct FabricLike<'a> {
    pub game_versions: &'a str,
    pub loader_versions: &'a str,
    pub intermediary_versions: &'a str,
    pub maven: &'a str,
    pub id: &'a str,
}

/// A version of a mod on mcarchive.net.
pub struct McArchiveModVersion {
    pub files: Vec<McArchiveModFile>,
    pub uuid: uuid::Uuid,
    pub name: String,
    pub page_url: String,
    pub description: String,
}

/// A file of a mod version on mcarchive.net.
pub struct McArchiveModFile {
    pub uuid: uuid::Uuid,
    pub sha256: String,
    pub name: String,
    pub description: String,
    pub page_url: String,
    pub redirect_url: String,
    pub archive_url: Option<String>,
}

/// A mod on mcarchive.net with its versions.
pub struct McArchiveMod {
    pub mod_versions: Vec<McArchiveModVersion>,
}

/// The pieces of Maven coordinates `group:artifact:version`.
pub open spec fn maven_parts(coords: Seq<char>) -> Seq<Seq<char>> {
    split_seq(coords, seq![':'])
}

/// Coordinates of the form `group:artifact:version`: exactly three pieces.
pub open spec fn is_maven_coords(coords: Seq<char>) -> bool {
    maven_parts(coords).len() == 3
}

/// The repository path of the jar that Maven coordinates name:
/// `group/with/slashes/artifact/version/artifact-version.jar`.
pub open spec fn maven_path_seq(coords: Seq<char>) -> Seq<char> {
    let p = maven_parts(coords);
    replace_seq(p[0], seq!['.'], seq!['/']) + seq!['/'] + p[1] + seq!['/'] + p[2] + seq!['/']
        + p[1] + seq!['-'] + p[2] + ".jar"@
}

/// The path of the jar for Maven coordinates `group:artifact:version`.
/// Coordinates with another number of `:`-separated pieces are refused by
/// the precondition.
pub fn maven_to_path(coords: String) -> (path: String)
    requires
        is_maven_coords(coords@),
    ensures
        path@ == maven_path_seq(coords@),
{
    let parts = split_char(coords.as_str(), ':');
    assert(views(parts@) == maven_parts(coords@));
    assert(parts@[0]@ == maven_parts(coords@)[0]);
    assert(parts@[1]@ == maven_parts(coords@)[1]);
    assert(parts@[2]@ == maven_parts(coords@)[2]);
    let group_path = replace_str(parts[0].as_str(), ".", "/");
    proof {
        assert(".".view() =~= seq!['.']) by {
            reveal_strlit(".");
        }
        assert("/".view() =~= seq!['/']) by {
            reveal_strlit("/");
        }
    }
    let mut path = group_path;
    path.append("/");
    path.append(parts[1].as_str());
    path.append("/");
    path.append(parts[2].as_str());
    path.append("/");
    path.append(parts[1].as_str());
    path.append("-");
    path.append(parts[2].as_str());
    path.append(".jar");
    proof {
        reveal_strlit("-");
        assert("-".view() =~= seq!['-']);
    }
    path
}

/// Which Fabric-like loader a launch uses; `Quilt` carries whether the
/// release repository is used.
#[derive(Clone)]
pub enum FabricBase {
    Quilt(bool),
    Fabric,
    Labric,
    Babric,
    Ornithe,
}

/// Metadata of the LiteLoader versions document.
#[allow(non_snake_case)]
pub struct LiteLoaderMeta {
    pub description: String,
    pub authors: String,
    pub url: String,
    pub updated: String,
    pub updatedTime: u64,
}

/// The repository of a LiteLoader version.
pub struct LiteLoaderRepo {
    pub stream: String,
    pub kind: String,
    pub url: String,
    pub classifier: String,
}

/// A LiteLoader snapshot build.
#[allow(non_snake_case)]
pub struct LiteLoaderTweaks {
    pub tweakClass: String,
    pub libraries: Vec<LiteLoaderLibrary>,
    pub stream: String,
    pub file: String,
    pub version: String,
    pub build: String,
    pub md5: String,
    pub timestamp: String,
    pub lastSuccessfulBuild: i32,
}

/// A library that LiteLoader needs, by Maven coordinates.
pub struct LiteLoaderLibrary {
    pub name: String,
    pub url: Option<String>,
}

impl Clone for LiteLoaderLibrary {
    fn clone(&self) -> (c: Self)
        ensures
            c.name@ == self.name@,
            c.url.is_some() == self.url.is_some(),
            c.url matches Some(u) ==> u@ == self.url.unwrap()@,
    {
        LiteLoaderLibrary {
            name: self.name.clone(),
            url: match &self.url {
                Some(u) => Some(u.clone()),
                None => None,
            },
        }
    }
}

/// The snapshot builds of a LiteLoader version.
pub struct LiteLoaderSnapshots {
    pub libraries: Vec<LiteLoaderLibrary>,
    pub liteloader: StringMap<LiteLoaderTweaks>,
}

/// A LiteLoader version for one Minecraft version.
pub struct LiteLoaderVersion {
    pub repo: LiteLoaderRepo,
    pub snapshots: Option<LiteLoaderSnapshots>,
    pub artefacts: Option<LiteLoaderArtifact>,
}

/// A LiteLoader release build.
#[allow(non_snake_case)]
pub struct LiteLoaderArtifacts {
    pub tweakClass: String,
    pub libraries: Vec<LiteLoaderLibrary>,
    pub stream: String,
    pub file: String,
    pub version: String,
    pub md5: String,
    pub timestamp: String,
}

/// The release builds of a LiteLoader version.
pub struct LiteLoaderArtifact {
    pub liteloader: StringMap<LiteLoaderArtifacts>,
}

/// The LiteLoader versions document, keyed by Minecraft version.
pub struct LiteLoaderVersions {
    pub meta: LiteLoaderMeta,
    pub versions: StringMap<LiteLoaderVersion>,
}

/// The `versioning` element of a Maven snapshot metadata document.
#[allow(non_snake_case)]
pub struct MavenMetadataVersioning {
    pub snapshot: MavenMetadataSnapshot,
    pub lastUpdated: String,
}

/// The latest snapshot build named in Maven metadata.
#[allow(non_snake_case)]
pub struct MavenMetadataSnapshot {
    pub timestamp: String,
    pub buildNumber: i32,
}

/// A Maven snapshot metadata document.
#[allow(non_snake_case)]
pub struct MavenMetadataRoot {
    pub groupId: String,
    pub artifactId: String,
    pub version: String,
    pub versioning: MavenMetadataVersioning,
}

} // verus!
