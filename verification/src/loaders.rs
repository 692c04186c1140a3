//! The endpoints of the Fabric-like loaders.
use vstd::prelude::*;

use crate::version::{FabricBase, FabricLike};

verus! {

/// Fabric's metadata endpoints and Maven repository.
pub fn fabric() -> (l: FabricLike<'static>)
    ensures
        l.game_versions@ == "https://meta.fabricmc.net/v2/versions/game"@,
        l.loader_versions@ == "https://meta.fabricmc.net/v2/versions/loader"@,
        l.intermediary_versions@ == "https://meta.fabricmc.net/v2/versions/intermediary"@,
        l.maven@ == "https://maven.fabricmc.net/"@,
        l.id@ == "fabric"@,
{
    FabricLike {
        game_versions: "https://meta.fabricmc.net/v2/versions/game",
        loader_versions: "https://meta.fabricmc.net/v2/versions/loader",
        intermediary_versions: "https://meta.fabricmc.net/v2/versions/intermediary",
        maven: "https://maven.fabricmc.net/",
        id: "fabric",
    }
}

/// Quilt's metadata endpoints and Maven repository.
pub fn quilt() -> (l: FabricLike<'static>)
    ensures
        l.game_versions@ == "https://meta.quiltmc.org/v3/versions/game"@,
        l.loader_versions@ == "https://meta.quiltmc.org/v3/versions/loader"@,
        l.intermediary_versions@ == "https://meta.quiltmc.org/v3/versions/intermediary"@,
        l.maven@ == "https://maven.quiltmc.org/"@,
        l.id@ == "quilt"@,
{
    FabricLike {
        game_versions: "https://meta.quiltmc.org/v3/versions/game",
        loader_versions: "https://meta.quiltmc.org/v3/versions/loader",
        intermediary_versions: "https://meta.quiltmc.org/v3/versions/intermediary",
        maven: "https://maven.quiltmc.org/",
        id: "quilt",
    }
}

/// Legacy Fabric's metadata endpoints and Maven repository.
pub fn labric() -> (l: FabricLike<'static>)
    ensures
        l.game_versions@ == "https://meta.legacyfabric.net/v2/versions/game"@,
        l.loader_versions@ == "https://meta.legacyfabric.net/v2/versions/loader"@,
        l.intermediary_versions@ == "https://meta.legacyfabric.net/v2/versions/intermediary"@,
        l.maven@ == "https://repo.legacyfabric.net/legacyfabric/"@,
        l.id@ == "labric"@,
{
    FabricLike {
        game_versions: "https://meta.legacyfabric.net/v2/versions/game",
        loader_versions: "https://meta.legacyfabric.net/v2/versions/loader",
        intermediary_versions: "https://meta.legacyfabric.net/v2/versions/intermediary",
        maven: "https://repo.legacyfabric.net/legacyfabric/",
        id: "labric",
    }
}

/// Babric's metadata endpoints and Maven repository.
pub fn babric() -> (l: FabricLike<'static>)
    ensures
        l.game_versions@ == "https://meta.babric.glass-launcher.net/v2/versions/game"@,
        l.loader_versions@ == "https://meta.babric.glass-launcher.net/v2/versions/loader"@,
        l.intermediary_versions@ == "https://meta.babric.glass-launcher.net/v2/versions/intermediary"@,
        l.maven@ == "https://maven.glass-launcher.net/babric/"@,
        l.id@ == "babric"@,
{
    FabricLike {
        game_versions: "https://meta.babric.glass-launcher.net/v2/versions/game",
        loader_versions: "https://meta.babric.glass-launcher.net/v2/versions/loader",
        intermediary_versions: "https://meta.babric.glass-launcher.net/v2/versions/intermediary",
        maven: "https://maven.glass-launcher.net/babric/",
        id: "babric",
    }
}

/// Ornithe's metadata endpoints and Maven repository.
pub fn ornithe() -> (l: FabricLike<'static>)
    ensures
        l.game_versions@ == "https://meta.ornithemc.net/v3/versions/gen2/game"@,
        l.loader_versions@ == "https://meta.ornithemc.net/v3/versions/gen2/fabric-loader"@,
        l.intermediary_versions@ == "https://meta.ornithemc.net/v3/versions/gen2/intermediary"@,
        l.maven@ == "https://maven.ornithemc.net/"@,
        l.id@ == "ornithe"@,
{
    FabricLike {
        game_versions: "https://meta.ornithemc.net/v3/versions/gen2/game",
        loader_versions: "https://meta.ornithemc.net/v3/versions/gen2/fabric-loader",
        intermediary_versions: "https://meta.ornithemc.net/v3/versions/gen2/intermediary",
        maven: "https://maven.ornithemc.net/",
        id: "ornithe",
    }
}

/// The identifier of the loader a base stands for.
pub open spec fn base_id(base: FabricBase) -> Seq<char> {
    match base {
        FabricBase::Quilt(_) => "quilt"@,
        FabricBase::Fabric => "fabric"@,
        FabricBase::Labric => "labric"@,
        FabricBase::Babric => "babric"@,
        FabricBase::Ornithe => "ornithe"@,
    }
}

/// The Maven repository of the loader a base stands for.
pub open spec fn base_maven(base: FabricBase) -> Seq<char> {
    match base {
        FabricBase::Quilt(_) => "https://maven.quiltmc.org/"@,
        FabricBase::Fabric => "https://maven.fabricmc.net/"@,
        FabricBase::Labric => "https://repo.legacyfabric.net/legacyfabric/"@,
        FabricBase::Babric => "https://maven.glass-launcher.net/babric/"@,
        FabricBase::Ornithe => "https://maven.ornithemc.net/"@,
    }
}

/// The game versions endpoint of the loader a base stands for.
pub open spec fn base_game_versions(base: FabricBase) -> Seq<char> {
    match base {
        FabricBase::Quilt(_) => "https://meta.quiltmc.org/v3/versions/game"@,
        FabricBase::Fabric => "https://meta.fabricmc.net/v2/versions/game"@,
        FabricBase::Labric => "https://meta.legacyfabric.net/v2/versions/game"@,
        FabricBase::Babric => "https://meta.babric.glass-launcher.net/v2/versions/game"@,
        FabricBase::Ornithe => "https://meta.ornithemc.net/v3/versions/gen2/game"@,
    }
}

/// The loader versions endpoint of the loader a base stands for.
pub open spec fn base_loader_versions(base: FabricBase) -> Seq<char> {
    match base {
        FabricBase::Quilt(_) => "https://meta.quiltmc.org/v3/versions/loader"@,
        FabricBase::Fabric => "https://meta.fabricmc.net/v2/versions/loader"@,
        FabricBase::Labric => "https://meta.legacyfabric.net/v2/versions/loader"@,
        FabricBase::Babric => "https://meta.babric.glass-launcher.net/v2/versions/loader"@,
        FabricBase::Ornithe => "https://meta.ornithemc.net/v3/versions/gen2/fabric-loader"@,
    }
}

/// The intermediary versions endpoint of the loader a base stands for.
pub open spec fn base_intermediary_versions(base: FabricBase) -> Seq<char> {
    match base {
        FabricBase::Quilt(_) => "https://meta.quiltmc.org/v3/versions/intermediary"@,
        FabricBase::Fabric => "https://meta.fabricmc.net/v2/versions/intermediary"@,
        FabricBase::Labric => "https://meta.legacyfabric.net/v2/versions/intermediary"@,
        FabricBase::Babric => "https://meta.babric.glass-launcher.net/v2/versions/intermediary"@,
        FabricBase::Ornithe => "https://meta.ornithemc.net/v3/versions/gen2/intermediary"@,
    }
}

/// The endpoints of the loader that `base` stands for.
pub fn loader_for(base: &FabricBase) -> (l: FabricLike<'static>)
    ensures
        l.id@ == base_id(*base),
        l.maven@ == base_maven(*base),
        l.game_versions@ == base_game_versions(*base),
        l.loader_versions@ == base_loader_versions(*base),
        l.intermediary_versions@ == base_intermediary_versions(*base),
{
    match base {
        FabricBase::Quilt(_) => quilt(),
        FabricBase::Fabric => fabric(),
        FabricBase::Labric => labric(),
        FabricBase::Babric => babric(),
        FabricBase::Ornithe => ornithe(),
    }
}

} // verus!
