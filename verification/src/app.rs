//! The command line of the launcher, and what a launch is asked to do.
use vstd::prelude::*;

verus! {

/// The parsed command line.
pub struct App {
    pub command: Subcommand,
}

/// What the launcher is asked to do.
pub enum Subcommand {
    Vanilla { version: Option<String>, mem: String, username: String },
    Javaagent { version: Option<String>, mem: String, username: String },
    Fabric { version: Option<String>, loader_version: Option<String>, mem: String, username: String },
    Labric { version: Option<String>, loader_version: Option<String>, mem: String, username: String },
    Babric { loader_version: Option<String>, mem: String, username: String },
    Ornithe { version: Option<String>, loader_version: Option<String>, mem: String, username: String },
    Quilt {
        version: Option<String>,
        loader_version: Option<String>,
        mem: String,
        use_release: bool,
        username: String,
    },
    Liteloader { version: Option<String>, loader_version: Option<String>, mem: String, username: String },
    Risugami { version: Option<String>, mem: String, username: String },
    Install { mrpack: std::path::PathBuf },
    Versions,
    Open { target: OpenTarget },
}

/// What `open` opens.
pub enum OpenTarget {
    Game,
    Mods,
    ResourcePacks,
    Logs,
    Saves,
    Downloads,
    Data,
    Config,
    McOptions,
}

/// The path, relative to the game directory, that `open` opens; empty for
/// the game directory itself.
pub open spec fn open_target_path_seq(t: OpenTarget) -> Seq<char> {
    match t {
        OpenTarget::Game => ""@,
        OpenTarget::Mods => "mods"@,
        OpenTarget::ResourcePacks => "resourcepacks"@,
        OpenTarget::Logs => "logs"@,
        OpenTarget::Saves => "saves"@,
        OpenTarget::Downloads => "downloads"@,
        OpenTarget::Data => "data"@,
        OpenTarget::Config => "config"@,
        OpenTarget::McOptions => "options.txt"@,
    }
}

/// The path, relative to the game directory, that `open` opens.
pub fn open_target_path(t: &OpenTarget) -> (p: &'static str)
    ensures
        p@ == open_target_path_seq(*t),
{
    match t {
        OpenTarget::Game => "",
        OpenTarget::Mods => "mods",
        OpenTarget::ResourcePacks => "resourcepacks",
        OpenTarget::Logs => "logs",
        OpenTarget::Saves => "saves",
        OpenTarget::Downloads => "downloads",
        OpenTarget::Data => "data",
        OpenTarget::Config => "config",
        OpenTarget::McOptions => "options.txt",
    }
}

/// What a launch is asked to do: the memory limit, the player name, whether
/// mods are loaded as Java agents, extra game arguments, and whether the
/// game starts through LaunchWrapper.
#[derive(Clone)]
pub struct McLaunchCtx {
    pub limit: String,
    pub username: String,
    pub javaagent: bool,
    pub extra_game_args: Vec<String>,
    pub launchwrapper: bool,
}

/// What an install and launch are given: the launcher's directories, the
/// progress display, the requested game and loader versions, the memory
/// limit, the version directory to use, the player name, and whether mods
/// are loaded as Java agents.
#[derive(Clone)]
pub struct McCtx<'a> {
    pub dirs: crate::util::LauncherDirs,
    pub mp: &'a indicatif::MultiProgress,
    pub opt_version: Option<String>,
    pub opt_loader_version: Option<String>,
    pub limit: String,
    pub version_dir: Option<&'a std::path::Path>,
    pub username: String,
    pub javaagent: bool,
}

impl<'a> McCtx<'a> {
    /// What the launch is asked to do, with the given extra game arguments
    /// and LaunchWrapper choice.
    pub fn into_launch(self, extra_game_args: Vec<String>, launchwrapper: bool) -> (l: McLaunchCtx)
        ensures
            l.limit == self.limit,
            l.username == self.username,
            l.javaagent == self.javaagent,
            l.extra_game_args == extra_game_args,
            l.launchwrapper == launchwrapper,
    {
        McLaunchCtx {
            limit: self.limit,
            username: self.username,
            javaagent: self.javaagent,
            extra_game_args,
            launchwrapper,
        }
    }
}

} // verus!
