//! The documents of Mojang's version metadata, and the rules that decide
//! which libraries and arguments apply on a platform.
use vstd::prelude::*;

use crate::string_map::{submap_by_eq, StringMap};
use crate::text::{
    copy_str, first_index_of, lemma_first_index_of, lemma_first_index_of_by_prefix, str_eq,
    trim, trim_seq,
};

verus! {

/// A version listed in the version manifest.
#[derive(Clone)]
pub struct VanillaVersion {
    pub id: String,
    pub url: String,
}

/// The latest release and snapshot named by the version manifest.
#[derive(Clone)]
pub struct VanillaLatest {
    pub release: String,
    pub snapshot: String,
}

/// Mojang's version manifest.
#[derive(Clone)]
pub struct VanillaManifest {
    pub latest: VanillaLatest,
    pub versions: Vec<VanillaVersion>,
}

/// The asset index a version uses.
#[derive(Clone)]
#[allow(non_snake_case)]
pub struct VanillaAssetIndex {
    pub id: String,
    pub sha1: String,
    pub size: i32,
    pub totalSize: i32,
    pub url: String,
}

/// A version's JSON document. `kind` is the document's `type` field
/// (`release`, `snapshot`, ...).
#[derive(Clone)]
#[allow(non_snake_case)]
pub struct VanillaVersionJson {
    pub arguments: Option<VanillaArguments>,
    pub minecraftArguments: Option<String>,
    pub downloads: VanillaDownloads,
    pub libraries: Vec<VanillaLibrary>,
    pub mainClass: String,
    pub kind: String,
    pub assetIndex: VanillaAssetIndex,
}

/// The game and JVM arguments of a version, in the structured form of
/// newer versions.
#[derive(Clone)]
pub struct VanillaArguments {
    pub game: Vec<VanillaGameArgument>,
    pub jvm: Vec<VanillaJvmArgument>,
}

/// The native library downloads of a library, by platform.
#[derive(Clone)]
pub struct VanillaLibraryClassifiers {
    pub natives_windows_64: Option<VanillaLibraryDownload>,
    pub natives_windows_32: Option<VanillaLibraryDownload>,
    pub natives_windows: Option<VanillaLibraryDownload>,
    pub natives_osx: Option<VanillaLibraryDownload>,
    pub natives_osx_64: Option<VanillaLibraryDownload>,
    pub natives_osx_32: Option<VanillaLibraryDownload>,
    pub natives_linux: Option<VanillaLibraryDownload>,
    pub natives_linux_32: Option<VanillaLibraryDownload>,
    pub natives_linux_64: Option<VanillaLibraryDownload>,
}

/// The downloads of a library.
#[derive(Clone)]
pub struct VanillaLibraryDownloads {
    pub artifact: Option<VanillaLibraryDownload>,
    pub classifiers: Option<VanillaLibraryClassifiers>,
}

/// The files to leave out when a native library is unpacked.
#[derive(Clone)]
pub struct VanillaExtract {
    pub exclude: Vec<String>,
}

/// A library of a version.
#[derive(Clone)]
pub struct VanillaLibrary {
    pub downloads: VanillaLibraryDownloads,
    pub name: String,
    pub rules: Option<Vec<VanillaRule>>,
    pub extract: Option<VanillaExtract>,
}

/// A download of a version's jars.
#[derive(Clone)]
pub struct VanillaDownload {
    pub sha1: String,
    pub size: i32,
    pub url: String,
}

/// A library download, with its path under the libraries directory.
#[derive(Clone)]
pub struct VanillaLibraryDownload {
    pub path: String,
    pub sha1: String,
    pub size: i32,
    pub url: String,
}

/// The jars of a version.
#[derive(Clone)]
pub struct VanillaDownloads {
    pub client: VanillaDownload,
    pub client_mappings: Option<VanillaDownload>,
    pub server: Option<VanillaDownload>,
    pub server_mappings: Option<VanillaDownload>,
}

/// The launcher features a rule asks for, by name.
#[derive(Clone)]
pub struct VanillaRuleFeatures(pub StringMap<bool>);

/// The operating system or architecture a rule asks for.
#[derive(Clone)]
pub enum Os {
    Name { name: String },
    Arch { arch: String },
    Both { name: String, arch: String },
}

/// A rule that enables a library or an argument.
#[derive(Clone)]
pub struct VanillaRule {
    pub action: String,
    pub features: Option<VanillaRuleFeatures>,
    pub os: Option<Os>,
}

/// The value of a game argument: one string or several.
#[derive(Clone)]
pub enum VanillaGameArgumentValue {
    String(String),
    Strings(Vec<String>),
}

/// The value of a JVM argument: one string or several.
#[derive(Clone)]
pub enum VanillaJvmArgumentValue {
    String(String),
    Strings(Vec<String>),
}

/// A JVM argument: plain, or enabled by rules.
#[derive(Clone)]
pub enum VanillaJvmArgument {
    String(String),
    ArgWithRule { rules: Vec<VanillaRule>, value: VanillaJvmArgumentValue },
}

/// A game argument: plain, or enabled by rules.
#[derive(Clone)]
pub enum VanillaGameArgument {
    String(String),
    ArgWithRule { rules: Vec<VanillaRule>, value: VanillaGameArgumentValue },
}

/// A vanilla installation: its version document and version directory.
#[derive(Clone)]
pub struct Vanilla {
    pub json: Option<VanillaVersionJson>,
    pub ver_dir: Option<std::path::PathBuf>,
}

impl Default for Vanilla {
    fn default() -> (v: Self)
        ensures
            v.json is None,
            v.ver_dir is None,
    {
        Self { json: None, ver_dir: None }
    }
}

/// The platform the launcher runs on, by the names the Rust toolchain gives
/// it (`std::env::consts::OS` and `ARCH`).
pub struct Platform {
    pub os: String,
    pub arch: String,
}

/// Minecraft's name of the operating system that Rust calls `os`.
pub open spec fn minecraft_os(os: Seq<char>) -> Seq<char> {
    if os == "windows"@ {
        "windows"@
    } else if os == "macos"@ {
        "osx"@
    } else if os == "linux"@ {
        "linux"@
    } else {
        "unknown"@
    }
}

/// Minecraft's name of the architecture that Rust calls `arch`.
pub open spec fn minecraft_arch(arch: Seq<char>) -> Seq<char> {
    if arch == "x86_64"@ {
        "x86_64"@
    } else if arch == "x86"@ {
        "x86"@
    } else if arch == "aarch64"@ {
        "aarch64"@
    } else if arch == "arm"@ {
        "arm32"@
    } else {
        "unknown"@
    }
}

/// Minecraft's name of the operating system that Rust calls `os`.
pub fn rust_os_to_minecraft_os(os: &str) -> (r: &'static str)
    ensures
        r@ == minecraft_os(os@),
{
    if str_eq(os, "windows") {
        "windows"
    } else if str_eq(os, "macos") {
        "osx"
    } else if str_eq(os, "linux") {
        "linux"
    } else {
        "unknown"
    }
}

/// Minecraft's name of the architecture that Rust calls `arch`.
pub fn rust_arch_to_minecraft_arch(arch: &str) -> (r: &'static str)
    ensures
        r@ == minecraft_arch(arch@),
{
    if str_eq(arch, "x86_64") {
        "x86_64"
    } else if str_eq(arch, "x86") {
        "x86"
    } else if str_eq(arch, "aarch64") {
        "aarch64"
    } else if str_eq(arch, "arm") {
        "arm32"
    } else {
        "unknown"
    }
}

/// Whether an operating-system rule enables its item on the platform. A
/// rule without an `os` part always does, whatever its action; otherwise the
/// platform must match and the action must be `allow`. For a rule naming both
/// a system and an architecture only the architecture is compared.
pub open spec fn os_rule_applies(rule: VanillaRule, p: Platform) -> bool {
    match rule.os {
        None => true,
        Some(os) => {
            let matched = match os {
                Os::Name { name } => name@ == minecraft_os(p.os@),
                Os::Arch { arch } => arch@ == minecraft_arch(p.arch@),
                Os::Both { name, arch } => arch@ == minecraft_arch(p.arch@),
            };
            matched && rule.action@ == "allow"@
        },
    }
}

/// Whether an operating-system rule enables its item on the platform.
pub fn matches_os_rule(rule: &VanillaRule, platform: &Platform) -> (r: bool)
    ensures
        r == os_rule_applies(*rule, *platform),
{
    let matched = match &rule.os {
        None => {
            return true;
        },
        Some(Os::Name { name }) => str_eq(
            name.as_str(),
            rust_os_to_minecraft_os(platform.os.as_str()),
        ),
        Some(Os::Arch { arch }) => str_eq(
            arch.as_str(),
            rust_arch_to_minecraft_arch(platform.arch.as_str()),
        ),
        Some(Os::Both { name, arch }) => str_eq(
            arch.as_str(),
            rust_arch_to_minecraft_arch(platform.arch.as_str()),
        ),
    };
    matched && str_eq(rule.action.as_str(), "allow")
}

/// Whether a feature rule enables its item for the launcher's features: a
/// rule without features always does; otherwise every feature it names must
/// have the value it asks for, and the action must be `allow`.
pub open spec fn arg_rule_applies(features: Map<Seq<char>, bool>, rule: VanillaRule) -> bool {
    match rule.features {
        None => true,
        Some(f) => submap_by_eq(features, f.0@) && rule.action@ == "allow"@,
    }
}

/// Whether a feature rule enables its item for the launcher's features.
pub fn matches_arg_rule(features: StringMap<bool>, rule: &VanillaRule) -> (r: bool)
    ensures
        r == arg_rule_applies(features@, *rule),
{
    match &rule.features {
        None => true,
        Some(f) => crate::string_map::hashmap_contains(&features, &f.0) && str_eq(
            rule.action.as_str(),
            "allow",
        ),
    }
}

/// The element of an option, as a sequence of zero or one elements.
pub open spec fn opt_seq<T>(o: Option<T>) -> Seq<T> {
    match o {
        Some(x) => seq![x],
        None => Seq::empty(),
    }
}

/// The native downloads a library needs on the platform: for macOS all
/// three; for Windows and Linux the one of the architecture (x86_64 or x86)
/// and then the generic one; none elsewhere.
pub open spec fn needed_classifiers(c: VanillaLibraryClassifiers, p: Platform) -> Seq<
    VanillaLibraryDownload,
> {
    if p.os@ == "macos"@ {
        opt_seq(c.natives_osx) + opt_seq(c.natives_osx_64) + opt_seq(c.natives_osx_32)
    } else if p.os@ == "windows"@ {
        (if p.arch@ == "x86_64"@ {
            opt_seq(c.natives_windows_64)
        } else if p.arch@ == "x86"@ {
            opt_seq(c.natives_windows_32)
        } else {
            Seq::empty()
        }) + opt_seq(c.natives_windows)
    } else if p.os@ == "linux"@ {
        (if p.arch@ == "x86_64"@ {
            opt_seq(c.natives_linux_64)
        } else if p.arch@ == "x86"@ {
            opt_seq(c.natives_linux_32)
        } else {
            Seq::empty()
        }) + opt_seq(c.natives_linux)
    } else {
        Seq::empty()
    }
}

fn push_opt<'a>(v: &mut Vec<&'a VanillaLibraryDownload>, o: &'a Option<VanillaLibraryDownload>)
    ensures
        final(v)@.map_values(|x: &VanillaLibraryDownload| *x) == old(v)@.map_values(
            |x: &VanillaLibraryDownload| *x,
        ) + opt_seq(*o),
{
    let ghost before = v@;
    if let Some(d) = o {
        v.push(d);
        assert(v@.map_values(|x: &VanillaLibraryDownload| *x) =~= before.map_values(
            |x: &VanillaLibraryDownload| *x,
        ) + opt_seq(*o));
    } else {
        assert(v@.map_values(|x: &VanillaLibraryDownload| *x) =~= before.map_values(
            |x: &VanillaLibraryDownload| *x,
        ) + opt_seq(*o));
    }
}

/// The native downloads a library needs on the platform.
pub fn classifiers_needed<'a>(classifiers: &'a VanillaLibraryClassifiers, platform: &Platform) -> (r:
    Vec<&'a VanillaLibraryDownload>)
    ensures
        r@.map_values(|x: &VanillaLibraryDownload| *x) == needed_classifiers(
            *classifiers,
            *platform,
        ),
{
    let mut downloads: Vec<&'a VanillaLibraryDownload> = Vec::new();
    assert(downloads@.map_values(|x: &VanillaLibraryDownload| *x) =~= Seq::<
        VanillaLibraryDownload,
    >::empty());
    let os = platform.os.as_str();
    let arch = platform.arch.as_str();
    if str_eq(os, "macos") {
        push_opt(&mut downloads, &classifiers.natives_osx);
        push_opt(&mut downloads, &classifiers.natives_osx_64);
        push_opt(&mut downloads, &classifiers.natives_osx_32);
    } else if str_eq(os, "windows") {
        if str_eq(arch, "x86_64") {
            push_opt(&mut downloads, &classifiers.natives_windows_64);
        } else if str_eq(arch, "x86") {
            push_opt(&mut downloads, &classifiers.natives_windows_32);
        }
        push_opt(&mut downloads, &classifiers.natives_windows);
    } else if str_eq(os, "linux") {
        if str_eq(arch, "x86_64") {
            push_opt(&mut downloads, &classifiers.natives_linux_64);
        } else if str_eq(arch, "x86") {
            push_opt(&mut downloads, &classifiers.natives_linux_32);
        }
        push_opt(&mut downloads, &classifiers.natives_linux);
    }
    downloads
}

/// The ids of the manifest's versions, trimmed.
pub open spec fn trimmed_ids(vs: Seq<VanillaVersion>) -> Seq<Seq<char>> {
    vs.map_values(|v: VanillaVersion| trim_seq(v.id@))
}

/// The URL of the JSON document of the version named `version`: that of
/// the first listed version whose id equals it, both trimmed; none when no
/// version has that id.
pub fn get_ver_json_url(manifest: VanillaManifest, version: String) -> (r: Option<String>)
    ensures
        match first_index_of(trimmed_ids(manifest.versions@), trim_seq(version@)) {
            Some(i) => r matches Some(u) && u@ == manifest.versions@[i].url@,
            None => r is None,
        },
{
    let wanted = trim(version.as_str());
    proof {
        lemma_first_index_of(trimmed_ids(manifest.versions@), trim_seq(version@));
    }
    let mut i: usize = 0;
    while i < manifest.versions.len()
        invariant
            i <= manifest.versions.len(),
            wanted@ == trim_seq(version@),
            forall|j: int| 0 <= j < i ==> trimmed_ids(manifest.versions@)[j] != wanted@,
        decreases manifest.versions.len() - i,
    {
        let id = trim(manifest.versions[i].id.as_str());
        if str_eq(id.as_str(), wanted.as_str()) {
            proof {
                lemma_first_index_of_by_prefix(
                    trimmed_ids(manifest.versions@),
                    wanted@,
                    i as int,
                );
            }
            return Some(manifest.versions[i].url.clone());
        }
        i += 1;
    }
    proof {
        lemma_first_index_of_by_prefix(trimmed_ids(manifest.versions@), wanted@, i as int);
    }
    None
}

/// A rule without an operating-system part enables its item on every
/// platform, and a rule without features for every feature set.
pub proof fn law_unconditional_rules_apply(rule: VanillaRule, p: Platform, features: Map<Seq<char>, bool>)
    ensures
        rule.os is None ==> os_rule_applies(rule, p),
        rule.features is None ==> arg_rule_applies(features, rule),
{
}

/// The launcher's features satisfy any `allow` rule that asks for exactly
/// them: every flag map contains itself.
pub proof fn law_features_contain_themselves(features: Map<Seq<char>, bool>)
    ensures
        submap_by_eq(features, features),
{
}

/// Containment of launcher feature maps, as `matches_arg_rule` decides it,
/// is a partial order: reflexive, transitive and antisymmetric.
pub proof fn law_feature_containment_is_a_partial_order(
    a: Map<Seq<char>, bool>,
    b: Map<Seq<char>, bool>,
    c: Map<Seq<char>, bool>,
)
    ensures
        submap_by_eq(a, a),
        submap_by_eq(a, b) && submap_by_eq(b, c) ==> submap_by_eq(a, c),
        submap_by_eq(a, b) && submap_by_eq(b, a) ==> a == b,
{
    crate::string_map::law_submap_preorder(a, b, c);
    if submap_by_eq(a, b) && submap_by_eq(b, a) {
        crate::string_map::law_submap_antisymmetric(a, b);
    }
}

/// Minecraft's operating-system names are Rust's under their own names:
/// `windows` is Rust's `windows`, `osx` is `macos` and `linux` is `linux`,
/// and no other Rust name is given any of them.
pub proof fn law_minecraft_os_names(os: Seq<char>)
    ensures
        minecraft_os(os) == "windows"@ <==> os == "windows"@,
        minecraft_os(os) == "osx"@ <==> os == "macos"@,
        minecraft_os(os) == "linux"@ <==> os == "linux"@,
{
    reveal_strlit("windows");
    reveal_strlit("osx");
    reveal_strlit("linux");
    reveal_strlit("macos");
    reveal_strlit("unknown");
    assert("windows"@[0] != "unknown"@[0]);
    assert("linux"@.len() != "unknown"@.len());
    assert("osx"@.len() != "unknown"@.len());
    assert("windows"@.len() != "osx"@.len());
    assert("windows"@.len() != "linux"@.len());
    assert("osx"@.len() != "linux"@.len());
    assert("linux"@[0] != "macos"@[0]);
}

/// Minecraft's architecture names are Rust's: `x86_64`, `x86` and `aarch64`
/// under their own names and `arm32` for Rust's `arm`.
pub proof fn law_minecraft_arch_names(arch: Seq<char>)
    ensures
        minecraft_arch(arch) == "x86_64"@ <==> arch == "x86_64"@,
        minecraft_arch(arch) == "x86"@ <==> arch == "x86"@,
        minecraft_arch(arch) == "aarch64"@ <==> arch == "aarch64"@,
        minecraft_arch(arch) == "arm32"@ <==> arch == "arm"@,
{
    reveal_strlit("x86_64");
    reveal_strlit("x86");
    reveal_strlit("aarch64");
    reveal_strlit("arm");
    reveal_strlit("arm32");
    reveal_strlit("unknown");
    assert("x86_64"@.len() != "x86"@.len());
    assert("x86_64"@.len() != "aarch64"@.len());
    assert("x86_64"@.len() != "arm32"@.len());
    assert("x86_64"@.len() != "unknown"@.len());
    assert("x86"@.len() != "aarch64"@.len());
    assert("x86"@.len() != "arm32"@.len());
    assert("x86"@.len() != "unknown"@.len());
    assert("aarch64"@[0] != "unknown"@[0]);
    assert("aarch64"@.len() != "arm32"@.len());
    assert("arm32"@.len() != "unknown"@.len());
    assert("arm"@[0] != "x86"@[0]);
    assert("arm"@.len() != "x86_64"@.len());
    assert("arm"@.len() != "aarch64"@.len());
}

/// A rule that allows an operating system by name applies on a Windows,
/// macOS or Linux platform exactly when it names that system (`windows`,
/// `osx`, `linux`), whatever the architecture; a rule that allows an
/// architecture applies exactly when it names the platform's.
pub proof fn law_allow_rules_match_the_platform(rule: VanillaRule, p: Platform)
    requires
        rule.action@ == "allow"@,
    ensures
        rule.os matches Some(Os::Name { name }) ==> {
            &&& p.os@ == "windows"@ ==> (os_rule_applies(rule, p) <==> name@ == "windows"@)
            &&& p.os@ == "macos"@ ==> (os_rule_applies(rule, p) <==> name@ == "osx"@)
            &&& p.os@ == "linux"@ ==> (os_rule_applies(rule, p) <==> name@ == "linux"@)
        },
        rule.os matches Some(Os::Arch { arch }) ==> {
            &&& p.arch@ == "x86_64"@ ==> (os_rule_applies(rule, p) <==> arch@ == "x86_64"@)
            &&& p.arch@ == "x86"@ ==> (os_rule_applies(rule, p) <==> arch@ == "x86"@)
            &&& p.arch@ == "aarch64"@ ==> (os_rule_applies(rule, p) <==> arch@ == "aarch64"@)
            &&& p.arch@ == "arm"@ ==> (os_rule_applies(rule, p) <==> arch@ == "arm32"@)
        },
{
    law_minecraft_os_names(p.os@);
    law_minecraft_arch_names(p.arch@);
}

/// The native downloads a library needs on a platform belong to that
/// platform's system: on Linux its generic natives and those of the
/// platform's architecture (x86_64 or x86), likewise on Windows, every macOS
/// one on macOS, and none on any other system. Each of these that the
/// library lists is needed.
pub proof fn law_natives_of_the_platform(c: VanillaLibraryClassifiers, p: Platform)
    ensures
        ({
            let n = needed_classifiers(c, p);
            &&& p.os@ == "linux"@ ==> {
                &&& forall|i: int|
                    0 <= i < n.len() ==> Some(#[trigger] n[i]) == c.natives_linux || (p.arch@
                        == "x86_64"@ && Some(n[i]) == c.natives_linux_64) || (p.arch@ == "x86"@
                        && Some(n[i]) == c.natives_linux_32)
                &&& c.natives_linux matches Some(d) ==> n.contains(d)
                &&& p.arch@ == "x86_64"@ ==> (c.natives_linux_64 matches Some(d) ==> n.contains(d))
                &&& p.arch@ == "x86"@ ==> (c.natives_linux_32 matches Some(d) ==> n.contains(d))
            }
            &&& p.os@ == "windows"@ ==> {
                &&& forall|i: int|
                    0 <= i < n.len() ==> Some(#[trigger] n[i]) == c.natives_windows || (p.arch@
                        == "x86_64"@ && Some(n[i]) == c.natives_windows_64) || (p.arch@ == "x86"@
                        && Some(n[i]) == c.natives_windows_32)
                &&& c.natives_windows matches Some(d) ==> n.contains(d)
                &&& p.arch@ == "x86_64"@ ==> (c.natives_windows_64 matches Some(d) ==> n.contains(d))
                &&& p.arch@ == "x86"@ ==> (c.natives_windows_32 matches Some(d) ==> n.contains(d))
            }
            &&& p.os@ == "macos"@ ==> {
                &&& forall|i: int|
                    0 <= i < n.len() ==> Some(#[trigger] n[i]) == c.natives_osx || Some(n[i])
                        == c.natives_osx_64 || Some(n[i]) == c.natives_osx_32
                &&& c.natives_osx matches Some(d) ==> n.contains(d)
                &&& c.natives_osx_64 matches Some(d) ==> n.contains(d)
                &&& c.natives_osx_32 matches Some(d) ==> n.contains(d)
            }
            &&& (p.os@ != "linux"@ && p.os@ != "windows"@ && p.os@ != "macos"@) ==> n.len() == 0
        }),
{
    reveal_strlit("linux");
    reveal_strlit("windows");
    reveal_strlit("macos");
    reveal_strlit("x86_64");
    reveal_strlit("x86");
    assert("linux"@[0] != "macos"@[0]);
    assert("linux"@.len() != "windows"@.len());
    assert("macos"@.len() != "windows"@.len());
    assert("x86_64"@.len() != "x86"@.len());
    let n = needed_classifiers(c, p);
    let a = opt_seq(c.natives_osx);
    let b = opt_seq(c.natives_osx_64);
    let d = opt_seq(c.natives_osx_32);
    if p.os@ == "macos"@ {
        assert(n == a + b + d);
        if let Some(x) = c.natives_osx {
            assert(n[0] == x);
        }
        if let Some(x) = c.natives_osx_64 {
            assert(n[a.len() as int] == x);
        }
        if let Some(x) = c.natives_osx_32 {
            assert(n[(a.len() + b.len()) as int] == x);
        }
    } else if p.os@ == "windows"@ {
        let first = if p.arch@ == "x86_64"@ {
            opt_seq(c.natives_windows_64)
        } else if p.arch@ == "x86"@ {
            opt_seq(c.natives_windows_32)
        } else {
            Seq::empty()
        };
        assert(n == first + opt_seq(c.natives_windows));
        if let Some(x) = c.natives_windows {
            assert(n[first.len() as int] == x);
        }
        if p.arch@ == "x86_64"@ && c.natives_windows_64 is Some {
            assert(n[0] == c.natives_windows_64.unwrap());
        }
        if p.arch@ == "x86"@ && c.natives_windows_32 is Some {
            assert(n[0] == c.natives_windows_32.unwrap());
        }
    } else if p.os@ == "linux"@ {
        let first = if p.arch@ == "x86_64"@ {
            opt_seq(c.natives_linux_64)
        } else if p.arch@ == "x86"@ {
            opt_seq(c.natives_linux_32)
        } else {
            Seq::empty()
        };
        assert(n == first + opt_seq(c.natives_linux));
        if let Some(x) = c.natives_linux {
            assert(n[first.len() as int] == x);
        }
        if p.arch@ == "x86_64"@ && c.natives_linux_64 is Some {
            assert(n[0] == c.natives_linux_64.unwrap());
        }
        if p.arch@ == "x86"@ && c.natives_linux_32 is Some {
            assert(n[0] == c.natives_linux_32.unwrap());
        }
    }
}

/// When a listed version's id, trimmed, is the requested version trimmed,
/// a URL is found: that of the first version whose trimmed id matches, which
/// comes no later than the given one.
pub proof fn law_version_url_found(vs: Seq<VanillaVersion>, version: Seq<char>, k: int)
    requires
        0 <= k < vs.len(),
        trim_seq(vs[k].id@) == trim_seq(version),
    ensures
        first_index_of(trimmed_ids(vs), trim_seq(version)) matches Some(i) && 0 <= i <= k && trim_seq(
            vs[i].id@,
        ) == trim_seq(version) && forall|j: int|
            0 <= j < i ==> trim_seq(#[trigger] vs[j].id@) != trim_seq(version),
{
    lemma_first_index_of(trimmed_ids(vs), trim_seq(version));
    assert(trimmed_ids(vs)[k] == trim_seq(vs[k].id@));
    if let Some(i) = first_index_of(trimmed_ids(vs), trim_seq(version)) {
        assert forall|j: int| 0 <= j < i implies trim_seq(#[trigger] vs[j].id@) != trim_seq(version) by {
            assert(trimmed_ids(vs)[j] == trim_seq(vs[j].id@));
        }
        if i > k {
            assert(trimmed_ids(vs)[k] != trim_seq(version));
        }
    }
}

/// A rule with an operating-system part applies only when its action is
/// `allow`. A rule with features applies exactly when its action is `allow`
/// and each feature it names is one the launcher has, with the value the
/// rule asks for.
pub proof fn law_rule_actions_and_features(
    rule: VanillaRule,
    p: Platform,
    features: Map<Seq<char>, bool>,
)
    ensures
        rule.os is Some && rule.action@ != "allow"@ ==> !os_rule_applies(rule, p),
        rule.features matches Some(f) ==> (arg_rule_applies(features, rule) <==> (rule.action@
            == "allow"@ && forall|k: Seq<char>|
            #[trigger] f.0@.contains_key(k) ==> features.contains_key(k) && features[k] == f.0@[k])),
{
}

} // verus!
