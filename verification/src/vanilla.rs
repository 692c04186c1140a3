//! Installing and launching vanilla Minecraft: the libraries to fetch, and
//! the command that starts the game.
pub mod schema;

pub use schema::{get_ver_json_url, VanillaLatest, VanillaManifest, VanillaVersion};

use vstd::prelude::*;

use crate::app::McLaunchCtx;
use crate::outside::{is_v4_uuid_text, new_v4_uuid_text};
use crate::string_map::StringMap;
use crate::text::{copy_str, replace_seq, replace_str, split_seq, split_str, str_eq, views};
use crate::util::{class_path, class_path_separator, archive_paths, PathEntry};
use schema::{
    arg_rule_applies, matches_arg_rule, matches_os_rule, os_rule_applies, Platform,
    VanillaGameArgument, VanillaGameArgumentValue, VanillaJvmArgument, VanillaJvmArgumentValue,
    VanillaRule, VanillaVersionJson,
};
use crate::text::{join_seq, lemma_absent_by_head, lemma_replace_absent, lemma_replace_whole, occurs_at};

verus! {

// ---------------------------------------------------------------------------
// Arguments before substitution
// ---------------------------------------------------------------------------

/// The strings of a JVM argument's value.
pub open spec fn jvm_value_seq(v: VanillaJvmArgumentValue) -> Seq<Seq<char>> {
    match v {
        VanillaJvmArgumentValue::String(s) => seq![s@],
        VanillaJvmArgumentValue::Strings(vs) => views(vs@),
    }
}

/// The strings of a game argument's value.
pub open spec fn game_value_seq(v: VanillaGameArgumentValue) -> Seq<Seq<char>> {
    match v {
        VanillaGameArgumentValue::String(s) => seq![s@],
        VanillaGameArgumentValue::Strings(vs) => views(vs@),
    }
}

/// The value's strings once for every rule that applies on the platform.
pub open spec fn os_rule_values(rules: Seq<VanillaRule>, vals: Seq<Seq<char>>, p: Platform) -> Seq<
    Seq<char>,
>
    decreases rules.len(),
{
    if rules.len() == 0 {
        Seq::empty()
    } else {
        os_rule_values(rules.drop_last(), vals, p) + if os_rule_applies(rules.last(), p) {
            vals
        } else {
            Seq::empty()
        }
    }
}

/// The value's strings once for every rule that the features satisfy.
pub open spec fn feature_rule_values(
    rules: Seq<VanillaRule>,
    vals: Seq<Seq<char>>,
    features: Map<Seq<char>, bool>,
) -> Seq<Seq<char>>
    decreases rules.len(),
{
    if rules.len() == 0 {
        Seq::empty()
    } else {
        feature_rule_values(rules.drop_last(), vals, features) + if arg_rule_applies(
            features,
            rules.last(),
        ) {
            vals
        } else {
            Seq::empty()
        }
    }
}

/// The JVM arguments a version document gives on the platform.
pub open spec fn jvm_args_seq(args: Seq<VanillaJvmArgument>, p: Platform) -> Seq<Seq<char>>
    decreases args.len(),
{
    if args.len() == 0 {
        Seq::empty()
    } else {
        jvm_args_seq(args.drop_last(), p) + match args.last() {
            VanillaJvmArgument::String(s) => seq![s@],
            VanillaJvmArgument::ArgWithRule { rules, value } => os_rule_values(
                rules@,
                jvm_value_seq(value),
                p,
            ),
        }
    }
}

/// The game arguments a version document gives for the features.
pub open spec fn game_args_seq(args: Seq<VanillaGameArgument>, features: Map<Seq<char>, bool>) -> Seq<
    Seq<char>,
>
    decreases args.len(),
{
    if args.len() == 0 {
        Seq::empty()
    } else {
        game_args_seq(args.drop_last(), features) + match args.last() {
            VanillaGameArgument::String(s) => seq![s@],
            VanillaGameArgument::ArgWithRule { rules, value } => feature_rule_values(
                rules@,
                game_value_seq(value),
                features,
            ),
        }
    }
}

/// The JVM arguments of versions whose document has no structured arguments.
pub open spec fn default_jvm_args() -> Seq<Seq<char>> {
    seq![
        "-Djava.library.path=${natives_directory}"@,
        "-Djna.tmpdir=${natives_directory}"@,
        "-Dorg.lwjgl.system.SharedLibraryExtractPath=${natives_directory}"@,
        "-Dio.netty.native.workdir=${natives_directory}"@,
        "-Dminecraft.launcher.brand=${launcher_name}"@,
        "-Dminecraft.launcher.version=${launcher_version}"@,
        "-cp"@,
        "${classpath}"@,
    ]
}

/// The launcher features the game's rules are judged against: all off.
pub open spec fn launch_features_map() -> Map<Seq<char>, bool> {
    Map::empty().insert("is_demo_user"@, false).insert("has_custom_resolution"@, false).insert(
        "has_quick_plays_support"@,
        false,
    ).insert("is_quick_play_singleplayer"@, false).insert("is_quick_play_multiplayer"@, false).insert(
        "is_quick_play_realms"@,
        false,
    )
}

/// What a launch finds on disk and in its environment: the platform, the
/// files in the mods directory and under the version's libraries, the
/// client jar, the libraries, game and assets directories, the version
/// directory's name, and the launcher's version.
pub struct LaunchEnv {
    pub platform: Platform,
    pub mod_files: Vec<PathEntry>,
    pub lib_files: Vec<PathEntry>,
    pub client_jar: String,
    pub libs_dir: String,
    pub game_dir: String,
    pub assets_dir: String,
    pub version_name: String,
    pub launcher_version: String,
}

/// The `-javaagent:` argument of every `.jar` file among the mods.
pub open spec fn agent_args_seq(mods: Seq<PathEntry>) -> Seq<Seq<char>>
    decreases mods.len(),
{
    if mods.len() == 0 {
        Seq::empty()
    } else {
        agent_args_seq(mods.drop_last()) + if mods.last().extension matches Some(x) && x@
            == "jar"@ {
            seq!["-javaagent:"@ + mods.last().path@]
        } else {
            Seq::empty()
        }
    }
}

/// The JVM arguments of a launch, before substitution: the memory limit,
/// the mods as Java agents when asked, then the document's arguments (or
/// the defaults when it has none).
pub open spec fn jvm_unresolved_seq(json: VanillaVersionJson, ctx: McLaunchCtx, env: LaunchEnv) -> Seq<
    Seq<char>,
> {
    seq!["-Xmx"@ + ctx.limit@] + (if ctx.javaagent {
        agent_args_seq(env.mod_files@)
    } else {
        Seq::empty()
    }) + match json.arguments {
        Some(a) => jvm_args_seq(a.jvm@, env.platform),
        None => default_jvm_args(),
    }
}

/// The game arguments of a launch, before substitution: the document's
/// arguments (or its space-separated legacy arguments), then the extra ones.
pub open spec fn game_unresolved_seq(json: VanillaVersionJson, ctx: McLaunchCtx) -> Seq<Seq<char>> {
    (match json.arguments {
        Some(a) => game_args_seq(a.game@, launch_features_map()),
        None => match json.minecraftArguments {
            Some(m) => split_seq(m@, " "@),
            None => Seq::empty(),
        },
    }) + views(ctx.extra_game_args@)
}

// ---------------------------------------------------------------------------
// Substitution
// ---------------------------------------------------------------------------

/// The class path of a launch: the archives among the version's libraries,
/// then the client jar.
pub open spec fn launch_class_path_seq(env: LaunchEnv) -> Seq<char> {
    join_seq(
        archive_paths(env.lib_files@) + seq![env.client_jar@],
        class_path_separator(env.platform.os@ == "windows"@),
    )
}

/// A JVM argument with its placeholders filled in.
pub open spec fn resolve_jvm_seq(arg: Seq<char>, env: LaunchEnv) -> Seq<char> {
    replace_seq(
        replace_seq(
            replace_seq(
                replace_seq(arg, "${natives_directory}"@, env.libs_dir@),
                "${classpath}"@,
                launch_class_path_seq(env),
            ),
            "${launcher_name}"@,
            "mc_cli"@,
        ),
        "${launcher_version}"@,
        env.launcher_version@,
    )
}

/// A game argument with its placeholders filled in, given the two UUIDs
/// drawn for it.
pub open spec fn resolve_game_seq(
    arg: Seq<char>,
    ctx: McLaunchCtx,
    env: LaunchEnv,
    version_type: Seq<char>,
    auth_uuid: Seq<char>,
    client_id: Seq<char>,
) -> Seq<char> {
    let a1 = replace_seq(arg, "${auth_player_name}"@, ctx.username@);
    let a2 = replace_seq(a1, "${player_name}"@, ctx.username@);
    let a3 = replace_seq(a2, "${version_name}"@, env.version_name@);
    let a4 = replace_seq(a3, "${game_directory}"@, env.game_dir@);
    let a5 = replace_seq(a4, "${auth_uuid}"@, auth_uuid);
    let a6 = replace_seq(a5, "${auth_access_token}"@, ""@);
    let a7 = replace_seq(a6, "${clientid}"@, client_id);
    let a8 = replace_seq(a7, "${auth_xuid}"@, "0"@);
    let a9 = replace_seq(a8, "${user_type}"@, "legacy"@);
    let a10 = replace_seq(a9, "${version_type}"@, version_type);
    let a11 = replace_seq(a10, "${user_properties}"@, "{}"@);
    let a12 = replace_seq(a11, "${assets_index_name}"@, env.version_name@);
    let a13 = replace_seq(a12, "${assets_root}"@, env.assets_dir@);
    replace_seq(a13, "${game_assets}"@, env.assets_dir@)
}

/// The class the game starts with: LaunchWrapper's when asked, else the
/// document's main class.
pub open spec fn main_class_seq(json: VanillaVersionJson, ctx: McLaunchCtx) -> Seq<char> {
    if ctx.launchwrapper {
        "net.minecraft.launchwrapper.Launch"@
    } else {
        json.mainClass@
    }
}

/// The Java command line of a launch, given the UUID pair drawn for each
/// game argument: the substituted JVM arguments, the main class, and the
/// substituted game arguments.
pub open spec fn launch_command_seq(
    json: VanillaVersionJson,
    ctx: McLaunchCtx,
    env: LaunchEnv,
    ids: Seq<(Seq<char>, Seq<char>)>,
) -> Seq<Seq<char>> {
    jvm_unresolved_seq(json, ctx, env).map_values(|a: Seq<char>| resolve_jvm_seq(a, env)) + seq![
        main_class_seq(json, ctx),
    ] + game_unresolved_seq(json, ctx).map(
        |i: int, a: Seq<char>| resolve_game_seq(a, ctx, env, json.kind@, ids[i].0, ids[i].1),
    )
}

// ---------------------------------------------------------------------------
// Executable assembly
// ---------------------------------------------------------------------------

/// Appends copies of `src` to `dst`.
fn append_copies(dst: &mut Vec<String>, src: &Vec<String>)
    ensures
        views(final(dst)@) == views(old(dst)@) + views(src@),
{
    let ghost start = views(dst@);
    let mut i: usize = 0;
    while i < src.len()
        invariant
            i <= src.len(),
            views(dst@) == start + views(src@).take(i as int),
        decreases src.len() - i,
    {
        let ghost before = dst@;
        dst.push(copy_str(src[i].as_str()));
        assert(views(dst@) =~= views(before).push(src@[i as int]@));
        assert(views(src@).take(i + 1) =~= views(src@).take(i as int).push(src@[i as int]@));
        i += 1;
    }
    assert(views(src@).take(src.len() as int) =~= views(src@));
}

fn push_jvm_value(dst: &mut Vec<String>, v: &VanillaJvmArgumentValue)
    ensures
        views(final(dst)@) == views(old(dst)@) + jvm_value_seq(*v),
{
    match v {
        VanillaJvmArgumentValue::String(s) => {
            let ghost before = dst@;
            dst.push(copy_str(s.as_str()));
            assert(views(dst@) =~= views(before) + seq![s@]);
        },
        VanillaJvmArgumentValue::Strings(vs) => append_copies(dst, vs),
    }
}

fn push_game_value(dst: &mut Vec<String>, v: &VanillaGameArgumentValue)
    ensures
        views(final(dst)@) == views(old(dst)@) + game_value_seq(*v),
{
    match v {
        VanillaGameArgumentValue::String(s) => {
            let ghost before = dst@;
            dst.push(copy_str(s.as_str()));
            assert(views(dst@) =~= views(before) + seq![s@]);
        },
        VanillaGameArgumentValue::Strings(vs) => append_copies(dst, vs),
    }
}

/// The JVM arguments a version document gives on the platform.
pub fn jvm_args_from_json(args: &Vec<VanillaJvmArgument>, platform: &Platform) -> (r: Vec<String>)
    ensures
        views(r@) == jvm_args_seq(args@, *platform),
{
    let mut r: Vec<String> = Vec::new();
    let mut i: usize = 0;
    while i < args.len()
        invariant
            i <= args.len(),
            views(r@) == jvm_args_seq(args@.take(i as int), *platform),
        decreases args.len() - i,
    {
        assert(args@.take(i + 1).drop_last() =~= args@.take(i as int));
        assert(args@.take(i + 1).last() == args@[i as int]);
        match &args[i] {
            VanillaJvmArgument::String(s) => {
                let ghost before = r@;
                r.push(copy_str(s.as_str()));
                assert(views(r@) =~= views(before) + seq![s@]);
            },
            VanillaJvmArgument::ArgWithRule { rules, value } => {
                let ghost start = views(r@);
                let mut k: usize = 0;
                while k < rules.len()
                    invariant
                        k <= rules.len(),
                        views(r@) == start + os_rule_values(
                            rules@.take(k as int),
                            jvm_value_seq(*value),
                            *platform,
                        ),
                    decreases rules.len() - k,
                {
                    assert(rules@.take(k + 1).drop_last() =~= rules@.take(k as int));
                    if matches_os_rule(&rules[k], platform) {
                        push_jvm_value(&mut r, value);
                    }
                    assert(views(r@) =~= start + os_rule_values(
                        rules@.take(k + 1),
                        jvm_value_seq(*value),
                        *platform,
                    ));
                    k += 1;
                }
                assert(rules@.take(rules.len() as int) =~= rules@);
            },
        }
        i += 1;
    }
    assert(args@.take(args.len() as int) =~= args@);
    r
}

/// The game arguments a version document gives for the features.
pub fn game_args_from_json(args: &Vec<VanillaGameArgument>, features: &StringMap<bool>) -> (r: Vec<
    String,
>)
    ensures
        views(r@) == game_args_seq(args@, features@),
{
    let mut r: Vec<String> = Vec::new();
    let mut i: usize = 0;
    while i < args.len()
        invariant
            i <= args.len(),
            views(r@) == game_args_seq(args@.take(i as int), features@),
        decreases args.len() - i,
    {
        assert(args@.take(i + 1).drop_last() =~= args@.take(i as int));
        assert(args@.take(i + 1).last() == args@[i as int]);
        match &args[i] {
            VanillaGameArgument::String(s) => {
                let ghost before = r@;
                r.push(copy_str(s.as_str()));
                assert(views(r@) =~= views(before) + seq![s@]);
            },
            VanillaGameArgument::ArgWithRule { rules, value } => {
                let ghost start = views(r@);
                let mut k: usize = 0;
                while k < rules.len()
                    invariant
                        k <= rules.len(),
                        views(r@) == start + feature_rule_values(
                            rules@.take(k as int),
                            game_value_seq(*value),
                            features@,
                        ),
                    decreases rules.len() - k,
                {
                    assert(rules@.take(k + 1).drop_last() =~= rules@.take(k as int));
                    if matches_arg_rule(features.copied(), &rules[k]) {
                        push_game_value(&mut r, value);
                    }
                    assert(views(r@) =~= start + feature_rule_values(
                        rules@.take(k + 1),
                        game_value_seq(*value),
                        features@,
                    ));
                    k += 1;
                }
                assert(rules@.take(rules.len() as int) =~= rules@);
            },
        }
        i += 1;
    }
    assert(args@.take(args.len() as int) =~= args@);
    r
}

/// The launcher features the game's rules are judged against: all off.
pub fn launch_features() -> (m: StringMap<bool>)
    ensures
        m@ == launch_features_map(),
{
    let mut m: StringMap<bool> = StringMap::new();
    m.insert(copy_str("is_demo_user"), false);
    m.insert(copy_str("has_custom_resolution"), false);
    m.insert(copy_str("has_quick_plays_support"), false);
    m.insert(copy_str("is_quick_play_singleplayer"), false);
    m.insert(copy_str("is_quick_play_multiplayer"), false);
    m.insert(copy_str("is_quick_play_realms"), false);
    m
}

/// The `-javaagent:` argument of every `.jar` file among the mods.
pub fn agent_args(mods: &Vec<PathEntry>) -> (r: Vec<String>)
    ensures
        views(r@) == agent_args_seq(mods@),
{
    let mut r: Vec<String> = Vec::new();
    let mut i: usize = 0;
    while i < mods.len()
        invariant
            i <= mods.len(),
            views(r@) == agent_args_seq(mods@.take(i as int)),
        decreases mods.len() - i,
    {
        assert(mods@.take(i + 1).drop_last() =~= mods@.take(i as int));
        assert(mods@.take(i + 1).last() == mods@[i as int]);
        let is_jar = match &mods[i].extension {
            Some(x) => str_eq(x.as_str(), "jar"),
            None => false,
        };
        if is_jar {
            let mut a = copy_str("-javaagent:");
            a.append(mods[i].path.as_str());
            let ghost before = r@;
            r.push(a);
            assert(views(r@) =~= views(before).push("-javaagent:"@ + mods@[i as int].path@));
        }
        i += 1;
    }
    assert(mods@.take(mods.len() as int) =~= mods@);
    r
}

/// The JVM arguments of a launch, before substitution.
pub fn jvm_arguments(json: &VanillaVersionJson, ctx: &McLaunchCtx, env: &LaunchEnv) -> (r: Vec<
    String,
>)
    ensures
        views(r@) == jvm_unresolved_seq(*json, *ctx, *env),
{
    let mut r: Vec<String> = Vec::new();
    let mut xmx = copy_str("-Xmx");
    xmx.append(ctx.limit.as_str());
    r.push(xmx);
    assert(views(r@) =~= seq!["-Xmx"@ + ctx.limit@]);
    if ctx.javaagent {
        let agents = agent_args(&env.mod_files);
        append_copies(&mut r, &agents);
    }
    let ghost head = views(r@);
    match &json.arguments {
        Some(a) => {
            let from_json = jvm_args_from_json(&a.jvm, &env.platform);
            append_copies(&mut r, &from_json);
        },
        None => {
            r.push(copy_str("-Djava.library.path=${natives_directory}"));
            r.push(copy_str("-Djna.tmpdir=${natives_directory}"));
            r.push(copy_str("-Dorg.lwjgl.system.SharedLibraryExtractPath=${natives_directory}"));
            r.push(copy_str("-Dio.netty.native.workdir=${natives_directory}"));
            r.push(copy_str("-Dminecraft.launcher.brand=${launcher_name}"));
            r.push(copy_str("-Dminecraft.launcher.version=${launcher_version}"));
            r.push(copy_str("-cp"));
            r.push(copy_str("${classpath}"));
            assert(views(r@) =~= head + default_jvm_args());
        },
    }
    assert(views(r@) =~= jvm_unresolved_seq(*json, *ctx, *env));
    r
}

/// The game arguments of a launch, before substitution.
pub fn game_arguments(json: &VanillaVersionJson, ctx: &McLaunchCtx) -> (r: Vec<String>)
    ensures
        views(r@) == game_unresolved_seq(*json, *ctx),
{
    let mut r: Vec<String> = match &json.arguments {
        Some(a) => {
            let features = launch_features();
            game_args_from_json(&a.game, &features)
        },
        None => match &json.minecraftArguments {
            Some(m) => split_str(m.as_str(), " "),
            None => Vec::new(),
        },
    };
    append_copies(&mut r, &ctx.extra_game_args);
    r
}

/// The class path of a launch.
pub fn launch_class_path(env: &LaunchEnv) -> (cp: String)
    ensures
        cp@ == launch_class_path_seq(*env),
{
    let mut extra: Vec<String> = Vec::new();
    extra.push(copy_str(env.client_jar.as_str()));
    assert(views(extra@) =~= seq![env.client_jar@]);
    class_path(&env.lib_files, &extra, str_eq(env.platform.os.as_str(), "windows"))
}

/// A JVM argument with its placeholders filled in; `cp` is the launch's
/// class path.
pub fn resolve_jvm_argument(arg: &str, env: &LaunchEnv, cp: &str) -> (r: String)
    requires
        cp@ == launch_class_path_seq(*env),
    ensures
        r@ == resolve_jvm_seq(arg@, *env),
{
    let a1 = replace_str(arg, "${natives_directory}", env.libs_dir.as_str());
    let a2 = replace_str(a1.as_str(), "${classpath}", cp);
    let a3 = replace_str(a2.as_str(), "${launcher_name}", "mc_cli");
    replace_str(a3.as_str(), "${launcher_version}", env.launcher_version.as_str())
}

/// A game argument with its placeholders filled in.
pub fn resolve_game_argument(
    arg: &str,
    ctx: &McLaunchCtx,
    env: &LaunchEnv,
    version_type: &str,
    auth_uuid: &str,
    client_id: &str,
) -> (r: String)
    ensures
        r@ == resolve_game_seq(arg@, *ctx, *env, version_type@, auth_uuid@, client_id@),
{
    let a1 = replace_str(arg, "${auth_player_name}", ctx.username.as_str());
    let a2 = replace_str(a1.as_str(), "${player_name}", ctx.username.as_str());
    let a3 = replace_str(a2.as_str(), "${version_name}", env.version_name.as_str());
    let a4 = replace_str(a3.as_str(), "${game_directory}", env.game_dir.as_str());
    let a5 = replace_str(a4.as_str(), "${auth_uuid}", auth_uuid);
    let a6 = replace_str(a5.as_str(), "${auth_access_token}", "");
    let a7 = replace_str(a6.as_str(), "${clientid}", client_id);
    let a8 = replace_str(a7.as_str(), "${auth_xuid}", "0");
    let a9 = replace_str(a8.as_str(), "${user_type}", "legacy");
    let a10 = replace_str(a9.as_str(), "${version_type}", version_type);
    let a11 = replace_str(a10.as_str(), "${user_properties}", "{}");
    let a12 = replace_str(a11.as_str(), "${assets_index_name}", env.version_name.as_str());
    let a13 = replace_str(a12.as_str(), "${assets_root}", env.assets_dir.as_str());
    replace_str(a13.as_str(), "${game_assets}", env.assets_dir.as_str())
}

/// The views of a list of UUID pairs.
pub open spec fn id_views(ids: Seq<(String, String)>) -> Seq<(Seq<char>, Seq<char>)> {
    ids.map_values(|p: (String, String)| (p.0@, p.1@))
}

/// The Java command line of a launch, given one UUID pair per game
/// argument.
pub fn launch_command_with_ids(
    json: &VanillaVersionJson,
    ctx: &McLaunchCtx,
    env: &LaunchEnv,
    ids: &Vec<(String, String)>,
) -> (cmd: Vec<String>)
    requires
        ids@.len() == game_unresolved_seq(*json, *ctx).len(),
    ensures
        views(cmd@) == launch_command_seq(*json, *ctx, *env, id_views(ids@)),
{
    let cp = launch_class_path(env);
    let jvm = jvm_arguments(json, ctx, env);
    let game = game_arguments(json, ctx);
    let mut cmd: Vec<String> = Vec::new();
    let mut i: usize = 0;
    while i < jvm.len()
        invariant
            i <= jvm.len(),
            cp@ == launch_class_path_seq(*env),
            views(cmd@) == views(jvm@).take(i as int).map_values(
                |a: Seq<char>| resolve_jvm_seq(a, *env),
            ),
        decreases jvm.len() - i,
    {
        let ghost before = cmd@;
        cmd.push(resolve_jvm_argument(jvm[i].as_str(), env, cp.as_str()));
        assert(views(cmd@) =~= views(before).push(resolve_jvm_seq(jvm@[i as int]@, *env)));
        assert(views(jvm@).take(i + 1).map_values(|a: Seq<char>| resolve_jvm_seq(a, *env))
            =~= views(jvm@).take(i as int).map_values(|a: Seq<char>| resolve_jvm_seq(a, *env)).push(
            resolve_jvm_seq(jvm@[i as int]@, *env),
        ));
        i += 1;
    }
    assert(views(jvm@).take(jvm.len() as int) =~= views(jvm@));
    let main: &str = if ctx.launchwrapper {
        "net.minecraft.launchwrapper.Launch"
    } else {
        json.mainClass.as_str()
    };
    cmd.push(copy_str(main));
    let ghost head = views(cmd@);
    let ghost ids_v = id_views(ids@);
    let mut k: usize = 0;
    while k < game.len()
        invariant
            k <= game.len(),
            ids@.len() == game@.len(),
            ids_v == id_views(ids@),
            views(cmd@) == head + views(game@).take(k as int).map(
                |j: int, a: Seq<char>| resolve_game_seq(a, *ctx, *env, json.kind@, ids_v[j].0, ids_v[j].1),
            ),
        decreases game.len() - k,
    {
        let ghost before = cmd@;
        let resolved = resolve_game_argument(
            game[k].as_str(),
            ctx,
            env,
            json.kind.as_str(),
            ids[k].0.as_str(),
            ids[k].1.as_str(),
        );
        cmd.push(resolved);
        assert(views(cmd@) =~= views(before).push(resolved@));
        assert(views(game@).take(k + 1).map(
            |j: int, a: Seq<char>| resolve_game_seq(a, *ctx, *env, json.kind@, ids_v[j].0, ids_v[j].1),
        ) =~= views(game@).take(k as int).map(
            |j: int, a: Seq<char>| resolve_game_seq(a, *ctx, *env, json.kind@, ids_v[j].0, ids_v[j].1),
        ).push(resolved@));
        k += 1;
    }
    assert(views(game@).take(game.len() as int) =~= views(game@));
    assert(views(cmd@) =~= launch_command_seq(*json, *ctx, *env, id_views(ids@)));
    cmd
}

/// The Java command line of a launch, with two freshly drawn UUIDs for
/// each game argument: whichever UUIDs came back, the command is that of
/// `launch_command_with_ids` for them.
pub fn launch_command(json: &VanillaVersionJson, ctx: &McLaunchCtx, env: &LaunchEnv) -> (cmd: Vec<
    String,
>)
    ensures
        exists|ids: Seq<(Seq<char>, Seq<char>)>|
            #![trigger launch_command_seq(*json, *ctx, *env, ids)]
            ids.len() == game_unresolved_seq(*json, *ctx).len() && (forall|i: int|
                0 <= i < ids.len() ==> is_v4_uuid_text(#[trigger] ids[i].0) && is_v4_uuid_text(
                    ids[i].1,
                )) && views(cmd@) == launch_command_seq(*json, *ctx, *env, ids),
{
    let count = game_arguments(json, ctx).len();
    let mut ids: Vec<(String, String)> = Vec::new();
    let mut i: usize = 0;
    while i < count
        invariant
            i <= count,
            ids@.len() == i,
            forall|j: int|
                0 <= j < i ==> is_v4_uuid_text(#[trigger] id_views(ids@)[j].0) && is_v4_uuid_text(
                    id_views(ids@)[j].1,
                ),
        decreases count - i,
    {
        let auth = new_v4_uuid_text();
        let client = new_v4_uuid_text();
        let ghost before = ids@;
        let ghost pair = (auth@, client@);
        ids.push((auth, client));
        assert(id_views(ids@) =~= id_views(before).push(pair));
        i += 1;
    }
    let cmd = launch_command_with_ids(json, ctx, env, &ids);
    proof {
        let w = id_views(ids@);
        assert(w.len() == game_unresolved_seq(*json, *ctx).len());
        assert(views(cmd@) == launch_command_seq(*json, *ctx, *env, w));
        assert(forall|i: int| 0 <= i < w.len() ==> is_v4_uuid_text(#[trigger] w[i].0) && is_v4_uuid_text(w[i].1));
    }
    cmd
}

// ---------------------------------------------------------------------------
// What an install fetches
// ---------------------------------------------------------------------------

/// The version an install uses: the requested one, or else the latest
/// snapshot.
pub fn select_version(requested: Option<String>, manifest: &schema::VanillaManifest) -> (v: String)
    ensures
        v@ == match requested {
            Some(r) => r@,
            None => manifest.latest.snapshot@,
        },
{
    match requested {
        Some(r) => r,
        None => manifest.latest.snapshot.clone(),
    }
}

/// A library file to fetch: its path under the libraries directory, its
/// URL, and, for a native library that is unpacked, the entries to delete
/// after unpacking.
pub struct LibraryDownload {
    pub path: String,
    pub url: String,
    pub unpack_excluding: Option<Vec<String>>,
}

/// A planned download by its path, URL and unpacking exclusions.
pub open spec fn download_view(d: LibraryDownload) -> (Seq<char>, Seq<char>, Option<Seq<Seq<char>>>) {
    (
        d.path@,
        d.url@,
        match d.unpack_excluding {
            Some(e) => Some(views(e@)),
            None => None,
        },
    )
}

/// Whether a library's main artifact applies on the platform: it has no
/// rules, or one of them applies.
pub open spec fn library_applies(lib: schema::VanillaLibrary, p: Platform) -> bool {
    lib.rules is None || exists|i: int|
        0 <= i < lib.rules.unwrap()@.len() && os_rule_applies(#[trigger] lib.rules.unwrap()@[i], p)
}

/// The downloads of one library: its artifact when it applies, then the
/// native downloads the platform needs, to be unpacked when the library
/// says how.
pub open spec fn library_plan(lib: schema::VanillaLibrary, p: Platform) -> Seq<
    (Seq<char>, Seq<char>, Option<Seq<Seq<char>>>),
> {
    let unpack = match lib.extract {
        Some(e) => Some(views(e.exclude@)),
        None => None,
    };
    (if library_applies(lib, p) && lib.downloads.artifact is Some {
        seq![(lib.downloads.artifact.unwrap().path@, lib.downloads.artifact.unwrap().url@, None)]
    } else {
        Seq::empty()
    }) + match lib.downloads.classifiers {
        Some(c) => schema::needed_classifiers(c, p).map_values(
            |d: schema::VanillaLibraryDownload| (d.path@, d.url@, unpack),
        ),
        None => Seq::empty(),
    }
}

/// The downloads of all libraries, library by library.
pub open spec fn libraries_plan(libs: Seq<schema::VanillaLibrary>, p: Platform) -> Seq<
    (Seq<char>, Seq<char>, Option<Seq<Seq<char>>>),
>
    decreases libs.len(),
{
    if libs.len() == 0 {
        Seq::empty()
    } else {
        libraries_plan(libs.drop_last(), p) + library_plan(libs.last(), p)
    }
}

fn copy_strings(v: &Vec<String>) -> (r: Vec<String>)
    ensures
        views(r@) == views(v@),
{
    let mut r: Vec<String> = Vec::new();
    append_copies(&mut r, v);
    assert(views(r@) =~= views(v@));
    r
}

fn library_applies_exec(lib: &schema::VanillaLibrary, platform: &Platform) -> (r: bool)
    ensures
        r == library_applies(*lib, *platform),
{
    match &lib.rules {
        None => true,
        Some(rules) => {
            let mut i: usize = 0;
            while i < rules.len()
                invariant
                    i <= rules.len(),
                    lib.rules == Some(*rules),
                    forall|j: int| 0 <= j < i ==> !os_rule_applies(#[trigger] rules@[j], *platform),
                decreases rules.len() - i,
            {
                if matches_os_rule(&rules[i], platform) {
                    assert(os_rule_applies(rules@[i as int], *platform));
                    assert(lib.rules.unwrap()@[i as int] == rules@[i as int]);
                    return true;
                }
                i += 1;
            }
            false
        },
    }
}

/// The files to fetch for the libraries of a version document.
pub fn library_downloads(json: &VanillaVersionJson, platform: &Platform) -> (r: Vec<LibraryDownload>)
    ensures
        r@.map_values(|d: LibraryDownload| download_view(d)) == libraries_plan(
            json.libraries@,
            *platform,
        ),
{
    let libs = &json.libraries;
    let mut r: Vec<LibraryDownload> = Vec::new();
    let mut i: usize = 0;
    while i < libs.len()
        invariant
            i <= libs.len(),
            r@.map_values(|d: LibraryDownload| download_view(d)) == libraries_plan(
                libs@.take(i as int),
                *platform,
            ),
        decreases libs.len() - i,
    {
        let lib = &libs[i];
        assert(libs@.take(i + 1).drop_last() =~= libs@.take(i as int));
        assert(libs@.take(i + 1).last() == libs@[i as int]);
        let ghost start = r@.map_values(|d: LibraryDownload| download_view(d));
        let ghost unpack = match &lib.extract {
            Some(e) => Some(views(e.exclude@)),
            None => None,
        };
        if library_applies_exec(lib, platform) {
            if let Some(a) = &lib.downloads.artifact {
                let ghost before = r@;
                r.push(
                    LibraryDownload {
                        path: a.path.clone(),
                        url: a.url.clone(),
                        unpack_excluding: None,
                    },
                );
                assert(r@.map_values(|d: LibraryDownload| download_view(d)) =~= before.map_values(
                    |d: LibraryDownload| download_view(d),
                ).push((a.path@, a.url@, None)));
            }
        }
        let ghost mid = r@.map_values(|d: LibraryDownload| download_view(d));
        assert(mid == start + (if library_applies(*lib, *platform)
            && lib.downloads.artifact is Some {
            seq![(lib.downloads.artifact.unwrap().path@, lib.downloads.artifact.unwrap().url@, None)]
        } else {
            Seq::empty()
        }));
        if let Some(c) = &lib.downloads.classifiers {
            let needed = schema::classifiers_needed(c, platform);
            let ghost target = schema::needed_classifiers(*c, *platform).map_values(
                |d: schema::VanillaLibraryDownload| (d.path@, d.url@, unpack),
            );
            let mut k: usize = 0;
            while k < needed.len()
                invariant
                    k <= needed.len(),
                    needed@.map_values(|x: &schema::VanillaLibraryDownload| *x)
                        == schema::needed_classifiers(*c, *platform),
                    target == schema::needed_classifiers(*c, *platform).map_values(
                        |d: schema::VanillaLibraryDownload| (d.path@, d.url@, unpack),
                    ),
                    unpack == match &lib.extract {
                        Some(e) => Some(views(e.exclude@)),
                        None => None,
                    },
                    r@.map_values(|d: LibraryDownload| download_view(d)) == mid + target.take(
                        k as int,
                    ),
                decreases needed.len() - k,
            {
                let d = needed[k];
                assert(*d == schema::needed_classifiers(*c, *platform)[k as int]);
                let unpack_excluding = match &lib.extract {
                    Some(e) => Some(copy_strings(&e.exclude)),
                    None => None,
                };
                let item = LibraryDownload {
                    path: d.path.clone(),
                    url: d.url.clone(),
                    unpack_excluding,
                };
                assert(download_view(item) == target[k as int]);
                let ghost before = r@;
                r.push(item);
                assert(r@.map_values(|d: LibraryDownload| download_view(d)) =~= before.map_values(
                    |d: LibraryDownload| download_view(d),
                ).push(target[k as int]));
                assert(target.take(k + 1) =~= target.take(k as int).push(target[k as int]));
                k += 1;
            }
            assert(target.take(needed.len() as int) =~= target);
        }
        i += 1;
    }
    assert(libs@.take(libs.len() as int) =~= libs@);
    r
}

/// The hash's first two UTF-8 bytes end on a character boundary: it begins
/// with two one-byte characters, or with one two-byte character.
pub open spec fn has_two_byte_prefix(hash: Seq<char>) -> bool {
    ||| hash.len() >= 2 && (hash[0] as int) < 0x80 && (hash[1] as int) < 0x80
    ||| hash.len() >= 1 && 0x80 <= (hash[0] as int) < 0x800
}

/// The characters of the hash's first two UTF-8 bytes.
pub open spec fn asset_dir_seq(hash: Seq<char>) -> Seq<char> {
    if (hash[0] as int) < 0x80 {
        hash.take(2)
    } else {
        hash.take(1)
    }
}

/// Where the asset with a hash is fetched from: the resources host, the
/// hash's first two bytes as directory, then the hash.
pub open spec fn asset_url_seq(hash: Seq<char>) -> Seq<char> {
    "https://resources.download.minecraft.net/"@ + asset_dir_seq(hash) + "/"@ + hash
}

/// The directory of an asset: the first two bytes of its hash, which must
/// end on a character boundary.
pub fn asset_dir(hash: &str) -> (d: String)
    requires
        has_two_byte_prefix(hash@),
    ensures
        d@ == asset_dir_seq(hash@),
{
    let v = crate::text::to_chars(hash);
    let n: usize = if v[0] <= '\x7f' {
        2
    } else {
        1
    };
    let d = crate::text::from_chars(&v, 0, n);
    assert(d@ =~= asset_dir_seq(hash@));
    d
}

/// Where the asset with a hash is fetched from.
pub fn asset_url(hash: &str) -> (url: String)
    requires
        has_two_byte_prefix(hash@),
    ensures
        url@ == asset_url_seq(hash@),
{
    let mut url = copy_str("https://resources.download.minecraft.net/");
    let d = asset_dir(hash);
    url.append(d.as_str());
    url.append("/");
    url.append(hash);
    url
}

/// The command is the substituted JVM arguments, then the main class, then
/// one substituted game argument per game argument.
pub proof fn law_launch_command_shape(
    json: VanillaVersionJson,
    ctx: McLaunchCtx,
    env: LaunchEnv,
    ids: Seq<(Seq<char>, Seq<char>)>,
)
    ensures
        ({
            let cmd = launch_command_seq(json, ctx, env, ids);
            let j = jvm_unresolved_seq(json, ctx, env).len();
            &&& cmd.len() == j + 1 + game_unresolved_seq(json, ctx).len()
            &&& cmd[j as int] == main_class_seq(json, ctx)
            &&& cmd[0] == resolve_jvm_seq("-Xmx"@ + ctx.limit@, env)
        }),
{
}

/// A replacement whose pattern cannot occur in `s` (by `lemma_absent_by_head`)
/// leaves `s` as it is.
proof fn lemma_keep(s: Seq<char>, pat: Seq<char>, to: Seq<char>, k: int)
    requires
        pat.len() > 0,
        forall|i: int| 0 < i < s.len() ==> s[i] != pat[0],
        pat.len() > s.len() || (0 <= k < pat.len() && k < s.len() && s[k] != pat[k]),
    ensures
        replace_seq(s, pat, to) == s,
{
    lemma_absent_by_head(s, pat, k);
    lemma_replace_absent(s, pat, to);
}


/// A game argument that is the placeholder `${game_assets}` becomes the
/// assets directory; so does `${assets_root}`, when the assets directory's
/// path does not itself hold the text `${game_assets}`.
pub proof fn law_asset_placeholders_resolve_to_assets_dir(
    arg: Seq<char>,
    ctx: McLaunchCtx,
    env: LaunchEnv,
    version_type: Seq<char>,
    auth_uuid: Seq<char>,
    client_id: Seq<char>,
)
    requires
        arg == "${game_assets}"@ || (arg == "${assets_root}"@ && forall|k: int|
            !occurs_at(env.assets_dir@, "${game_assets}"@, k)),
    ensures
        resolve_game_seq(arg, ctx, env, version_type, auth_uuid, client_id) == env.assets_dir@,
{
    reveal_strlit("${auth_player_name}");
    reveal_strlit("${player_name}");
    reveal_strlit("${version_name}");
    reveal_strlit("${game_directory}");
    reveal_strlit("${auth_uuid}");
    reveal_strlit("${auth_access_token}");
    reveal_strlit("${clientid}");
    reveal_strlit("${auth_xuid}");
    reveal_strlit("${user_type}");
    reveal_strlit("${version_type}");
    reveal_strlit("${user_properties}");
    reveal_strlit("${assets_index_name}");
    reveal_strlit("${assets_root}");
    reveal_strlit("${game_assets}");
    let u = ctx.username@;
    if arg == "${game_assets}"@ {
        lemma_keep(arg, "${auth_player_name}"@, u, 0);
        lemma_keep(arg, "${player_name}"@, u, 2);
        lemma_keep(arg, "${version_name}"@, env.version_name@, 2);
        lemma_keep(arg, "${game_directory}"@, env.game_dir@, 0);
        lemma_keep(arg, "${auth_uuid}"@, auth_uuid, 2);
        lemma_keep(arg, "${auth_access_token}"@, ""@, 0);
        lemma_keep(arg, "${clientid}"@, client_id, 2);
        lemma_keep(arg, "${auth_xuid}"@, "0"@, 2);
        lemma_keep(arg, "${user_type}"@, "legacy"@, 2);
        lemma_keep(arg, "${version_type}"@, version_type, 2);
        lemma_keep(arg, "${user_properties}"@, "{}"@, 0);
        lemma_keep(arg, "${assets_index_name}"@, env.version_name@, 0);
        lemma_keep(arg, "${assets_root}"@, env.assets_dir@, 2);
        lemma_replace_whole(arg, env.assets_dir@);
    } else {
        lemma_keep(arg, "${auth_player_name}"@, u, 0);
        lemma_keep(arg, "${player_name}"@, u, 2);
        lemma_keep(arg, "${version_name}"@, env.version_name@, 0);
        lemma_keep(arg, "${game_directory}"@, env.game_dir@, 0);
        lemma_keep(arg, "${auth_uuid}"@, auth_uuid, 3);
        lemma_keep(arg, "${auth_access_token}"@, ""@, 0);
        lemma_keep(arg, "${clientid}"@, client_id, 2);
        lemma_keep(arg, "${auth_xuid}"@, "0"@, 3);
        lemma_keep(arg, "${user_type}"@, "legacy"@, 2);
        lemma_keep(arg, "${version_type}"@, version_type, 0);
        lemma_keep(arg, "${user_properties}"@, "{}"@, 0);
        lemma_keep(arg, "${assets_index_name}"@, env.version_name@, 0);
        lemma_replace_whole(arg, env.assets_dir@);
        lemma_replace_absent(env.assets_dir@, "${game_assets}"@, env.assets_dir@);
    }
}

/// In the launch command, each game argument that is `${game_assets}`, or
/// `${assets_root}` (for an assets directory whose path does not hold the
/// text `${game_assets}`), stands as the assets directory, at its place after
/// the JVM arguments and the main class.
pub proof fn law_launch_command_assets_dir(
    json: VanillaVersionJson,
    ctx: McLaunchCtx,
    env: LaunchEnv,
    ids: Seq<(Seq<char>, Seq<char>)>,
    i: int,
)
    requires
        0 <= i < game_unresolved_seq(json, ctx).len(),
        game_unresolved_seq(json, ctx)[i] == "${game_assets}"@ || (game_unresolved_seq(json, ctx)[i]
            == "${assets_root}"@ && forall|k: int| !occurs_at(env.assets_dir@, "${game_assets}"@, k)),
    ensures
        launch_command_seq(json, ctx, env, ids)[jvm_unresolved_seq(json, ctx, env).len() + 1 + i]
            == env.assets_dir@,
{
    law_asset_placeholders_resolve_to_assets_dir(
        game_unresolved_seq(json, ctx)[i],
        ctx,
        env,
        json.kind@,
        ids[i].0,
        ids[i].1,
    );
}

/// A library's artifact is planned, first among its downloads, when the
/// library has no rules or when any one of its rules applies on the
/// platform (a rule without an operating-system part always does), whatever
/// the other rules say.
pub proof fn law_artifact_planned_when_a_rule_applies(
    lib: schema::VanillaLibrary,
    p: Platform,
    i: int,
)
    requires
        lib.downloads.artifact is Some,
        lib.rules is None || (0 <= i < lib.rules.unwrap()@.len() && (lib.rules.unwrap()@[i].os is None
            || os_rule_applies(lib.rules.unwrap()@[i], p))),
    ensures
        library_plan(lib, p).len() >= 1,
        library_plan(lib, p)[0] == (
            lib.downloads.artifact.unwrap().path@,
            lib.downloads.artifact.unwrap().url@,
            None::<Seq<Seq<char>>>,
        ),
{
    if lib.rules is Some {
        assert(os_rule_applies(lib.rules.unwrap()@[i], p));
    }
}

/// Every download planned for one of a version's libraries is in the plan
/// of the version.
pub proof fn lemma_libraries_plan_has_each(libs: Seq<schema::VanillaLibrary>, p: Platform, k: int, j: int)
    requires
        0 <= k < libs.len(),
        0 <= j < library_plan(libs[k], p).len(),
    ensures
        libraries_plan(libs, p).contains(library_plan(libs[k], p)[j]),
    decreases libs.len(),
{
    let init = libs.drop_last();
    let whole = libraries_plan(libs, p);
    let head = libraries_plan(init, p);
    if k == libs.len() - 1 {
        assert(whole[head.len() + j] == library_plan(libs[k], p)[j]);
    } else {
        assert(init[k] == libs[k]);
        lemma_libraries_plan_has_each(init, p, k, j);
        let m = choose|m: int| 0 <= m < head.len() && head[m] == library_plan(libs[k], p)[j];
        assert(whole[m] == head[m]);
    }
}

/// A library's artifact is in the version's download plan when the library
/// has no rules or any one of its rules applies on the platform.
pub proof fn law_version_plan_has_artifact(libs: Seq<schema::VanillaLibrary>, p: Platform, k: int, i: int)
    requires
        0 <= k < libs.len(),
        libs[k].downloads.artifact is Some,
        libs[k].rules is None || (0 <= i < libs[k].rules.unwrap()@.len() && (
        libs[k].rules.unwrap()@[i].os is None || os_rule_applies(libs[k].rules.unwrap()@[i], p))),
    ensures
        libraries_plan(libs, p).contains(
            (
                libs[k].downloads.artifact.unwrap().path@,
                libs[k].downloads.artifact.unwrap().url@,
                None::<Seq<Seq<char>>>,
            ),
        ),
{
    law_artifact_planned_when_a_rule_applies(libs[k], p, i);
    lemma_libraries_plan_has_each(libs, p, k, 0);
}

/// A placeholder of a launch argument: `$`, then text, then `}`, with `$`
/// only at its start and `}` only at its end (such as `${classpath}`).
pub open spec fn is_placeholder(s: Seq<char>) -> bool {
    &&& s.len() >= 2
    &&& s[0] == '$'
    &&& s[s.len() - 1] == '}'
    &&& forall|i: int| 0 < i < s.len() ==> s[i] != '$'
    &&& forall|i: int| 0 <= i < s.len() - 1 ==> s[i] != '}'
}

/// Replacing a placeholder in a string that is a placeholder, or holds no
/// `$`, gives the replacement when the string is that placeholder and
/// leaves it as it is otherwise.
proof fn lemma_replace_step(s: Seq<char>, pat: Seq<char>, to: Seq<char>)
    requires
        is_placeholder(pat),
        is_placeholder(s) || !s.contains('$'),
    ensures
        replace_seq(s, pat, to) == if s == pat {
            to
        } else {
            s
        },
{
    if s == pat {
        lemma_replace_whole(s, to);
    } else {
        assert forall|i: int| !occurs_at(s, pat, i) by {
            if occurs_at(s, pat, i) {
                let sub = s.subrange(i, i + pat.len());
                assert(sub[0] == pat[0]);
                assert(s[i] == '$');
                if !is_placeholder(s) {
                    assert(s.contains('$'));
                } else {
                    assert(i == 0);
                    assert(sub[pat.len() - 1] == '}');
                    assert(s[pat.len() - 1] == '}');
                    assert(pat.len() == s.len());
                    assert(s =~= pat);
                }
            }
        }
        lemma_replace_absent(s, pat, to);
    }
}

/// The placeholders of game arguments are placeholders, told apart by
/// their lengths and characters.
proof fn lemma_game_placeholders()
    ensures
        is_placeholder("${auth_player_name}"@) && "${auth_player_name}"@.len() == 19,
        is_placeholder("${player_name}"@) && "${player_name}"@.len() == 14 && "${player_name}"@[2] == 'p',
        is_placeholder("${version_name}"@) && "${version_name}"@.len() == 15 && "${version_name}"@[10] == 'n',
        is_placeholder("${game_directory}"@) && "${game_directory}"@.len() == 17,
        is_placeholder("${auth_uuid}"@) && "${auth_uuid}"@.len() == 12 && "${auth_uuid}"@[2] == 'a'
            && "${auth_uuid}"@[7] == 'u',
        is_placeholder("${auth_access_token}"@) && "${auth_access_token}"@.len() == 20
            && "${auth_access_token}"@[3] == 'u',
        is_placeholder("${clientid}"@) && "${clientid}"@.len() == 11,
        is_placeholder("${auth_xuid}"@) && "${auth_xuid}"@.len() == 12 && "${auth_xuid}"@[2] == 'a'
            && "${auth_xuid}"@[7] == 'x',
        is_placeholder("${user_type}"@) && "${user_type}"@.len() == 12 && "${user_type}"@[2] == 'u',
        is_placeholder("${version_type}"@) && "${version_type}"@.len() == 15 && "${version_type}"@[10] == 't',
        is_placeholder("${user_properties}"@) && "${user_properties}"@.len() == 18,
        is_placeholder("${assets_index_name}"@) && "${assets_index_name}"@.len() == 20
            && "${assets_index_name}"@[3] == 's',
        is_placeholder("${assets_root}"@) && "${assets_root}"@.len() == 14 && "${assets_root}"@[2] == 'a',
        is_placeholder("${game_assets}"@) && "${game_assets}"@.len() == 14 && "${game_assets}"@[2] == 'g',
        !""@.contains('$'),
        !"0"@.contains('$'),
        !"legacy"@.contains('$'),
        !"{}"@.contains('$'),
{
    reveal_strlit("${auth_player_name}");
    reveal_strlit("${player_name}");
    reveal_strlit("${version_name}");
    reveal_strlit("${game_directory}");
    reveal_strlit("${auth_uuid}");
    reveal_strlit("${auth_access_token}");
    reveal_strlit("${clientid}");
    reveal_strlit("${auth_xuid}");
    reveal_strlit("${user_type}");
    reveal_strlit("${version_type}");
    reveal_strlit("${user_properties}");
    reveal_strlit("${assets_index_name}");
    reveal_strlit("${assets_root}");
    reveal_strlit("${game_assets}");
    reveal_strlit("");
    reveal_strlit("0");
    reveal_strlit("legacy");
    reveal_strlit("{}");
}

/// Filling in a game argument: an argument without `$` is left as it is;
/// an argument that is one placeholder becomes its value: the player name
/// for `${auth_player_name}` and `${player_name}`, the version directory's
/// name for `${version_name}` and `${assets_index_name}`, the game directory
/// for `${game_directory}`, the drawn UUIDs for `${auth_uuid}` and
/// `${clientid}`, an empty token, `0`, `legacy`, the version's type and `{}`
/// for the access token, XUID, user type, version type and user properties,
/// and the assets directory for `${assets_root}` and `${game_assets}`; any
/// other placeholder is left as it is. The values must hold no `$`.
pub proof fn law_game_argument_placeholders(
    arg: Seq<char>,
    ctx: McLaunchCtx,
    env: LaunchEnv,
    version_type: Seq<char>,
    auth_uuid: Seq<char>,
    client_id: Seq<char>,
)
    requires
        is_placeholder(arg) || !arg.contains('$'),
        !ctx.username@.contains('$'),
        !env.version_name@.contains('$'),
        !env.game_dir@.contains('$'),
        !env.assets_dir@.contains('$'),
        !version_type.contains('$'),
        !auth_uuid.contains('$'),
        !client_id.contains('$'),
    ensures
        resolve_game_seq(arg, ctx, env, version_type, auth_uuid, client_id) == if arg
            == "${auth_player_name}"@ || arg == "${player_name}"@ {
            ctx.username@
        } else if arg == "${version_name}"@ || arg == "${assets_index_name}"@ {
            env.version_name@
        } else if arg == "${game_directory}"@ {
            env.game_dir@
        } else if arg == "${auth_uuid}"@ {
            auth_uuid
        } else if arg == "${auth_access_token}"@ {
            Seq::empty()
        } else if arg == "${clientid}"@ {
            client_id
        } else if arg == "${auth_xuid}"@ {
            seq!['0']
        } else if arg == "${user_type}"@ {
            "legacy"@
        } else if arg == "${version_type}"@ {
            version_type
        } else if arg == "${user_properties}"@ {
            seq!['{', '}']
        } else if arg == "${assets_root}"@ || arg == "${game_assets}"@ {
            env.assets_dir@
        } else {
            arg
        },
{
    lemma_game_placeholders();
    reveal_strlit("");
    reveal_strlit("0");
    reveal_strlit("{}");
    let a1 = replace_seq(arg, "${auth_player_name}"@, ctx.username@);
    lemma_replace_step(arg, "${auth_player_name}"@, ctx.username@);
    let a2 = replace_seq(a1, "${player_name}"@, ctx.username@);
    lemma_replace_step(a1, "${player_name}"@, ctx.username@);
    let a3 = replace_seq(a2, "${version_name}"@, env.version_name@);
    lemma_replace_step(a2, "${version_name}"@, env.version_name@);
    let a4 = replace_seq(a3, "${game_directory}"@, env.game_dir@);
    lemma_replace_step(a3, "${game_directory}"@, env.game_dir@);
    let a5 = replace_seq(a4, "${auth_uuid}"@, auth_uuid);
    lemma_replace_step(a4, "${auth_uuid}"@, auth_uuid);
    let a6 = replace_seq(a5, "${auth_access_token}"@, ""@);
    lemma_replace_step(a5, "${auth_access_token}"@, ""@);
    let a7 = replace_seq(a6, "${clientid}"@, client_id);
    lemma_replace_step(a6, "${clientid}"@, client_id);
    let a8 = replace_seq(a7, "${auth_xuid}"@, "0"@);
    lemma_replace_step(a7, "${auth_xuid}"@, "0"@);
    let a9 = replace_seq(a8, "${user_type}"@, "legacy"@);
    lemma_replace_step(a8, "${user_type}"@, "legacy"@);
    let a10 = replace_seq(a9, "${version_type}"@, version_type);
    lemma_replace_step(a9, "${version_type}"@, version_type);
    let a11 = replace_seq(a10, "${user_properties}"@, "{}"@);
    lemma_replace_step(a10, "${user_properties}"@, "{}"@);
    let a12 = replace_seq(a11, "${assets_index_name}"@, env.version_name@);
    lemma_replace_step(a11, "${assets_index_name}"@, env.version_name@);
    let a13 = replace_seq(a12, "${assets_root}"@, env.assets_dir@);
    lemma_replace_step(a12, "${assets_root}"@, env.assets_dir@);
    lemma_replace_step(a13, "${game_assets}"@, env.assets_dir@);
    assert(""@ =~= Seq::<char>::empty());
    assert("0"@ =~= seq!['0']);
    assert("{}"@ =~= seq!['{', '}']);
}

/// Filling in a JVM argument: an argument without `$` is left as it is;
/// `${natives_directory}` becomes the libraries directory, `${classpath}` the
/// launch's class path, `${launcher_name}` `mc_cli` and `${launcher_version}`
/// the launcher's version; any other placeholder is left as it is. The
/// values must hold no `$`.
pub proof fn law_jvm_argument_placeholders(arg: Seq<char>, env: LaunchEnv)
    requires
        is_placeholder(arg) || !arg.contains('$'),
        !env.libs_dir@.contains('$'),
        !launch_class_path_seq(env).contains('$'),
        !env.launcher_version@.contains('$'),
    ensures
        resolve_jvm_seq(arg, env) == if arg == "${natives_directory}"@ {
            env.libs_dir@
        } else if arg == "${classpath}"@ {
            launch_class_path_seq(env)
        } else if arg == "${launcher_name}"@ {
            seq!['m', 'c', '_', 'c', 'l', 'i']
        } else if arg == "${launcher_version}"@ {
            env.launcher_version@
        } else {
            arg
        },
{
    reveal_strlit("${natives_directory}");
    reveal_strlit("${classpath}");
    reveal_strlit("${launcher_name}");
    reveal_strlit("${launcher_version}");
    reveal_strlit("mc_cli");
    assert(is_placeholder("${natives_directory}"@));
    assert(is_placeholder("${classpath}"@));
    assert(is_placeholder("${launcher_name}"@));
    assert(is_placeholder("${launcher_version}"@));
    assert("mc_cli"@ =~= seq!['m', 'c', '_', 'c', 'l', 'i']);
    assert(!"mc_cli"@.contains('$'));
    let a1 = replace_seq(arg, "${natives_directory}"@, env.libs_dir@);
    lemma_replace_step(arg, "${natives_directory}"@, env.libs_dir@);
    let a2 = replace_seq(a1, "${classpath}"@, launch_class_path_seq(env));
    lemma_replace_step(a1, "${classpath}"@, launch_class_path_seq(env));
    let a3 = replace_seq(a2, "${launcher_name}"@, "mc_cli"@);
    lemma_replace_step(a2, "${launcher_name}"@, "mc_cli"@);
    lemma_replace_step(a3, "${launcher_version}"@, env.launcher_version@);
}

/// The file is a `.jar` file.
pub open spec fn is_jar(e: PathEntry) -> bool {
    e.extension matches Some(x) && x@ == "jar"@
}

/// When mods are loaded as Java agents, each `.jar` file among the mods is
/// passed as `-javaagent:` with its path, and every agent argument is that of
/// a `.jar` mod.
pub proof fn law_agent_args(mods: Seq<PathEntry>)
    ensures
        forall|i: int|
            0 <= i < mods.len() && is_jar(#[trigger] mods[i]) ==> agent_args_seq(mods).contains(
                "-javaagent:"@ + mods[i].path@,
            ),
        forall|k: int|
            #![trigger agent_args_seq(mods)[k]]
            0 <= k < agent_args_seq(mods).len() ==> exists|i: int|
                #![trigger mods[i]]
                0 <= i < mods.len() && is_jar(mods[i]) && agent_args_seq(mods)[k] == "-javaagent:"@
                    + mods[i].path@,
    decreases mods.len(),
{
    if mods.len() > 0 {
        let init = mods.drop_last();
        law_agent_args(init);
        let a = agent_args_seq(mods);
        let h = agent_args_seq(init);
        assert forall|i: int| 0 <= i < mods.len() && is_jar(#[trigger] mods[i]) implies a.contains(
            "-javaagent:"@ + mods[i].path@,
        ) by {
            if i < mods.len() - 1 {
                assert(init[i] == mods[i]);
                assert(h.contains("-javaagent:"@ + init[i].path@));
                let m = choose|m: int| 0 <= m < h.len() && h[m] == "-javaagent:"@ + init[i].path@;
                assert(a[m] == h[m]);
            } else {
                assert(a[h.len() as int] == "-javaagent:"@ + mods[i].path@);
            }
        }
        assert forall|k: int| #![trigger a[k]] 0 <= k < a.len() implies exists|i: int|
            #![trigger mods[i]]
            0 <= i < mods.len() && is_jar(mods[i]) && a[k] == "-javaagent:"@ + mods[i].path@ by {
            if k < h.len() {
                assert(a[k] == h[k]);
                let i = choose|i: int|
                    #![trigger init[i]]
                    0 <= i < init.len() && is_jar(init[i]) && h[k] == "-javaagent:"@ + init[i].path@;
                assert(init[i] == mods[i]);
            } else {
                let j = mods.len() - 1;
                assert(mods[j] == mods.last());
                assert(a[k] == "-javaagent:"@ + mods[j].path@);
            }
        }
    }
}

/// The game starts with LaunchWrapper's class when asked, else with the
/// version document's main class; that class stands right after the JVM
/// arguments. The extra game arguments end the command, in order, and a
/// version without structured arguments has its legacy argument string
/// split at spaces, which joined with spaces give that string back.
pub proof fn law_launch_command_class_and_arguments(
    json: VanillaVersionJson,
    ctx: McLaunchCtx,
    env: LaunchEnv,
    ids: Seq<(Seq<char>, Seq<char>)>,
)
    ensures
        ({
            let cmd = launch_command_seq(json, ctx, env, ids);
            let j = jvm_unresolved_seq(json, ctx, env).len();
            &&& ctx.launchwrapper ==> cmd[j as int] == "net.minecraft.launchwrapper.Launch"@
            &&& !ctx.launchwrapper ==> cmd[j as int] == json.mainClass@
        }),
        ({
            let g = game_unresolved_seq(json, ctx);
            let e = views(ctx.extra_game_args@);
            &&& g.len() >= e.len()
            &&& g.skip(g.len() - e.len()) == e
        }),
        json.arguments is None ==> (json.minecraftArguments matches Some(m) ==> join_seq(
            game_unresolved_seq(json, ctx).take(
                game_unresolved_seq(json, ctx).len() - ctx.extra_game_args@.len(),
            ),
            " "@,
        ) == m@),
{
    let g = game_unresolved_seq(json, ctx);
    let e = views(ctx.extra_game_args@);
    let head = match json.arguments {
        Some(a) => game_args_seq(a.game@, launch_features_map()),
        None => match json.minecraftArguments {
            Some(m) => split_seq(m@, " "@),
            None => Seq::empty(),
        },
    };
    assert(g == head + e);
    assert(g.skip(g.len() - e.len()) =~= e);
    assert(g.take(g.len() - ctx.extra_game_args@.len()) =~= head);
    if json.arguments is None {
        if let Some(m) = json.minecraftArguments {
            reveal_strlit(" ");
            crate::text::lemma_join_split(m@, " "@);
        }
    }
}

} // verus!
