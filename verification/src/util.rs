//! Launcher directories, class path assembly and the naming of installed
//! version directories.
use vstd::prelude::*;

use crate::text::{join_seq, starts_with, starts_with_seq, strip_prefix, strip_prefix_seq, views, join_strings, copy_str};

verus! {

/// The directories the launcher keeps its data in.
#[derive(Clone)]
pub struct LauncherDirs {
    pub root_dir: std::path::PathBuf,
    pub game_dir: std::path::PathBuf,
    pub assets_dir: std::path::PathBuf,
    pub vers_dir: std::path::PathBuf,
}

/// A file found on disk: its path as text and the extension of its name.
pub struct PathEntry {
    pub path: String,
    pub extension: Option<String>,
}

/// The file is a `.jar` or `.zip` archive.
pub open spec fn is_archive(e: PathEntry) -> bool {
    e.extension matches Some(x) && (x@ == "jar"@ || x@ == "zip"@)
}

/// Whether the entry names a `.jar` or `.zip` archive.
pub fn is_archive_entry(e: &PathEntry) -> (r: bool)
    ensures
        r == is_archive(*e),
{
    match &e.extension {
        Some(x) => crate::text::str_eq(x.as_str(), "jar") || crate::text::str_eq(x.as_str(), "zip"),
        None => false,
    }
}

/// The paths of the archive entries, in order.
pub open spec fn archive_paths(entries: Seq<PathEntry>) -> Seq<Seq<char>>
    decreases entries.len(),
{
    if entries.len() == 0 {
        Seq::empty()
    } else {
        let rest = archive_paths(entries.drop_last());
        if is_archive(entries.last()) {
            rest.push(entries.last().path@)
        } else {
            rest
        }
    }
}

/// The paths of the `.jar` and `.zip` files among `entries`, in order.
pub fn archive_entries(entries: &Vec<PathEntry>) -> (paths: Vec<String>)
    ensures
        views(paths@) == archive_paths(entries@),
{
    let mut paths: Vec<String> = Vec::new();
    let mut i: usize = 0;
    while i < entries.len()
        invariant
            i <= entries.len(),
            views(paths@) == archive_paths(entries@.take(i as int)),
        decreases entries.len() - i,
    {
        assert(entries@.take(i + 1).drop_last() =~= entries@.take(i as int));
        if is_archive_entry(&entries[i]) {
            let ghost before = paths@;
            paths.push(copy_str(entries[i].path.as_str()));
            assert(views(paths@) =~= views(before).push(entries@[i as int].path@));
        }
        i += 1;
    }
    assert(entries@.take(entries.len() as int) =~= entries@);
    paths
}

/// The class path separator: `;` on Windows, `:` elsewhere.
pub open spec fn class_path_separator(windows: bool) -> Seq<char> {
    if windows {
        ";"@
    } else {
        ":"@
    }
}

/// The separator between class path entries.
pub fn class_path_sep(windows: bool) -> (s: &'static str)
    ensures
        s@ == class_path_separator(windows),
{
    if windows {
        ";"
    } else {
        ":"
    }
}

/// The class path: the archives among `libs`, then `extra`, joined with the
/// platform's separator.
pub fn class_path(libs: &Vec<PathEntry>, extra: &Vec<String>, windows: bool) -> (cp: String)
    ensures
        cp@ == join_seq(archive_paths(libs@) + views(extra@), class_path_separator(windows)),
{
    let mut all = archive_entries(libs);
    let ghost first = views(all@);
    let mut i: usize = 0;
    while i < extra.len()
        invariant
            i <= extra.len(),
            views(all@) == first + views(extra@).take(i as int),
        decreases extra.len() - i,
    {
        let ghost before = all@;
        all.push(copy_str(extra[i].as_str()));
        assert(views(all@) =~= views(before).push(extra@[i as int]@));
        assert(views(extra@).take(i + 1) =~= views(extra@).take(i as int).push(extra@[i as int]@));
        i += 1;
    }
    assert(views(extra@).take(extra.len() as int) =~= views(extra@));
    join_strings(&all, class_path_sep(windows))
}

/// The kind of an installed version directory, judged by its name's prefix.
pub open spec fn version_dir_kind(name: Seq<char>) -> Seq<char> {
    if starts_with_seq(name, "fabric-"@) {
        "fabric"@
    } else if starts_with_seq(name, "liteloader-"@) {
        "liteloader"@
    } else if starts_with_seq(name, "quilt-"@) {
        "quilt"@
    } else if starts_with_seq(name, "risugami-"@) {
        "risugami"@
    } else if starts_with_seq(name, "ornithe-"@) {
        "ornithe"@
    } else if starts_with_seq(name, "babric-"@) {
        "babric"@
    } else if starts_with_seq(name, "labric-"@) {
        "legacy_fabric"@
    } else {
        "vanilla"@
    }
}

/// The version name shown for an installed directory: the name without the
/// `kind-` prefix where it has one.
pub open spec fn version_dir_label(name: Seq<char>) -> Seq<char> {
    match strip_prefix_seq(name, version_dir_kind(name) + "-"@) {
        Some(rest) => rest,
        None => name,
    }
}

/// The kind and the shown name of an installed version directory.
pub fn classify_version_dir(name: &str) -> (r: (String, String))
    ensures
        r.0@ == version_dir_kind(name@),
        r.1@ == version_dir_label(name@),
{
    let kind: &str = if starts_with(name, "fabric-") {
        "fabric"
    } else if starts_with(name, "liteloader-") {
        "liteloader"
    } else if starts_with(name, "quilt-") {
        "quilt"
    } else if starts_with(name, "risugami-") {
        "risugami"
    } else if starts_with(name, "ornithe-") {
        "ornithe"
    } else if starts_with(name, "babric-") {
        "babric"
    } else if starts_with(name, "labric-") {
        "legacy_fabric"
    } else {
        "vanilla"
    };
    let mut prefix = copy_str(kind);
    prefix.append("-");
    let label = match strip_prefix(name, prefix.as_str()) {
        Some(rest) => rest,
        None => copy_str(name),
    };
    (copy_str(kind), label)
}

proof fn lemma_starts_with_own_prefix(p: Seq<char>, v: Seq<char>)
    ensures
        starts_with_seq(p + v, p),
        strip_prefix_seq(p + v, p) == Some(v),
{
    assert((p + v).take(p.len() as int) =~= p);
    assert((p + v).skip(p.len() as int) =~= v);
}

proof fn lemma_not_starts_with(s: Seq<char>, q: Seq<char>, i: int)
    requires
        0 <= i < q.len(),
        i < s.len(),
        s[i] != q[i],
    ensures
        !starts_with_seq(s, q),
{
    if starts_with_seq(s, q) {
        assert(s.take(q.len() as int)[i] == q[i]);
    }
}

/// An install's directory is listed back under its loader and version: the
/// directory `id-version` that Fabric, Quilt, Babric and Ornithe installs
/// use is shown as kind `id` with name `version`; a Legacy Fabric directory
/// `labric-version` is shown as kind `legacy_fabric` under its whole name;
/// `liteloader-version` and `risugami-name` directories as their loader
/// with the version or name.
pub proof fn law_install_dirs_are_listed_back(base: crate::version::FabricBase, version: Seq<char>)
    ensures
        !(base is Labric) ==> version_dir_kind(crate::loaders::base_id(base) + "-"@ + version)
            == crate::loaders::base_id(base) && version_dir_label(
            crate::loaders::base_id(base) + "-"@ + version,
        ) == version,
        base is Labric ==> version_dir_kind("labric-"@ + version) == "legacy_fabric"@
            && version_dir_label("labric-"@ + version) == "labric-"@ + version,
        version_dir_kind("liteloader-"@ + version) == "liteloader"@ && version_dir_label(
            "liteloader-"@ + version,
        ) == version,
        version_dir_kind("risugami-"@ + version) == "risugami"@ && version_dir_label(
            "risugami-"@ + version,
        ) == version,
{
    reveal_strlit("fabric-");
    reveal_strlit("liteloader-");
    reveal_strlit("quilt-");
    reveal_strlit("risugami-");
    reveal_strlit("ornithe-");
    reveal_strlit("babric-");
    reveal_strlit("labric-");
    reveal_strlit("legacy_fabric-");
    reveal_strlit("fabric");
    reveal_strlit("quilt");
    reveal_strlit("babric");
    reveal_strlit("ornithe");
    reveal_strlit("labric");
    reveal_strlit("liteloader");
    reveal_strlit("risugami");
    reveal_strlit("legacy_fabric");
    reveal_strlit("-");
    let f = "fabric-"@;
    let l = "liteloader-"@;
    let q = "quilt-"@;
    let r = "risugami-"@;
    let o = "ornithe-"@;
    let b = "babric-"@;
    let lb = "labric-"@;
    assert("fabric"@ + "-"@ =~= f);
    assert("quilt"@ + "-"@ =~= q);
    assert("babric"@ + "-"@ =~= b);
    assert("ornithe"@ + "-"@ =~= o);
    assert("liteloader"@ + "-"@ =~= l);
    assert("risugami"@ + "-"@ =~= r);
    lemma_starts_with_own_prefix(f, version);
    lemma_starts_with_own_prefix(l, version);
    lemma_starts_with_own_prefix(q, version);
    lemma_starts_with_own_prefix(r, version);
    lemma_starts_with_own_prefix(o, version);
    lemma_starts_with_own_prefix(b, version);
    lemma_starts_with_own_prefix(lb, version);
    // liteloader-: differs from fabric- at 0
    lemma_not_starts_with(l + version, f, 0);
    // quilt-: differs from fabric- and liteloader- at 0
    lemma_not_starts_with(q + version, f, 0);
    lemma_not_starts_with(q + version, l, 0);
    // risugami-
    lemma_not_starts_with(r + version, f, 0);
    lemma_not_starts_with(r + version, l, 0);
    lemma_not_starts_with(r + version, q, 0);
    // ornithe-
    lemma_not_starts_with(o + version, f, 0);
    lemma_not_starts_with(o + version, l, 0);
    lemma_not_starts_with(o + version, q, 0);
    lemma_not_starts_with(o + version, r, 0);
    // babric-
    lemma_not_starts_with(b + version, f, 0);
    lemma_not_starts_with(b + version, l, 0);
    lemma_not_starts_with(b + version, q, 0);
    lemma_not_starts_with(b + version, r, 0);
    lemma_not_starts_with(b + version, o, 0);
    // labric-
    lemma_not_starts_with(lb + version, f, 0);
    lemma_not_starts_with(lb + version, l, 1);
    lemma_not_starts_with(lb + version, q, 0);
    lemma_not_starts_with(lb + version, r, 0);
    lemma_not_starts_with(lb + version, o, 0);
    lemma_not_starts_with(lb + version, b, 0);
    lemma_not_starts_with(lb + version, "legacy_fabric-"@, 1);
    assert(strip_prefix_seq(lb + version, "legacy_fabric"@ + "-"@) is None) by {
        assert("legacy_fabric"@ + "-"@ =~= "legacy_fabric-"@);
    }
}

} // verus!
