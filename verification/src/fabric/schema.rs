//! The documents of Fabric-like loader metadata, and the paths of a loader
//! build in its Maven repository.
use vstd::prelude::*;

use crate::text::{
    char_replaced, join_seq, lemma_char_replaced_absent, lemma_char_replaced_concat,
    lemma_join_split, lemma_replace_absent, lemma_replace_char,
    lemma_split_absent, lemma_split_at, lemma_split_empty_pattern_len, lemma_split_two,
    occurs_at, replace_seq, replace_str, split_seq, split_str, str_eq, views,
};
use crate::version::{maven_parts, maven_path_seq};

verus! {

/// A Fabric-like installation: its version directory and main class.
pub struct Fabric {
    pub ver_dir: Option<std::path::PathBuf>,
    pub main_class: String,
}

impl Default for Fabric {
    fn default() -> (f: Self)
        ensures
            f.ver_dir is None,
            f.main_class@ == Seq::<char>::empty(),
    {
        Self { ver_dir: None, main_class: String::new() }
    }
}

/// A Minecraft version that a loader supports.
#[derive(Clone)]
pub struct FabricVersion {
    pub version: String,
}

/// A loader build.
#[derive(Clone)]
pub struct FabricLoaderVersion {
    pub separator: String,
    pub build: i32,
    pub maven: String,
    pub version: String,
}

/// The pieces of the loader version around its separator, as
/// `version.split(separator)` yields them.
pub open spec fn version_pieces(l: FabricLoaderVersion) -> Seq<Seq<char>> {
    split_seq(l.version@, l.separator@)
}

/// The Maven directory of a loader build: the coordinates without the
/// version, with separators, dots and colons turned into slashes, followed
/// by the version.
pub open spec fn loader_dir_seq(l: FabricLoaderVersion) -> Seq<char> {
    replace_seq(
        replace_seq(
            replace_seq(replace_seq(l.maven@, l.version@, Seq::empty()), l.separator@, "/"@),
            "."@,
            "/"@,
        ),
        ":"@,
        "/"@,
    ) + l.version@
}

/// Legacy Fabric, Babric and Ornithe publish their builds as Fabric's.
pub open spec fn uses_fabric_artifacts(loader: Seq<char>) -> bool {
    loader == "labric"@ || loader == "babric"@ || loader == "ornithe"@
}

/// The file name stem of a loader build for the loader `loader`.
pub open spec fn loader_file_stem(l: FabricLoaderVersion, loader: Seq<char>) -> Seq<char> {
    if uses_fabric_artifacts(loader) {
        loader_dir_seq(l) + "/fabric-loader-"@ + l.version@
    } else {
        loader_dir_seq(l) + "/"@ + loader + "-loader-"@ + l.version@
    }
}

impl FabricLoaderVersion {
    /// The two pieces of the version around the separator, or the whole
    /// version and an empty piece when the separator does not cut it in
    /// exactly two.
    pub fn split(&self) -> (r: (&str, &str))
        ensures
            version_pieces(*self).len() == 2 ==> r.0@ == version_pieces(*self)[0] && r.1@
                == version_pieces(*self)[1],
            version_pieces(*self).len() != 2 ==> r.0@ == self.version@ && r.1@ == Seq::<
                char,
            >::empty(),
    {
        proof {
            reveal_strlit("");
        }
        let sep_len = self.separator.as_str().unicode_len();
        if sep_len == 0 {
            proof {
                assert(self.separator@ =~= Seq::<char>::empty());
                lemma_split_empty_pattern_len(self.version@);
            }
            return (self.version.as_str(), "");
        }
        let parts = split_str(self.version.as_str(), self.separator.as_str());
        if parts.len() == 2 {
            proof {
                assert(views(parts@)[0] == parts@[0]@);
                lemma_split_two(self.version@, self.separator@);
            }
            let total = self.version.as_str().unicode_len();
            let first_len = parts[0].as_str().unicode_len();
            let first = self.version.as_str().substring_char(0, first_len);
            let second = self.version.as_str().substring_char(first_len + sep_len, total);
            proof {
                assert(first@ =~= self.version@.take(first_len as int));
                assert(second@ =~= self.version@.skip(first_len + sep_len));
            }
            (first, second)
        } else {
            (self.version.as_str(), "")
        }
    }

    /// The Maven directory of this build.
    pub fn replace(&self) -> (r: String)
        ensures
            r@ == loader_dir_seq(*self),
    {
        let a = replace_str(self.maven.as_str(), self.version.as_str(), "");
        let b = replace_str(a.as_str(), self.separator.as_str(), "/");
        let c = replace_str(b.as_str(), ".", "/");
        let mut d = replace_str(c.as_str(), ":", "/");
        d.append(self.version.as_str());
        proof {
            assert(""@ =~= Seq::<char>::empty()) by {
                reveal_strlit("");
            }
        }
        d
    }

    /// The repository path of this build's jar for the loader `loader`.
    pub fn jar_path(&self, loader: String) -> (r: String)
        ensures
            r@ == loader_file_stem(*self, loader@) + ".jar"@,
    {
        let mut r = self.file_stem(loader.as_str());
        r.append(".jar");
        r
    }

    /// The repository path of this build's JSON profile for the loader
    /// `loader`.
    pub fn json_path(&self, loader: String) -> (r: String)
        ensures
            r@ == loader_file_stem(*self, loader@) + ".json"@,
    {
        let mut r = self.file_stem(loader.as_str());
        r.append(".json");
        r
    }

    fn file_stem(&self, loader: &str) -> (r: String)
        ensures
            r@ == loader_file_stem(*self, loader@),
    {
        let mut r = self.replace();
        if str_eq(loader, "labric") || str_eq(loader, "babric") || str_eq(loader, "ornithe") {
            r.append("/fabric-loader-");
            r.append(self.version.as_str());
        } else {
            r.append("/");
            r.append(loader);
            r.append("-loader-");
            r.append(self.version.as_str());
        }
        r
    }
}

/// A library of a loader profile, by Maven coordinates and repository.
#[derive(Clone)]
pub struct FabricLib {
    pub name: String,
    pub url: String,
}

/// A loader's JSON profile.
#[derive(Clone)]
#[allow(non_snake_case)]
pub struct FabricLoaderJSON {
    pub version: i32,
    pub min_java_version: i32,
    pub libraries: FabricLibraries,
    pub mainClass: FabricMainClass,
}

/// The libraries of a loader profile, by side.
#[derive(Clone)]
pub struct FabricLibraries {
    pub client: Vec<FabricLib>,
    pub common: Vec<FabricLib>,
    pub server: Vec<FabricLib>,
    pub development: Vec<FabricLib>,
}

/// The main classes of a loader profile.
#[derive(Clone)]
pub struct FabricMainClass {
    pub client: String,
    pub server: String,
}

/// An intermediary mapping build for a Minecraft version.
#[derive(Clone)]
pub struct FabricIntermediaryVersion {
    pub maven: String,
    pub version: String,
}

/// When the separator cuts a loader version in exactly two, the two pieces
/// that `split` gives, with the separator between them, are the version.
pub proof fn law_split_rejoins(l: FabricLoaderVersion)
    requires
        version_pieces(l).len() == 2,
    ensures
        version_pieces(l)[0] + l.separator@ + version_pieces(l)[1] == l.version@,
{
    let p = version_pieces(l);
    if l.separator@.len() == 0 {
        lemma_split_empty_pattern_len(l.version@);
        assert(p[1] == Seq::<char>::empty());
        assert(p[0] + l.separator@ + p[1] =~= l.version@);
    } else {
        lemma_join_split(l.version@, l.separator@);
        assert(p.drop_last() =~= seq![p[0]]);
        assert(join_seq(p, l.separator@) == join_seq(p.drop_last(), l.separator@) + l.separator@
            + p.last());
    }
}

/// A loader build published under coordinates `group:name-loader:version`
/// sits at the Maven path of its own coordinates: for the loader `name`,
/// `jar_path` is `maven_to_path` of the build's coordinates. This holds when
/// no piece contains `:`, the name contains no `.`, the version is not empty
/// and occurs in the coordinates only at their end, and the separator is
/// not empty and does not occur before the version.
pub proof fn law_loader_jar_at_maven_path(l: FabricLoaderVersion, group: Seq<char>, name: Seq<char>)
    requires
        l.maven@ == group + ":"@ + name + "-loader:"@ + l.version@,
        !group.contains(':'),
        !name.contains(':'),
        !name.contains('.'),
        !l.version@.contains(':'),
        l.version@.len() > 0,
        forall|i: int| #[trigger] occurs_at(l.maven@, l.version@, i) ==> i == l.maven@.len() - l.version@.len(),
        l.separator@.len() > 0,
        forall|i: int| !#[trigger] occurs_at(group + ":"@ + name + "-loader:"@, l.separator@, i),
        !uses_fabric_artifacts(name),
    ensures
        loader_file_stem(l, name) + ".jar"@ == maven_path_seq(l.maven@),
{
    reveal_strlit(":");
    reveal_strlit("-loader:");
    reveal_strlit("-loader");
    reveal_strlit("/");
    reveal_strlit(".");
    reveal_strlit("-loader-");
    let v = l.version@;
    let colon = seq![':'];
    let suffix = "-loader"@;
    assert("-loader:"@ =~= suffix + colon);
    assert(":"@ =~= colon);
    let pre = group + colon + name + suffix + colon;
    assert(group + ":"@ + name + "-loader:"@ =~= pre);
    let maven = l.maven@;
    assert(maven =~= pre + v);
    // Removing the version leaves the coordinates' prefix.
    assert(maven.subrange(pre.len() as int, (pre.len() + v.len()) as int) =~= v);
    lemma_split_at(maven, v, pre.len() as int);
    assert(maven.take(pre.len() as int) =~= pre);
    assert(maven.skip((pre.len() + v.len()) as int) =~= Seq::<char>::empty());
    assert(split_seq(Seq::<char>::empty(), v) == seq![Seq::<char>::empty()]);
    assert(split_seq(maven, v) =~= seq![pre, Seq::<char>::empty()]);
    assert(seq![pre, Seq::<char>::empty()].drop_last() =~= seq![pre]);
    let e = Seq::<char>::empty();
    assert(join_seq(seq![pre, e], e) == join_seq(seq![pre, e].drop_last(), e) + e + seq![pre, e].last());
    assert(join_seq(seq![pre], e) == pre);
    assert(replace_seq(maven, v, e) == join_seq(seq![pre, e], e));
    assert(replace_seq(maven, v, e) =~= pre);
    // The separator does not occur in it.
    lemma_replace_absent(pre, l.separator@, "/"@);
    // Dots, then colons, become slashes.
    assert("."@ =~= seq!['.']);
    assert("/"@ =~= seq!['/']);
    lemma_replace_char(pre, '.', '/');
    let r3 = char_replaced(pre, '.', '/');
    lemma_char_replaced_concat(group + colon + name + suffix, colon, '.', '/');
    lemma_char_replaced_concat(group + colon + name, suffix, '.', '/');
    lemma_char_replaced_concat(group + colon, name, '.', '/');
    lemma_char_replaced_concat(group, colon, '.', '/');
    lemma_char_replaced_absent(colon, '.', '/');
    lemma_char_replaced_absent(name, '.', '/');
    assert(!suffix.contains('.')) by {
        if suffix.contains('.') {
            let k = choose|k: int| 0 <= k < suffix.len() && suffix[k] == '.';
        }
    }
    lemma_char_replaced_absent(suffix, '.', '/');
    let g1 = char_replaced(group, '.', '/');
    assert(r3 == g1 + colon + name + suffix + colon);
    lemma_replace_char(r3, ':', '/');
    let slash = seq!['/'];
    lemma_char_replaced_concat(g1 + colon + name + suffix, colon, ':', '/');
    lemma_char_replaced_concat(g1 + colon + name, suffix, ':', '/');
    lemma_char_replaced_concat(g1 + colon, name, ':', '/');
    lemma_char_replaced_concat(g1, colon, ':', '/');
    assert(!g1.contains(':')) by {
        if g1.contains(':') {
            let k = choose|k: int| 0 <= k < g1.len() && g1[k] == ':';
            assert(group[k] == ':' || group[k] == '.');
            assert(group.contains(':'));
        }
    }
    lemma_char_replaced_absent(g1, ':', '/');
    lemma_char_replaced_absent(name, ':', '/');
    assert(!suffix.contains(':')) by {
        if suffix.contains(':') {
            let k = choose|k: int| 0 <= k < suffix.len() && suffix[k] == ':';
        }
    }
    lemma_char_replaced_absent(suffix, ':', '/');
    assert(char_replaced(colon, ':', '/') =~= slash);
    let dir = g1 + slash + name + suffix + slash;
    assert(char_replaced(r3, ':', '/') == dir);
    assert(loader_dir_seq(l) == dir + v);
    // The pieces of the coordinates.
    let mid = name + suffix;
    let tail = mid + colon + v;
    assert(maven =~= group + colon + tail);
    assert forall|i: int| 0 <= i < group.len() implies !occurs_at(maven, colon, i) by {
        crate::text::lemma_occurs_char_pub(maven, ':', i);
        assert(maven[i] == group[i]);
        if group[i] == ':' {
            assert(group.contains(':'));
        }
    }
    crate::text::lemma_occurs_char_pub(maven, ':', group.len() as int);
    lemma_split_at(maven, colon, group.len() as int);
    assert(maven.take(group.len() as int) =~= group);
    assert(maven.skip((group.len() + 1) as int) =~= tail);
    assert(!mid.contains(':')) by {
        if mid.contains(':') {
            let k = choose|k: int| 0 <= k < mid.len() && mid[k] == ':';
            if k < name.len() {
                assert(name[k] == ':');
                assert(name.contains(':'));
            } else {
                assert(suffix[k - name.len()] == ':');
            }
        }
    }
    assert forall|i: int| 0 <= i < mid.len() implies !occurs_at(tail, colon, i) by {
        crate::text::lemma_occurs_char_pub(tail, ':', i);
        assert(tail[i] == mid[i]);
        if mid[i] == ':' {
            assert(mid.contains(':'));
        }
    }
    crate::text::lemma_occurs_char_pub(tail, ':', mid.len() as int);
    lemma_split_at(tail, colon, mid.len() as int);
    assert(tail.take(mid.len() as int) =~= mid);
    assert(tail.skip((mid.len() + 1) as int) =~= v);
    assert forall|i: int| !occurs_at(v, colon, i) by {
        crate::text::lemma_occurs_char_pub(v, ':', i);
        if 0 <= i < v.len() && v[i] == ':' {
            assert(v.contains(':'));
        }
    }
    lemma_split_absent(v, colon);
    let parts = maven_parts(maven);
    assert(parts =~= seq![group, mid, v]);
    assert("-loader-"@ =~= suffix + seq!['-']);
    lemma_replace_char(group, '.', '/');
    assert(parts[0] == group && parts[1] == mid && parts[2] == v);
    assert(maven_path_seq(maven) == g1 + slash + mid + slash + v + slash + mid + seq!['-'] + v + ".jar"@);
    assert(loader_file_stem(l, name) == dir + v + "/"@ + name + "-loader-"@ + v);
    assert(loader_file_stem(l, name) + ".jar"@ =~= maven_path_seq(maven));
}

} // verus!
