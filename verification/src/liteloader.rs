//! Installing LiteLoader: which version, which libraries, and where each
//! file is fetched from.
pub mod schema;

use vstd::prelude::*;

use crate::string_map::{keys_distinct, lemma_view_by_entries, StringMap};
use crate::text::{
    copy_str, ends_with, ends_with_seq, i32_to_decimal, parse_u64, parse_u64_seq, replace_seq,
    replace_str, signed_decimal_seq, split_char, split_seq, str_eq, trim_end_matches,
    trim_end_matches_seq, views,
};
use crate::version::{
    LiteLoaderArtifacts, LiteLoaderLibrary, LiteLoaderTweaks, LiteLoaderVersion,
    MavenMetadataSnapshot,
};

verus! {

// ---------------------------------------------------------------------------
// Snapshot builds
// ---------------------------------------------------------------------------

/// The Maven metadata document of a snapshot version.
pub open spec fn snapshot_metadata_url_seq(
    base: Seq<char>,
    group_path: Seq<char>,
    artifact: Seq<char>,
    version: Seq<char>,
) -> Seq<char> {
    trim_end_matches_seq(base, "/"@) + "/"@ + group_path + "/"@ + artifact + "/"@ + version
        + "/maven-metadata.xml"@
}

/// The URL of the Maven metadata document of a snapshot version.
pub fn snapshot_metadata_url(base: &str, group_path: &str, artifact: &str, version: &str) -> (url:
    String)
    ensures
        url@ == snapshot_metadata_url_seq(base@, group_path@, artifact@, version@),
{
    proof {
        reveal_strlit("/");
    }
    let mut url = trim_end_matches(base, "/");
    url.append("/");
    url.append(group_path);
    url.append("/");
    url.append(artifact);
    url.append("/");
    url.append(version);
    url.append("/maven-metadata.xml");
    url
}

/// The jar of the latest build of a snapshot version, as its metadata
/// names it, with an optional classifier.
pub open spec fn snapshot_jar_url_seq(
    base: Seq<char>,
    group_path: Seq<char>,
    artifact: Seq<char>,
    version: Seq<char>,
    timestamp: Seq<char>,
    build_number: int,
    classifier: Option<Seq<char>>,
) -> Seq<char> {
    trim_end_matches_seq(base, "/"@) + "/"@ + group_path + "/"@ + artifact + "/"@ + version + "/"@
        + artifact + "-"@ + trim_end_matches_seq(version, "-SNAPSHOT"@) + "-"@ + timestamp + "-"@
        + signed_decimal_seq(build_number) + match classifier {
        Some(c) => "-"@ + c,
        None => Seq::empty(),
    } + ".jar"@
}

/// The URL of the jar of the latest build of a snapshot version.
pub fn snapshot_jar_url(
    base: &str,
    group_path: &str,
    artifact: &str,
    version: &str,
    snapshot: &MavenMetadataSnapshot,
    classifier: Option<&str>,
) -> (url: String)
    ensures
        url@ == snapshot_jar_url_seq(
            base@,
            group_path@,
            artifact@,
            version@,
            snapshot.timestamp@,
            snapshot.buildNumber as int,
            match classifier {
                Some(c) => Some(c@),
                None => None,
            },
        ),
{
    proof {
        reveal_strlit("/");
        reveal_strlit("-SNAPSHOT");
    }
    let mut url = trim_end_matches(base, "/");
    url.append("/");
    url.append(group_path);
    url.append("/");
    url.append(artifact);
    url.append("/");
    url.append(version);
    url.append("/");
    url.append(artifact);
    url.append("-");
    let base_version = trim_end_matches(version, "-SNAPSHOT");
    url.append(base_version.as_str());
    url.append("-");
    url.append(snapshot.timestamp.as_str());
    url.append("-");
    let build = i32_to_decimal(snapshot.buildNumber);
    url.append(build.as_str());
    if let Some(c) = classifier {
        url.append("-");
        url.append(c);
    }
    url.append(".jar");
    url
}

// ---------------------------------------------------------------------------
// Libraries
// ---------------------------------------------------------------------------

/// Where a library lives in a Maven repository: its group, the group as a
/// path, its artifact and its version.
pub struct LibraryLayout {
    pub group: String,
    pub group_path: String,
    pub artifact: String,
    pub version: String,
}

/// The layout of a library named `group:artifact:version`; none for a name
/// of another shape, which is skipped.
pub fn library_layout(lib: &LiteLoaderLibrary) -> (r: Option<LibraryLayout>)
    ensures
        split_seq(lib.name@, seq![':']).len() != 3 <==> r is None,
        r matches Some(l) ==> {
            let p = split_seq(lib.name@, seq![':']);
            &&& l.group@ == p[0]
            &&& l.group_path@ == replace_seq(p[0], "."@, "/"@)
            &&& l.artifact@ == p[1]
            &&& l.version@ == p[2]
        },
{
    let parts = split_char(lib.name.as_str(), ':');
    if parts.len() != 3 {
        return None;
    }
    assert(parts@[0]@ == views(parts@)[0] && parts@[1]@ == views(parts@)[1] && parts@[2]@ == views(
        parts@,
    )[2]);
    Some(
        LibraryLayout {
            group: copy_str(parts[0].as_str()),
            group_path: replace_str(parts[0].as_str(), ".", "/"),
            artifact: copy_str(parts[1].as_str()),
            version: copy_str(parts[2].as_str()),
        },
    )
}

/// The file name of a library's jar: `artifact-version.jar`.
pub open spec fn jar_file_name_seq(l: LibraryLayout) -> Seq<char> {
    l.artifact@ + "-"@ + l.version@ + ".jar"@
}

/// The file name of a library's jar.
pub fn jar_file_name(l: &LibraryLayout) -> (name: String)
    ensures
        name@ == jar_file_name_seq(*l),
{
    let mut name = copy_str(l.artifact.as_str());
    name.append("-");
    name.append(l.version.as_str());
    name.append(".jar");
    name
}

/// The version is a Maven snapshot.
pub fn is_snapshot(l: &LibraryLayout) -> (r: bool)
    ensures
        r == ends_with_seq(l.version@, "-SNAPSHOT"@),
{
    ends_with(l.version.as_str(), "-SNAPSHOT")
}

/// The URL of a released library's jar in a repository.
pub open spec fn release_jar_url_seq(base: Seq<char>, l: LibraryLayout) -> Seq<char> {
    base + "/"@ + l.group_path@ + "/"@ + l.artifact@ + "/"@ + l.version@ + "/"@ + jar_file_name_seq(l)
}

/// The URL of a released library's jar in a repository.
pub fn release_jar_url(base: &str, l: &LibraryLayout) -> (url: String)
    ensures
        url@ == release_jar_url_seq(base@, *l),
{
    let mut url = copy_str(base);
    url.append("/");
    url.append(l.group_path.as_str());
    url.append("/");
    url.append(l.artifact.as_str());
    url.append("/");
    url.append(l.version.as_str());
    url.append("/");
    let name = jar_file_name(l);
    url.append(name.as_str());
    url
}

/// The elements of `s` in order, each kept only at its first occurrence.
pub open spec fn dedup_seq(s: Seq<Seq<char>>) -> Seq<Seq<char>>
    decreases s.len(),
{
    if s.len() == 0 {
        Seq::empty()
    } else {
        let init = dedup_seq(s.drop_last());
        if init.contains(s.last()) {
            init
        } else {
            init.push(s.last())
        }
    }
}

/// The repositories tried for a library, before duplicates are dropped:
/// the library's own, Mojang's for LaunchWrapper, LiteLoader's, Maven
/// Central, and the version's repository.
pub open spec fn candidate_bases_seq(
    lib: LiteLoaderLibrary,
    l: LibraryLayout,
    repo_url: Seq<char>,
) -> Seq<Seq<char>> {
    (match lib.url {
        Some(u) => seq![trim_end_matches_seq(u@, "/"@)],
        None => Seq::empty(),
    }) + (if l.group@ == "net.minecraft"@ && l.artifact@ == "launchwrapper"@ {
        seq!["https://libraries.minecraft.net"@]
    } else {
        Seq::empty()
    }) + seq![
        "http://repo.liteloader.com"@,
        "https://repo1.maven.org/maven2"@,
        trim_end_matches_seq(repo_url, "/"@),
    ]
}

fn push_unique(v: &mut Vec<String>, s: String)
    ensures
        views(final(v)@) == if views(old(v)@).contains(s@) {
            views(old(v)@)
        } else {
            views(old(v)@).push(s@)
        },
{
    let mut i: usize = 0;
    while i < v.len()
        invariant
            i <= v.len(),
            forall|j: int| 0 <= j < i ==> views(v@)[j] != s@,
        decreases v.len() - i,
    {
        if str_eq(v[i].as_str(), s.as_str()) {
            assert(views(v@)[i as int] == s@);
            return;
        }
        i += 1;
    }
    let ghost before = v@;
    v.push(s);
    assert(views(v@) =~= views(before).push(s@));
}

/// The repositories tried for a library, in order and without duplicates.
pub fn candidate_bases(lib: &LiteLoaderLibrary, l: &LibraryLayout, repo_url: &str) -> (bases: Vec<
    String,
>)
    ensures
        views(bases@) == dedup_seq(candidate_bases_seq(*lib, *l, repo_url@)),
{
    proof {
        reveal_strlit("/");
    }
    let ghost p1: Seq<Seq<char>> = match &lib.url {
        Some(u) => seq![trim_end_matches_seq(u@, "/"@)],
        None => Seq::empty(),
    };
    let ghost p2: Seq<Seq<char>> = if l.group@ == "net.minecraft"@ && l.artifact@ == "launchwrapper"@ {
        seq!["https://libraries.minecraft.net"@]
    } else {
        Seq::empty()
    };
    let ghost p3: Seq<Seq<char>> = seq![
        "http://repo.liteloader.com"@,
        "https://repo1.maven.org/maven2"@,
        trim_end_matches_seq(repo_url@, "/"@),
    ];
    let ghost raw = candidate_bases_seq(*lib, *l, repo_url@);
    assert(raw == p1 + p2 + p3);
    let mut bases: Vec<String> = Vec::new();
    if let Some(u) = &lib.url {
        let t = trim_end_matches(u.as_str(), "/");
        let ghost tv = t@;
        assert(p1 == seq![tv]);
        assert(!views(bases@).contains(tv));
        push_unique(&mut bases, t);
        assert(views(bases@) == seq![tv]);
        assert(p1.drop_last() =~= Seq::<Seq<char>>::empty());
        assert(dedup_seq(p1.drop_last()) =~= Seq::<Seq<char>>::empty());
        assert(dedup_seq(p1) =~= seq![tv]);
    } else {
        assert(views(bases@) =~= Seq::<Seq<char>>::empty());
        assert(p1 =~= Seq::<Seq<char>>::empty());
    }
    assert(views(bases@) =~= dedup_seq(p1));
    if str_eq(l.group.as_str(), "net.minecraft") && str_eq(l.artifact.as_str(), "launchwrapper") {
        push_unique(&mut bases, copy_str("https://libraries.minecraft.net"));
        assert((p1 + p2).drop_last() =~= p1);
    } else {
        assert(p1 + p2 =~= p1);
    }
    let ghost q = p1 + p2;
    assert(views(bases@) == dedup_seq(q));
    let b1 = copy_str("http://repo.liteloader.com");
    assert(b1@ == p3[0]);
    push_unique(&mut bases, b1);
    assert(q.push(p3[0]).drop_last() =~= q);
    assert(views(bases@) == dedup_seq(q.push(p3[0])));
    let b2 = copy_str("https://repo1.maven.org/maven2");
    assert(b2@ == p3[1]);
    push_unique(&mut bases, b2);
    assert(q.push(p3[0]).push(p3[1]).drop_last() =~= q.push(p3[0]));
    assert(views(bases@) == dedup_seq(q.push(p3[0]).push(p3[1])));
    let b3 = trim_end_matches(repo_url, "/");
    assert(b3@ == p3[2]);
    push_unique(&mut bases, b3);
    assert(q.push(p3[0]).push(p3[1]).push(p3[2]).drop_last() =~= q.push(p3[0]).push(p3[1]));
    assert(views(bases@) == dedup_seq(q.push(p3[0]).push(p3[1]).push(p3[2])));
    assert(q.push(p3[0]).push(p3[1]).push(p3[2]) =~= raw);
    bases
}

/// Keeping first occurrences leaves no element twice and loses none.
pub proof fn lemma_dedup(s: Seq<Seq<char>>)
    ensures
        dedup_seq(s).no_duplicates(),
        forall|x: Seq<char>| dedup_seq(s).contains(x) <==> s.contains(x),
    decreases s.len(),
{
    if s.len() > 0 {
        lemma_dedup(s.drop_last());
        let init = dedup_seq(s.drop_last());
        assert forall|x: Seq<char>| dedup_seq(s).contains(x) <==> s.contains(x) by {
            if s.contains(x) {
                if x == s.last() {
                    if !init.contains(x) {
                        assert(dedup_seq(s) == init.push(x));
                        assert(dedup_seq(s)[init.len() as int] == x);
                    }
                } else {
                    let i = choose|i: int| 0 <= i < s.len() && s[i] == x;
                    assert(s.drop_last()[i] == x);
                    assert(s.drop_last().contains(x));
                    assert(init.contains(x));
                    let k = choose|k: int| 0 <= k < init.len() && init[k] == x;
                    assert(init.push(s.last())[k] == x);
                }
            }
            if dedup_seq(s).contains(x) {
                if init.contains(x) {
                    assert(s.drop_last().contains(x));
                    let i = choose|i: int| 0 <= i < s.drop_last().len() && s.drop_last()[i] == x;
                    assert(s[i] == x);
                } else {
                    let k = choose|k: int| 0 <= k < dedup_seq(s).len() && dedup_seq(s)[k] == x;
                    assert(dedup_seq(s) == init.push(s.last()));
                    if k < init.len() {
                        assert(init[k] == x);
                    }
                    assert(x == s.last());
                    assert(s[s.len() - 1] == x);
                }
            }
        }
    }
}

// ---------------------------------------------------------------------------
// The version to install
// ---------------------------------------------------------------------------

/// The numbers among the pieces, in order, each parsed as `u64`; pieces that
/// are not numbers are left out.
pub open spec fn numbers_of(pieces: Seq<Seq<char>>) -> Seq<u64>
    decreases pieces.len(),
{
    if pieces.len() == 0 {
        Seq::empty()
    } else {
        numbers_of(pieces.drop_last()) + match parse_u64_seq(pieces.last()) {
            Some(n) => seq![n],
            None => Seq::empty(),
        }
    }
}

/// The numbers of a dotted version name.
pub open spec fn version_numbers(key: Seq<char>) -> Seq<u64> {
    numbers_of(split_seq(key, "."@))
}

/// `a` comes after `b` in lexicographic order, a proper prefix coming first.
pub open spec fn lex_gt(a: Seq<u64>, b: Seq<u64>) -> bool
    decreases a.len(),
{
    if a.len() == 0 {
        false
    } else if b.len() == 0 {
        true
    } else if a[0] != b[0] {
        a[0] > b[0]
    } else {
        lex_gt(a.drop_first(), b.drop_first())
    }
}

/// The newest of the keys scanned in order: the index of the first key
/// whose numbers exceed those of every key before it, and those numbers;
/// none while no key has numbers beyond the empty list.
pub open spec fn newest_key(keys: Seq<Seq<char>>) -> (Option<int>, Seq<u64>)
    decreases keys.len(),
{
    if keys.len() == 0 {
        (None, Seq::empty())
    } else {
        let (best, best_numbers) = newest_key(keys.drop_last());
        let p = version_numbers(keys.last());
        if lex_gt(p, best_numbers) {
            (Some(keys.len() - 1), p)
        } else {
            (best, best_numbers)
        }
    }
}

/// The numbers of the pieces of a dotted version name.
pub fn version_numbers_of(key: &str) -> (r: Vec<u64>)
    ensures
        r@ == version_numbers(key@),
{
    proof {
        reveal_strlit(".");
        assert("."@ =~= seq!['.']);
    }
    let pieces = split_char(key, '.');
    let mut r: Vec<u64> = Vec::new();
    let mut i: usize = 0;
    while i < pieces.len()
        invariant
            i <= pieces.len(),
            r@ == numbers_of(views(pieces@).take(i as int)),
        decreases pieces.len() - i,
    {
        assert(views(pieces@).take(i + 1).drop_last() =~= views(pieces@).take(i as int));
        assert(views(pieces@).take(i + 1).last() == pieces@[i as int]@);
        match parse_u64(pieces[i].as_str()) {
            Some(n) => {
                r.push(n);
            },
            None => {},
        }
        assert(r@ =~= numbers_of(views(pieces@).take(i + 1)));
        i += 1;
    }
    assert(views(pieces@).take(pieces.len() as int) =~= views(pieces@));
    r
}

/// Whether `a` comes after `b` in lexicographic order.
pub fn lex_greater(a: &Vec<u64>, b: &Vec<u64>) -> (r: bool)
    ensures
        r == lex_gt(a@, b@),
{
    let mut i: usize = 0;
    assert(a@.skip(0) =~= a@);
    assert(b@.skip(0) =~= b@);
    while i < a.len() && i < b.len() && a[i] == b[i]
        invariant
            i <= a.len(),
            i <= b.len(),
            lex_gt(a@, b@) == lex_gt(a@.skip(i as int), b@.skip(i as int)),
        decreases a.len() - i,
    {
        assert(a@.skip(i as int).drop_first() =~= a@.skip(i + 1));
        assert(b@.skip(i as int).drop_first() =~= b@.skip(i + 1));
        i += 1;
    }
    if i == a.len() {
        false
    } else if i == b.len() {
        true
    } else {
        a[i] > b[i]
    }
}

/// The newest version among the keys, by the numbers in their names; the
/// first of equally new ones. None when no key has a number.
pub fn latest_version(versions: &StringMap<LiteLoaderVersion>) -> (r: Option<String>)
    ensures
        match newest_key(versions.key_seq()).0 {
            Some(i) => r matches Some(k) && k@ == versions.key_seq()[i],
            None => r is None,
        },
{
    let n = versions.len();
    let mut best: Option<usize> = None;
    let mut best_numbers: Vec<u64> = Vec::new();
    let mut i: usize = 0;
    while i < n
        invariant
            i <= n,
            n == versions.key_seq().len(),
            newest_key(versions.key_seq().take(i as int)) == (
                match best {
                    Some(b) => Some(b as int),
                    None => None,
                },
                best_numbers@,
            ),
        decreases n - i,
    {
        let key = versions.key_at(i);
        assert(versions.key_seq().take(i + 1).drop_last() =~= versions.key_seq().take(i as int));
        assert(versions.key_seq().take(i + 1).last() == key@);
        let numbers = version_numbers_of(key.as_str());
        if lex_greater(&numbers, &best_numbers) {
            best = Some(i);
            best_numbers = numbers;
        }
        i += 1;
    }
    assert(versions.key_seq().take(n as int) =~= versions.key_seq());
    match best {
        Some(b) => {
            assert(b < versions.key_seq().len()) by {
                lemma_newest_key_bounds(versions.key_seq());
            }
            Some(versions.key_at(b).clone())
        },
        None => None,
    }
}

proof fn lemma_newest_key_bounds(keys: Seq<Seq<char>>)
    ensures
        newest_key(keys).0 matches Some(i) ==> 0 <= i < keys.len() && newest_key(keys).1
            == version_numbers(keys[i]),
    decreases keys.len(),
{
    if keys.len() > 0 {
        lemma_newest_key_bounds(keys.drop_last());
    }
}

/// `lex_gt` is transitive.
pub proof fn lemma_lex_gt_transitive(a: Seq<u64>, b: Seq<u64>, c: Seq<u64>)
    requires
        lex_gt(a, b),
        lex_gt(b, c),
    ensures
        lex_gt(a, c),
    decreases a.len(),
{
    if c.len() > 0 && a[0] == b[0] && b[0] == c[0] {
        lemma_lex_gt_transitive(a.drop_first(), b.drop_first(), c.drop_first());
    }
}

/// No key has numbers after the numbers that `newest_key` keeps.
proof fn lemma_newest_numbers_maximal(keys: Seq<Seq<char>>)
    ensures
        forall|j: int|
            0 <= j < keys.len() ==> !lex_gt(version_numbers(#[trigger] keys[j]), newest_key(keys).1),
    decreases keys.len(),
{
    if keys.len() > 0 {
        let init = keys.drop_last();
        lemma_newest_numbers_maximal(init);
        let (best, bn) = newest_key(init);
        let p = version_numbers(keys.last());
        assert forall|j: int| 0 <= j < keys.len() implies !lex_gt(
            version_numbers(#[trigger] keys[j]),
            newest_key(keys).1,
        ) by {
            if j < keys.len() - 1 {
                assert(keys[j] == init[j]);
                if lex_gt(p, bn) && lex_gt(version_numbers(keys[j]), p) {
                    lemma_lex_gt_transitive(version_numbers(keys[j]), p, bn);
                }
            } else {
                if !lex_gt(p, bn) {
                } else {
                    lemma_lex_gt_irreflexive(p);
                }
            }
        }
    }
}

/// The version picked when none is requested is a newest one: no version
/// key has numbers that come after its numbers.
pub proof fn law_latest_version_is_newest(keys: Seq<Seq<char>>)
    ensures
        newest_key(keys).0 matches Some(i) ==> 0 <= i < keys.len() && forall|j: int|
            0 <= j < keys.len() ==> !lex_gt(version_numbers(#[trigger] keys[j]), version_numbers(keys[i])),
{
    lemma_newest_key_bounds(keys);
    lemma_newest_numbers_maximal(keys);
}

/// No sequence comes after itself.
pub proof fn lemma_lex_gt_irreflexive(a: Seq<u64>)
    ensures
        !lex_gt(a, a),
    decreases a.len(),
{
    if a.len() > 0 {
        lemma_lex_gt_irreflexive(a.drop_first());
    }
}

/// The version to install: the requested one when the versions document
/// has it (none when it has not), else the newest.
pub fn select_version(versions: &StringMap<LiteLoaderVersion>, requested: Option<String>) -> (r:
    Option<String>)
    ensures
        match requested {
            Some(v) => if versions@.contains_key(v@) {
                r matches Some(k) && k@ == v@
            } else {
                r is None
            },
            None => match newest_key(versions.key_seq()).0 {
                Some(i) => r matches Some(k) && k@ == versions.key_seq()[i],
                None => r is None,
            },
        },
{
    match requested {
        Some(v) => if versions.contains_key(v.as_str()) {
            Some(v)
        } else {
            None
        },
        None => latest_version(versions),
    }
}

// ---------------------------------------------------------------------------
// The libraries of a version
// ---------------------------------------------------------------------------

/// The build a map of builds offers: the one named `latest`, else the first.
pub open spec fn chosen_build<V>(m: StringMap<V>) -> Option<V> {
    if m@.contains_key("latest"@) {
        Some(m@["latest"@])
    } else if m.pairs().len() > 0 {
        Some(m.pairs()[0].1)
    } else {
        None
    }
}

/// The build a map of builds offers.
pub fn choose_build<V>(m: &StringMap<V>) -> (r: Option<&V>)
    ensures
        match chosen_build(*m) {
            Some(v) => r matches Some(x) && *x == v,
            None => r is None,
        },
{
    proof {
        reveal_strlit("latest");
    }
    match m.get("latest") {
        Some(v) => Some(v),
        None => if m.len() > 0 {
            Some(m.value_at(0))
        } else {
            None
        },
    }
}

/// The libraries a version names, before duplicates are dropped: those of
/// its release build, then the snapshot list and those of its snapshot
/// build.
pub open spec fn candidate_libraries(entry: LiteLoaderVersion) -> Seq<LiteLoaderLibrary> {
    (match entry.artefacts {
        Some(a) => match chosen_build(a.liteloader) {
            Some(t) => t.libraries@,
            None => Seq::empty(),
        },
        None => Seq::empty(),
    }) + match entry.snapshots {
        Some(s) => s.libraries@ + match chosen_build(s.liteloader) {
            Some(t) => t.libraries@,
            None => Seq::empty(),
        },
        None => Seq::empty(),
    }
}

/// A library by its name and repository.
pub open spec fn library_view(l: LiteLoaderLibrary) -> (Seq<char>, Option<Seq<char>>) {
    (
        l.name@,
        match l.url {
            Some(u) => Some(u@),
            None => None,
        },
    )
}

/// The libraries by name and repository.
pub open spec fn library_views(libs: Seq<LiteLoaderLibrary>) -> Seq<(Seq<char>, Option<Seq<char>>)> {
    libs.map_values(|l: LiteLoaderLibrary| library_view(l))
}

/// The libraries in order, each name kept only at its first occurrence.
pub open spec fn dedup_libraries(libs: Seq<LiteLoaderLibrary>) -> Seq<LiteLoaderLibrary>
    decreases libs.len(),
{
    if libs.len() == 0 {
        Seq::empty()
    } else {
        let init = dedup_libraries(libs.drop_last());
        if exists|i: int| 0 <= i < init.len() && #[trigger] init[i].name@ == libs.last().name@ {
            init
        } else {
            init.push(libs.last())
        }
    }
}

fn copy_library(l: &LiteLoaderLibrary) -> (c: LiteLoaderLibrary)
    ensures
        library_view(c) == library_view(*l),
{
    LiteLoaderLibrary {
        name: l.name.clone(),
        url: match &l.url {
            Some(u) => Some(u.clone()),
            None => None,
        },
    }
}

fn push_libraries(dst: &mut Vec<LiteLoaderLibrary>, src: &Vec<LiteLoaderLibrary>, Ghost(all): Ghost<Seq<LiteLoaderLibrary>>, Ghost(start): Ghost<int>)
    requires
        0 <= start,
        start + src@.len() <= all.len(),
        all.subrange(start, start + src@.len()) == src@,
        library_views(old(dst)@) == library_views(dedup_libraries(
            all.take(start),
        )),
    ensures
        library_views(final(dst)@) == library_views(dedup_libraries(
            all.take(start + src@.len()),
        )),
{
    let mut i: usize = 0;
    while i < src.len()
        invariant
            i <= src.len(),
            0 <= start,
            start + src@.len() <= all.len(),
            all.subrange(start, start + src@.len()) == src@,
            library_views(dst@) == library_views(dedup_libraries(
                all.take(start + i),
            )),
        decreases src.len() - i,
    {
        let ghost prefix = all.take(start + i + 1);
        assert(prefix.drop_last() =~= all.take(start + i));
        assert(prefix.last() == src@[i as int]);
        let ghost init = dedup_libraries(all.take(start + i));
        assert(library_views(dst@).len() == dst@.len());
        assert(library_views(init).len() == init.len());
        let mut found = false;
        let mut k: usize = 0;
        while k < dst.len()
            invariant
                k <= dst.len(),
                i < src.len(),
                dst@.len() == init.len(),
                library_views(dst@) == library_views(init),
                found ==> exists|j: int| 0 <= j < init.len() && #[trigger] init[j].name@ == src@[i as int].name@,
                !found ==> forall|j: int| 0 <= j < k ==> #[trigger] init[j].name@ != src@[i as int].name@,
            decreases dst.len() - k,
        {
            assert(library_views(dst@)[k as int] == library_views(init)[k as int]);
            assert(library_view(dst@[k as int]) == library_view(init[k as int]));
            if str_eq(dst[k].name.as_str(), src[i].name.as_str()) {
                assert(init[k as int].name@ == src@[i as int].name@);
                found = true;
            }
            k += 1;
        }
        assert(library_views(dst@).len() == dst@.len());
        assert(library_views(init).len() == init.len());
        assert(dst@.len() == init.len());
        if !found {
            let ghost before = dst@;
            dst.push(copy_library(&src[i]));
            assert(library_views(dst@) =~= library_views(init.push(
                src@[i as int],
            ))) by {
                assert(library_views(before) == library_views(init));
                assert forall|j: int| 0 <= j < dst@.len() implies #[trigger] library_views(dst@)[j]
                    == library_views(init.push(src@[i as int]))[j] by {
                    if j < before.len() {
                        assert(library_views(before)[j] == library_views(init)[j]);
                        assert(dst@[j] == before[j]);
                        assert(init.push(src@[i as int])[j] == init[j]);
                    }
                }
            }
            assert(dedup_libraries(prefix) == init.push(src@[i as int]));
        } else {
            assert(dedup_libraries(prefix) == init);
        }
        i += 1;
    }
}

/// The libraries a version needs, in order, each name once.
pub fn required_libraries(entry: &LiteLoaderVersion) -> (r: Vec<LiteLoaderLibrary>)
    ensures
        library_views(r@) == library_views(dedup_libraries(
            candidate_libraries(*entry),
        )),
{
    let ghost all = candidate_libraries(*entry);
    let mut r: Vec<LiteLoaderLibrary> = Vec::new();
    let ghost mut at: int = 0;
    assert(all.take(0) =~= Seq::<LiteLoaderLibrary>::empty());
    assert(library_views(r@) =~= library_views(dedup_libraries(all.take(0))));
    if let Some(a) = &entry.artefacts {
        if let Some(t) = choose_build(&a.liteloader) {
            assert(all.subrange(0, t.libraries@.len() as int) =~= t.libraries@);
            push_libraries(&mut r, &t.libraries, Ghost(all), Ghost(0));
            proof {
                at = t.libraries@.len() as int;
            }
        }
    }
    if let Some(s) = &entry.snapshots {
        assert(all.subrange(at, at + s.libraries@.len()) =~= s.libraries@);
        push_libraries(&mut r, &s.libraries, Ghost(all), Ghost(at));
        proof {
            at = at + s.libraries@.len();
        }
        if let Some(t) = choose_build(&s.liteloader) {
            assert(all.subrange(at, at + t.libraries@.len()) =~= t.libraries@);
            push_libraries(&mut r, &t.libraries, Ghost(all), Ghost(at));
            proof {
                at = at + t.libraries@.len();
            }
        }
    }
    assert(all.take(at) =~= all);
    r
}

// ---------------------------------------------------------------------------
// The LiteLoader jar
// ---------------------------------------------------------------------------

/// The URL of a release build's jar: the version's repository (which ends
/// with a slash) followed by LiteLoader's path, the version and the file.
pub fn release_liteloader_url(repo_url: &str, version: &str, file: &str) -> (url: String)
    ensures
        url@ == repo_url@ + "com/mumfrey/liteloader/"@ + version@ + "/"@ + file@,
{
    let mut url = copy_str(repo_url);
    url.append("com/mumfrey/liteloader/");
    url.append(version);
    url.append("/");
    url.append(file);
    url
}

/// The last `/`-separated piece of a URL: its file name.
pub fn url_file_name(url: &str) -> (name: String)
    ensures
        name@ == split_seq(url@, seq!['/']).last(),
{
    let pieces = split_char(url, '/');
    proof {
        crate::text::lemma_split_nonempty(url@, seq!['/']);
    }
    let last = pieces.len() - 1;
    assert(pieces@[last as int]@ == views(pieces@).last());
    copy_str(pieces[last].as_str())
}

/// No two required libraries share a name, and every library a version
/// names is required under its name.
pub proof fn law_required_libraries_unique(libs: Seq<LiteLoaderLibrary>)
    ensures
        forall|i: int, j: int|
            0 <= i < j < dedup_libraries(libs).len() ==> #[trigger] dedup_libraries(libs)[i].name@
                != #[trigger] dedup_libraries(libs)[j].name@,
        forall|i: int|
            0 <= i < libs.len() ==> exists|j: int|
                0 <= j < dedup_libraries(libs).len() && #[trigger] dedup_libraries(libs)[j].name@
                    == #[trigger] libs[i].name@,
    decreases libs.len(),
{
    if libs.len() > 0 {
        let init_libs = libs.drop_last();
        law_required_libraries_unique(init_libs);
        let init = dedup_libraries(init_libs);
        let d = dedup_libraries(libs);
        assert forall|i: int| 0 <= i < libs.len() implies exists|j: int|
            0 <= j < d.len() && #[trigger] d[j].name@ == #[trigger] libs[i].name@ by {
            if i < libs.len() - 1 {
                assert(init_libs[i] == libs[i]);
                let j = choose|j: int| 0 <= j < init.len() && #[trigger] init[j].name@ == #[trigger] init_libs[i].name@;
                assert(d[j] == init[j]);
            } else {
                if exists|k: int| 0 <= k < init.len() && #[trigger] init[k].name@ == libs.last().name@ {
                    let k = choose|k: int| 0 <= k < init.len() && #[trigger] init[k].name@ == libs.last().name@;
                    assert(d[k] == init[k]);
                } else {
                    assert(d[init.len() as int] == libs.last());
                }
            }
        }
    }
}

/// The build chosen from a map of builds is the one under `latest` when
/// the map has that key; otherwise it is one of the map's builds. A build is
/// chosen whenever the map is not empty.
pub proof fn law_chosen_build_prefers_latest<V>(m: StringMap<V>)
    requires
        keys_distinct(m.pairs()),
    ensures
        m@.contains_key("latest"@) ==> chosen_build(m) == Some(m@["latest"@]),
        chosen_build(m) matches Some(v) ==> exists|k: Seq<char>| #[trigger] m@.contains_key(k) && m@[k] == v,
        (exists|k: Seq<char>| #[trigger] m@.contains_key(k)) ==> chosen_build(m) is Some,
{
    lemma_view_by_entries(m);
    if !m@.contains_key("latest"@) && m.pairs().len() > 0 {
        assert(m@.contains_key(m.pairs()[0].0));
        assert(m@[m.pairs()[0].0] == m.pairs()[0].1);
    }
    if exists|k: Seq<char>| #[trigger] m@.contains_key(k) {
        let k = choose|k: Seq<char>| #[trigger] m@.contains_key(k);
        let i = choose|i: int| 0 <= i < m.pairs().len() && #[trigger] m.pairs()[i].0 == k;
    }
}

/// Version numbers are compared at the first place where they differ: the
/// list with the larger number there is newer. When one list is a proper
/// prefix of the other, the longer one is newer, and no list is newer than
/// one it is a prefix of.
pub proof fn law_lex_gt_first_difference(a: Seq<u64>, b: Seq<u64>, i: int)
    requires
        0 <= i <= a.len(),
        i <= b.len(),
        a.take(i) == b.take(i),
    ensures
        i < a.len() && i < b.len() && a[i] != b[i] ==> (lex_gt(a, b) <==> a[i] > b[i]),
        i == b.len() && i < a.len() ==> lex_gt(a, b),
        i == a.len() ==> !lex_gt(a, b),
    decreases i,
{
    if i > 0 {
        assert(a[0] == a.take(i)[0]);
        assert(b[0] == b.take(i)[0]);
        assert(a.drop_first().take(i - 1) =~= b.drop_first().take(i - 1)) by {
            assert forall|k: int| 0 <= k < i - 1 implies #[trigger] a.drop_first().take(i - 1)[k]
                == b.drop_first().take(i - 1)[k] by {
                assert(a.take(i)[k + 1] == b.take(i)[k + 1]);
                assert(a.take(i)[k + 1] == a[k + 1]);
                assert(b.take(i)[k + 1] == b[k + 1]);
                assert(a.drop_first()[k] == a[k + 1]);
                assert(b.drop_first()[k] == b[k + 1]);
            }
        }
        law_lex_gt_first_difference(a.drop_first(), b.drop_first(), i - 1);
    }
}

/// Keeping first occurrences keeps the first element first.
proof fn lemma_dedup_first(s: Seq<Seq<char>>)
    requires
        s.len() > 0,
    ensures
        dedup_seq(s).len() > 0 && dedup_seq(s)[0] == s[0],
    decreases s.len(),
{
    if s.len() > 1 {
        lemma_dedup_first(s.drop_last());
        assert(s.drop_last()[0] == s[0]);
    } else {
        assert(dedup_seq(s.drop_last()) =~= Seq::<Seq<char>>::empty());
    }
}

/// The repositories tried for a library start with the library's own
/// repository (without trailing slashes) when it names one; they always
/// include LiteLoader's repository, Maven Central and the version's
/// repository (without trailing slashes), Mojang's library server for
/// LaunchWrapper, and nothing else; and none is tried twice.
pub proof fn law_candidate_bases(lib: LiteLoaderLibrary, l: LibraryLayout, repo_url: Seq<char>)
    ensures
        dedup_seq(candidate_bases_seq(lib, l, repo_url)).no_duplicates(),
        lib.url matches Some(u) ==> dedup_seq(candidate_bases_seq(lib, l, repo_url))[0]
            == trim_end_matches_seq(u@, "/"@),
        dedup_seq(candidate_bases_seq(lib, l, repo_url)).contains("http://repo.liteloader.com"@),
        dedup_seq(candidate_bases_seq(lib, l, repo_url)).contains("https://repo1.maven.org/maven2"@),
        dedup_seq(candidate_bases_seq(lib, l, repo_url)).contains(trim_end_matches_seq(repo_url, "/"@)),
        (l.group@ == "net.minecraft"@ && l.artifact@ == "launchwrapper"@) ==> dedup_seq(
            candidate_bases_seq(lib, l, repo_url),
        ).contains("https://libraries.minecraft.net"@),
        forall|x: Seq<char>|
            #[trigger] dedup_seq(candidate_bases_seq(lib, l, repo_url)).contains(x) ==> x
                == "http://repo.liteloader.com"@ || x == "https://repo1.maven.org/maven2"@ || x
                == trim_end_matches_seq(repo_url, "/"@) || (x == "https://libraries.minecraft.net"@
                && l.group@ == "net.minecraft"@ && l.artifact@ == "launchwrapper"@) || (lib.url matches Some(u)
                && x == trim_end_matches_seq(u@, "/"@)),
{
    let raw = candidate_bases_seq(lib, l, repo_url);
    lemma_dedup(raw);
    lemma_dedup_first(raw);
    let p1: Seq<Seq<char>> = match lib.url {
        Some(u) => seq![trim_end_matches_seq(u@, "/"@)],
        None => Seq::empty(),
    };
    let p2: Seq<Seq<char>> = if l.group@ == "net.minecraft"@ && l.artifact@ == "launchwrapper"@ {
        seq!["https://libraries.minecraft.net"@]
    } else {
        Seq::empty()
    };
    let p3 = seq![
        "http://repo.liteloader.com"@,
        "https://repo1.maven.org/maven2"@,
        trim_end_matches_seq(repo_url, "/"@),
    ];
    assert(raw == p1 + p2 + p3);
    let o: int = (p1.len() + p2.len()) as int;
    assert(raw[o] == p3[0]);
    assert(raw[o + 1] == p3[1]);
    assert(raw[o + 2] == p3[2]);
    if p2.len() > 0 {
        assert(raw[p1.len() as int] == p2[0]);
    }
    let b = dedup_seq(raw);
    if p1.len() > 0 {
        assert(raw[0] == p1[0]);
    }
    assert(raw.contains(p3[0]));
    assert(raw.contains(p3[1]));
    assert(raw.contains(p3[2]));
    assert(b.contains(p3[0]));
    assert(b.contains(p3[1]));
    assert(b.contains(p3[2]));
    if p2.len() > 0 {
        assert(raw.contains(p2[0]));
        assert(b.contains(p2[0]));
    }
    assert forall|x: Seq<char>| #[trigger] raw.contains(x) implies x == "http://repo.liteloader.com"@
        || x == "https://repo1.maven.org/maven2"@ || x == trim_end_matches_seq(repo_url, "/"@) || (x
        == "https://libraries.minecraft.net"@ && l.group@ == "net.minecraft"@ && l.artifact@
        == "launchwrapper"@) || (lib.url matches Some(u) && x == trim_end_matches_seq(u@, "/"@)) by {
        let k = choose|k: int| 0 <= k < raw.len() && raw[k] == x;
        if k < p1.len() {
            assert(raw[k] == p1[k]);
        } else if k < o {
            assert(raw[k] == p2[k - p1.len()]);
        } else {
            assert(raw[k] == p3[k - o]);
        }
    }
    assert forall|x: Seq<char>| #[trigger] b.contains(x) implies x == "http://repo.liteloader.com"@
        || x == "https://repo1.maven.org/maven2"@ || x == trim_end_matches_seq(repo_url, "/"@) || (x
        == "https://libraries.minecraft.net"@ && l.group@ == "net.minecraft"@ && l.artifact@
        == "launchwrapper"@) || (lib.url matches Some(u) && x == trim_end_matches_seq(u@, "/"@)) by {
        assert(raw.contains(x));
    }
}

} // verus!
