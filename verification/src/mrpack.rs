//! Modrinth modpacks (`.mrpack`): the index document, and what an install
//! shows, asks and fetches.
use vstd::prelude::*;

use crate::string_map::StringMap;
use crate::text::{
    copy_str, join_seq, join_strings, lowercased, str_eq, strip_prefix, strip_prefix_seq,
    to_lowercase, trim, trim_seq, views, is_white_space, trim_start_seq, trim_end_seq,
};

verus! {

/// Which sides of the game need a file.
#[derive(Clone)]
pub struct MrpackEnv {
    pub client: SideType,
    pub server: SideType,
}

/// Whether a side needs a file.
#[derive(Clone, Debug, PartialEq, Eq, Structural)]
pub enum SideType {
    Required,
    Optional,
    Unsupported,
}

/// An empty dependency map.
pub fn empty_hashmap() -> (m: StringMap<String>)
    ensures
        m@ == Map::<Seq<char>, String>::empty(),
{
    StringMap::new()
}

/// A file of a modpack: its path in the game directory, the sides that need
/// it, where it can be fetched, its size and its dependencies (name to
/// version).
pub struct MrpackFile {
    pub path: String,
    pub env: MrpackEnv,
    pub downloads: Vec<String>,
    pub file_size: u32,
    pub dependencies: StringMap<String>,
}

/// A modpack's index document.
pub struct MrpackIndexJson {
    pub format_version: u8,
    pub game: String,
    pub version_id: String,
    pub name: String,
    pub summary: Option<String>,
    pub files: Vec<MrpackFile>,
}

/// Only Minecraft modpacks are installed.
pub fn is_minecraft_pack(index: &MrpackIndexJson) -> (r: bool)
    ensures
        r == (index.game@ == "minecraft"@),
{
    str_eq(index.game.as_str(), "minecraft")
}

/// A file is fetched unless the client side does not support it.
pub fn is_needed_by_client(file: &MrpackFile) -> (r: bool)
    ensures
        r == (file.env.client != SideType::Unsupported),
{
    file.env.client != SideType::Unsupported
}

/// The dependencies shown for a file: `name@version` for each, in entry
/// order.
pub open spec fn dependency_labels(deps: Seq<(Seq<char>, String)>) -> Seq<Seq<char>> {
    deps.map_values(|d: (Seq<char>, String)| d.0 + "@"@ + d.1@)
}

/// `s` without the prefix, or `s` itself when it does not begin with it.
pub open spec fn strip_or_keep(s: Seq<char>, prefix: Seq<char>) -> Seq<char> {
    match strip_prefix_seq(s, prefix) {
        Some(rest) => rest,
        None => s,
    }
}

/// The line shown for a file before an install: its path and its
/// dependencies in brackets, without a leading `mods/`, then without a
/// leading `resourcepacks/`.
pub open spec fn listing_line_seq(file: MrpackFile) -> Seq<char> {
    let full = file.path@ + " ["@ + join_seq(dependency_labels(file.dependencies.pairs()), ", "@)
        + "]"@;
    strip_or_keep(strip_or_keep(full, "mods/"@), "resourcepacks/"@)
}

/// The line shown for a file before an install.
pub fn listing_line(file: &MrpackFile) -> (line: String)
    ensures
        line@ == listing_line_seq(*file),
{
    let deps = &file.dependencies;
    let n = deps.len();
    let mut labels: Vec<String> = Vec::new();
    let mut i: usize = 0;
    while i < n
        invariant
            i <= n,
            n == deps.pairs().len(),
            views(labels@) == dependency_labels(deps.pairs()).take(i as int),
        decreases n - i,
    {
        let mut label = copy_str(deps.key_at(i).as_str());
        label.append("@");
        label.append(deps.value_at(i).as_str());
        let ghost before = labels@;
        labels.push(label);
        assert(views(labels@) =~= views(before).push(label@));
        assert(dependency_labels(deps.pairs()).take(i + 1) =~= dependency_labels(deps.pairs()).take(
            i as int,
        ).push(label@));
        i += 1;
    }
    assert(dependency_labels(deps.pairs()).take(n as int) =~= dependency_labels(deps.pairs()));
    let mut full = copy_str(file.path.as_str());
    full.append(" [");
    let joined = join_strings(&labels, ", ");
    full.append(joined.as_str());
    full.append("]");
    let without_mods = match strip_prefix(full.as_str(), "mods/") {
        Some(rest) => rest,
        None => full,
    };
    match strip_prefix(without_mods.as_str(), "resourcepacks/") {
        Some(rest) => rest,
        None => without_mods,
    }
}

/// The answers that confirm an install, once lowercased and trimmed.
pub open spec fn is_yes_seq(a: Seq<char>) -> bool {
    a == "yes"@ || a == "y"@ || a == "yea"@ || a == "ye"@ || a == ""@
}

/// Whether an already lowercased answer confirms an install.
pub fn is_affirmative_lowercase(lowered: &str) -> (r: bool)
    ensures
        r == is_yes_seq(trim_seq(lowered@)),
{
    let a = trim(lowered);
    let s = a.as_str();
    str_eq(s, "yes") || str_eq(s, "y") || str_eq(s, "yea") || str_eq(s, "ye") || str_eq(s, "")
}

/// Whether an answer confirms an install: lowercased, trimmed, it is
/// `yes`, `y`, `yea`, `ye` or empty.
pub fn is_affirmative(answer: &str) -> (r: bool)
    ensures
        r == is_yes_seq(trim_seq(lowercased(answer@))),
{
    let lowered = to_lowercase(answer);
    is_affirmative_lowercase(lowered.as_str())
}

proof fn lemma_blank_trims_away(s: Seq<char>)
    requires
        forall|i: int| 0 <= i < s.len() ==> is_white_space(#[trigger] s[i]),
    ensures
        trim_start_seq(s) == Seq::<char>::empty(),
    decreases s.len(),
{
    if s.len() > 0 {
        assert(is_white_space(s[0]));
        assert forall|i: int| 0 <= i < s.drop_first().len() implies is_white_space(
            #[trigger] s.drop_first()[i],
        ) by {
            assert(s.drop_first()[i] == s[i + 1]);
        }
        lemma_blank_trims_away(s.drop_first());
    }
}

/// An answer of only white space (such as a bare Enter) confirms the
/// install, and so do `y`, `ye`, `yea` and `yes`; `n` and `no` do not.
pub proof fn law_confirmation_answers(blank: Seq<char>)
    requires
        forall|i: int| 0 <= i < blank.len() ==> is_white_space(#[trigger] blank[i]),
    ensures
        is_yes_seq(trim_seq(blank)),
        !is_yes_seq(seq!['n']) && !is_yes_seq(seq!['n', 'o']),
        is_yes_seq(seq!['y']) && is_yes_seq(seq!['y', 'e']) && is_yes_seq(seq!['y', 'e', 'a'])
            && is_yes_seq(seq!['y', 'e', 's']),
{
    lemma_blank_trims_away(blank);
    reveal_strlit("yes");
    reveal_strlit("y");
    reveal_strlit("yea");
    reveal_strlit("ye");
    reveal_strlit("");
    assert(""@ =~= Seq::<char>::empty());
    assert(trim_end_seq(Seq::<char>::empty()) == Seq::<char>::empty());
    assert("y"@ =~= seq!['y']);
    assert("ye"@ =~= seq!['y', 'e']);
    assert("yea"@ =~= seq!['y', 'e', 'a']);
    assert("yes"@ =~= seq!['y', 'e', 's']);
    assert(seq!['n'][0] != "y"@[0]);
    assert(seq!['n', 'o'][0] != "ye"@[0]);
}

} // verus!
