//! Installing Risugami's ModLoader: which release, and where its archive
//! is fetched from.
pub mod schema;

use vstd::prelude::*;

use crate::text::{copy_str, first_index_of, lemma_first_index_of, lemma_first_index_of_by_prefix, str_eq};
use crate::version::{McArchiveModFile, McArchiveModVersion};
use schema::Risugami;

verus! {

/// A byte that URL encoding leaves as it is: an ASCII letter or digit, or
/// one of `-`, `_`, `.`, `~`.
pub open spec fn is_unreserved(b: u8) -> bool {
    (48 <= b <= 57) || (65 <= b <= 90) || (97 <= b <= 122) || b == 45 || b == 95 || b == 46 || b
        == 126
}

/// The uppercase hexadecimal digit of `d < 16`.
pub open spec fn hex_digit_upper(d: int) -> char {
    if d < 10 {
        (48 + d) as char
    } else {
        (55 + d) as char
    }
}

/// The percent-encoding of a byte string: every byte but the unreserved
/// ones is written as `%` and two uppercase hexadecimal digits.
pub open spec fn percent_encoded(bytes: Seq<u8>) -> Seq<char>
    decreases bytes.len(),
{
    if bytes.len() == 0 {
        Seq::empty()
    } else {
        let b = bytes.last();
        percent_encoded(bytes.drop_last()) + if is_unreserved(b) {
            seq![b as char]
        } else {
            seq!['%', hex_digit_upper((b / 16) as int), hex_digit_upper((b % 16) as int)]
        }
    }
}

/// `urlencoding::encode`: the percent-encoding of the string's UTF-8 bytes.
#[verifier::external_body]
fn url_encode(s: &str) -> (r: String)
    ensures
        r@ == percent_encoded(vstd::utf8::encode_utf8(s@)),
{
    urlencoding::encode(s).into_owned()
}

/// Where the metadata of Risugami's ModLoader releases is fetched from.
pub open spec fn risugami_versions_url() -> Seq<char> {
    "https://mcarchive.net/api/v1/mods/by_slug/modloader"@
}

impl Risugami {
    /// The endpoint listing ModLoader's releases.
    pub fn game_versions() -> (r: String)
        ensures
            r@ == risugami_versions_url(),
    {
        copy_str("https://mcarchive.net/api/v1/mods/by_slug/modloader")
    }

    /// The loader's identifier.
    pub fn id() -> (r: String)
        ensures
            r@ == "risugami"@,
    {
        copy_str("risugami")
    }
}

/// The release names of a list of mod versions.
pub open spec fn mod_version_names(vs: Seq<McArchiveModVersion>) -> Seq<Seq<char>> {
    vs.map_values(|v: McArchiveModVersion| v.name@)
}

/// The release an install uses: the first with the requested name (none
/// when there is no such release), or else the first release. Without a
/// request the list must not be empty.
pub fn select_mod_version(versions: &Vec<McArchiveModVersion>, requested: &Option<String>) -> (r:
    Option<usize>)
    requires
        requested is Some || versions@.len() > 0,
    ensures
        match requested {
            Some(name) => match first_index_of(mod_version_names(versions@), name@) {
                Some(i) => r matches Some(k) && k == i,
                None => r is None,
            },
            None => r == Some(0usize),
        },
{
    match requested {
        None => Some(0),
        Some(name) => {
            proof {
                lemma_first_index_of(mod_version_names(versions@), name@);
            }
            let mut i: usize = 0;
            while i < versions.len()
                invariant
                    i <= versions.len(),
                    *requested == Some(*name),
                    forall|j: int| 0 <= j < i ==> mod_version_names(versions@)[j] != name@,
                decreases versions.len() - i,
            {
                if str_eq(versions[i].name.as_str(), name.as_str()) {
                    proof {
                        lemma_first_index_of_by_prefix(mod_version_names(versions@), name@, i as int);
                    }
                    return Some(i);
                }
                i += 1;
            }
            proof {
                lemma_first_index_of_by_prefix(mod_version_names(versions@), name@, i as int);
            }
            None
        },
    }
}

/// Where a release file's archive is fetched from.
pub fn modloader_archive_url(file: &McArchiveModFile) -> (url: String)
    ensures
        url@ == match file.archive_url {
            Some(u) => u@,
            None => "http://b2.mcarchive.net/file/mcarchive/"@ + file.sha256@ + "/"@
                + percent_encoded(vstd::utf8::encode_utf8(file.name@)),
        },
{
    match &file.archive_url {
        Some(u) => u.clone(),
        None => {
            let mut url = copy_str("http://b2.mcarchive.net/file/mcarchive/");
            url.append(file.sha256.as_str());
            url.append("/");
            let encoded = url_encode(file.name.as_str());
            url.append(encoded.as_str());
            url
        },
    }
}

/// The name of the version directory of a release: `risugami-name`.
pub fn risugami_dir_name(version: &McArchiveModVersion) -> (name: String)
    ensures
        name@ == "risugami-"@ + version.name@,
{
    let mut name = copy_str("risugami-");
    name.append(version.name.as_str());
    name
}

/// The class ModLoader's patched client starts with.
pub fn risugami_main_class() -> (c: String)
    ensures
        c@ == "org.mcphackers.launchwrapper.Launch"@,
{
    copy_str("org.mcphackers.launchwrapper.Launch")
}

} // verus!
