//! Types of the standard library and of outside crates that the launcher's
//! data carries through unchanged.
use vstd::prelude::*;

verus! {

/// A filesystem path (`std::path::PathBuf`), carried as an opaque value.
#[verifier::external_type_specification]
#[verifier::external_body]
pub struct ExPathBuf(std::path::PathBuf);

/// `PathBuf::clone`: a copy of the path. Nothing is stated of the copy,
/// as the path is opaque here.
pub assume_specification[ <std::path::PathBuf as Clone>::clone ](p: &std::path::PathBuf) -> std::path::PathBuf;

/// A borrowed filesystem path (`std::path::Path`), carried as an opaque value.
#[verifier::external_type_specification]
#[verifier::external_body]
pub struct ExPath(std::path::Path);

/// A set of terminal progress bars (`indicatif::MultiProgress`), carried as
/// an opaque value.
#[verifier::external_type_specification]
#[verifier::external_body]
pub struct ExMultiProgress(indicatif::MultiProgress);

/// A UUID (`uuid::Uuid`), carried as an opaque value.
#[verifier::external_type_specification]
#[verifier::external_body]
pub struct ExUuid(uuid::Uuid);

/// A lowercase hexadecimal digit.
pub open spec fn is_lower_hex(c: char) -> bool {
    ('0' <= c <= '9') || ('a' <= c <= 'f')
}

/// `s` is a version-4 UUID written in the hyphenated lowercase form
/// `xxxxxxxx-xxxx-4xxx-yxxx-xxxxxxxxxxxx`, with `y` one of `8`, `9`, `a`, `b`.
pub open spec fn is_v4_uuid_text(s: Seq<char>) -> bool {
    &&& s.len() == 36
    &&& forall|i: int|
        0 <= i < 36 ==> if i == 8 || i == 13 || i == 18 || i == 23 {
            s[i] == '-'
        } else {
            is_lower_hex(#[trigger] s[i])
        }
    &&& s[14] == '4'
    &&& (s[19] == '8' || s[19] == '9' || s[19] == 'a' || s[19] == 'b')
}

/// `uuid::Uuid::new_v4().to_string()`: a randomly drawn version-4 UUID in
/// its hyphenated lowercase text form. Which UUID comes back is left open.
#[verifier::external_body]
pub(crate) fn new_v4_uuid_text() -> (s: String)
    ensures
        is_v4_uuid_text(s@),
{
    uuid::Uuid::new_v4().to_string()
}

} // verus!
