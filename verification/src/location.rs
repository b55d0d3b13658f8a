//! Where a version of table metadata is written. Every version gets a file
//! of its own, named after its sequence number and a random token, so that
//! two commits never write to the same place.
use crate::metadata::TableMetadata;
use crate::text::{decimal, decimal_string};
use vstd::prelude::*;
use vstd::string::*;

verus! {

/// A digit or one of the letters `a` to `f`.
pub open spec fn is_lower_hex(c: char) -> bool {
    ('0' <= c && c <= '9') || ('a' <= c && c <= 'f')
}

/// Whether a position of a hyphenated token holds a hyphen.
pub open spec fn is_hyphen_place(i: int) -> bool {
    i == 8 || i == 13 || i == 18 || i == 23
}

/// The shape of a token: thirty-two lower-case hexadecimal digits in groups
/// of eight, four, four, four and twelve, with a hyphen between groups.
pub open spec fn is_token(token: Seq<char>) -> bool {
    &&& token.len() == 36
    &&& forall|i: int|
        0 <= i < 36 ==> if is_hyphen_place(i) {
            token[i] == '-'
        } else {
            is_lower_hex(#[trigger] token[i])
        }
}

/// The location of the file for the version with the given sequence number,
/// under the table's root and with the given token in its name.
pub open spec fn metadata_location_text(root: Seq<char>, version: int, token: Seq<char>) -> Seq<
    char,
> {
    root + "/metadata/"@ + decimal(version) + "-"@ + token + ".metadata.json"@
}

/// Whether `location` names a file for the given version under the given
/// root, with some token.
pub open spec fn is_metadata_location(location: Seq<char>, root: Seq<char>, version: int) -> bool {
    exists|token: Seq<char>|
        is_token(token) && location == #[trigger] metadata_location_text(root, version, token)
}

/// Draws a random identifier with `uuid::Uuid::new_v4` and writes it out.
/// Which identifier comes is left open; written out it is always in the
/// lower-case hyphenated form.
#[verifier::external_body]
fn random_token() -> (token: String)
    ensures
        is_token(token@),
{
    uuid::Uuid::new_v4().to_string()
}

/// The location of the file for the version with the given sequence number,
/// under the table's root and with the given token in its name.
pub fn metadata_location(root: &str, version: i64, token: &str) -> (location: String)
    ensures
        location@ == metadata_location_text(root@, version as int, token@),
{
    let mut location = String::from_str(root);
    location.append("/metadata/");
    location.append(decimal_string(version).as_str());
    location.append("-");
    location.append(token);
    location.append(".metadata.json");
    location
}

/// A location for the given version of the metadata that no other commit
/// will pick.
pub fn new_metadata_location(metadata: &TableMetadata) -> (location: String)
    ensures
        is_metadata_location(
            location@,
            metadata.location@,
            metadata.last_sequence_number as int,
        ),
{
    let token = random_token();
    metadata_location(
        metadata.location.as_str(),
        metadata.last_sequence_number,
        token.as_str(),
    )
}

} // verus!
