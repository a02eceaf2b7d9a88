//! Identifiers. Messages, conversations and branches are named by 128-bit
//! UUIDs, held here as `u128`.

use vstd::prelude::*;
use vstd::string::*;

verus! {

/// The text of a UUID in the hyphenated lower-case form, as `uuid` prints it.
pub uninterp spec fn hyphenated_uuid(id: u128) -> Seq<char>;

/// What `uuid::Uuid::parse_str` makes of a text: the UUID it denotes, or the
/// text of the error that it reports.
pub uninterp spec fn parsed_uuid(text: Seq<char>) -> Result<u128, Seq<char>>;

/// An outcome that carries its error as a string, with the string by its
/// characters.
pub open spec fn text_result_view(result: Result<u128, String>) -> Result<u128, Seq<char>> {
    match result {
        Ok(id) => Ok(id),
        Err(message) => Err(message@),
    }
}

/// The bits of a UUID that hold its version and its variant.
pub const UUID_VERSION_VARIANT_MASK: u128 = 0x0000_0000_0000_f000_c000_0000_0000_0000u128;

/// Those bits in a random (version 4) UUID of the RFC variant.
pub const UUID_RANDOM_RFC: u128 = 0x0000_0000_0000_4000_8000_0000_0000_0000u128;

/// A fresh random identifier from `uuid::Uuid::new_v4`, as a `u128`.
///
/// Trusted: every UUID that `new_v4` returns carries version 4 and the RFC
/// variant. Two calls may return anything else in the remaining bits.
#[verifier::external_body]
pub(crate) fn new_uuid() -> (id: u128)
    ensures
        id & UUID_VERSION_VARIANT_MASK == UUID_RANDOM_RFC,
{
    uuid::Uuid::new_v4().as_u128()
}

/// The hyphenated text of `id`, from the `Display` impl of `uuid::Uuid`.
///
/// Trusted: the text depends on `id` alone.
#[verifier::external_body]
pub(crate) fn uuid_text(id: u128) -> (text: String)
    ensures
        text@ == hyphenated_uuid(id),
{
    uuid::Uuid::from_u128(id).to_string()
}

/// `uuid::Uuid::parse_str` on `text`, with the UUID as a `u128` and the
/// error as the text of its `Display` impl.
///
/// Trusted: the outcome depends on `text` alone.
#[verifier::external_body]
pub(crate) fn parse_uuid(text: &str) -> (parsed: Result<u128, String>)
    ensures
        parsed_uuid(text@) == text_result_view(parsed),
{
    match uuid::Uuid::parse_str(text) {
        Ok(id) => Ok(id.as_u128()),
        Err(error) => Err(error.to_string()),
    }
}

/// The message with which `validate_uuid` rejects a text that `parse_str`
/// rejected with `reason`.
pub open spec fn invalid_uuid_message(reason: Seq<char>) -> Seq<char> {
    "Invalid UUID: "@ + reason
}

/// The outcome of parsing turned into the outcome of validation: an id is
/// kept, a reason is put behind the words "Invalid UUID: ".
pub open spec fn explained(parsed: Result<u128, Seq<char>>) -> Result<u128, Seq<char>> {
    match parsed {
        Ok(id) => Ok(id),
        Err(reason) => Err(invalid_uuid_message(reason)),
    }
}

/// What `validate_uuid` returns on `text`.
pub open spec fn validated_uuid(text: Seq<char>) -> Result<u128, Seq<char>> {
    explained(parsed_uuid(text))
}

/// Reads a UUID from a string of hexadecimal digits with optional hyphens.
pub fn validate_uuid(uuid_str: &str) -> (result: Result<u128, String>)
    ensures
        text_result_view(result) == validated_uuid(uuid_str@),
{
    explain_parsed_uuid(parse_uuid(uuid_str))
}

/// Turns the outcome of parsing into the outcome of validation.
pub fn explain_parsed_uuid(parsed: Result<u128, String>) -> (result: Result<u128, String>)
    ensures
        text_result_view(result) == explained(text_result_view(parsed)),
{
    match parsed {
        Ok(id) => Ok(id),
        Err(reason) => {
            let mut message = "Invalid UUID: ".to_owned();
            message.append(reason.as_str());
            Err(message)
        },
    }
}

/// Accepts a list of identifiers that is not empty.
pub fn validate_uuid_list(uuids: &[u128]) -> (result: Result<(), String>)
    ensures
        uuids@.len() > 0 ==> result == Ok::<(), String>(()),
        uuids@.len() == 0 ==> (result matches Err(message) && message@
            == "UUID list cannot be empty"@),
{
    if uuids.len() == 0 {
        return Err("UUID list cannot be empty".to_owned());
    }
    Ok(())
}

} // verus!
