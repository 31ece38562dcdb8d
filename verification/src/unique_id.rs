//! Random unique identifiers (version 4 UUIDs) and their text.

use vstd::prelude::*;

verus! {

/// A UUID, opaque to the verifier.
#[verifier::external_type_specification]
#[verifier::external_body]
pub struct ExUuid(uuid::Uuid);

/// A new random (version 4) UUID.
///
/// Trusted: calls `uuid::Uuid::new_v4`; the result depends on chance, so
/// nothing is stated of it.
#[verifier::external_body]
pub(crate) fn new_uuid() -> (r: uuid::Uuid) {
    uuid::Uuid::new_v4()
}

/// The name for the hyphenated text of a UUID.
pub uninterp spec fn uuid_hyphenated(id: uuid::Uuid) -> Seq<char>;

/// The text of a UUID.
///
/// Trusted: calls `to_string` on the UUID, whose `Display` writes the
/// hyphenated lowercase form of 36 characters; the text depends on the UUID
/// alone and is named.
#[verifier::external_body]
pub(crate) fn uuid_text(id: &uuid::Uuid) -> (r: String)
    ensures
        r@ == uuid_hyphenated(*id),
        r@.len() == 36,
{
    id.to_string()
}

} // verus!
