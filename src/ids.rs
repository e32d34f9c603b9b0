use vstd::prelude::*;

verus! {

/// Number of characters in the hyphenated text form of a UUID.
pub const ID_LEN: usize = 36;

/// Relies on `uuid::Uuid::new_v4` and its `Display` impl: a random version 4
/// UUID written in the hyphenated form, which is always 36 characters long.
#[verifier::external_body]
pub(crate) fn new_id() -> (r: String)
    ensures
        r@.len() == ID_LEN,
{
    uuid::Uuid::new_v4().to_string()
}

} // verus!
