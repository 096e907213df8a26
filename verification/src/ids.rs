//! Fresh identifiers for rows and bearer tokens.

use vstd::prelude::*;

verus! {

/// The number of characters in an identifier.
pub const ID_LENGTH: usize = 36;

/// A fresh random identifier: a version-4 UUID from `uuid::Uuid::new_v4`,
/// written in its hyphenated form.
///
/// Trusted: the text has thirty-six characters. Which ones is left open: they
/// come from the operating system's random numbers.
#[verifier::external_body]
pub(crate) fn fresh_id() -> (id: String)
    ensures
        id@.len() == ID_LENGTH,
{
    uuid::Uuid::new_v4().to_string()
}

} // verus!
