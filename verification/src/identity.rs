//! Identifiers for the players of new connections, drawn by the `uuid`
//! crate. Nothing in this file is proved.

use vstd::prelude::*;

verus! {

/// `uuid::Uuid::new_v4`, rendered as text. The crate draws 128 random bits
/// from the operating system, fixes the version and variant bits and
/// prints the value in lower-case hexadecimal digits in groups of 8, 4, 4,
/// 4 and 12, with hyphens between them: 36 characters. That two calls give
/// different identifiers is overwhelmingly likely and not claimed. The call
/// fails only where the operating system cannot supply random bytes.
#[verifier::external_body]
pub(crate) fn fresh_player_id() -> (id: String)
    ensures
        id@.len() == 36,
{
    uuid::Uuid::new_v4().to_string()
}

} // verus!
