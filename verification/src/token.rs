//! Randomly generated identifiers: room codes and per-player tokens.

use vstd::prelude::*;
use rand::Rng;

verus! {

/// Whether a character is one of the 62 ASCII alphanumerics used in room
/// codes.
pub open spec fn ascii_alphanumeric(c: char) -> bool {
    ||| 'a' as u32 <= c as u32 && c as u32 <= 'z' as u32
    ||| 'A' as u32 <= c as u32 && c as u32 <= 'Z' as u32
    ||| '0' as u32 <= c as u32 && c as u32 <= '9' as u32
}

/// Relies on rand's thread_rng with the Alphanumeric distribution: every
/// sampled byte is one of the 62 ASCII alphanumeric characters; nothing more
/// is known of a random sample.
#[verifier::external_body]
pub(crate) fn random_room_code() -> (r: String)
    ensures
        r@.len() == 7,
        forall|i: int| 0 <= i < 7 ==> ascii_alphanumeric(r@[i]),
{
    rand::thread_rng()
        .sample_iter(&rand::distributions::Alphanumeric)
        .take(7)
        .map(char::from)
        .collect()
}

/// Relies on uuid's Uuid::new_v4 rendered through Display: the hyphenated
/// textual form is 36 characters long; the value itself is random, so nothing
/// more is known of it.
#[verifier::external_body]
pub(crate) fn fresh_token() -> (r: String)
    ensures
        r@.len() == 36,
{
    uuid::Uuid::new_v4().to_string()
}

} // verus!
