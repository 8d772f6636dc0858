//! The nonce: a fresh random alphanumeric string, 20 characters, generated
//! once per request.

use rand::distributions::Alphanumeric;
use rand::{thread_rng, Rng};
use vstd::prelude::*;

verus! {

/// A character the nonce may hold: an ASCII letter or digit.
pub open spec fn is_nonce_char(c: char) -> bool {
    ('A' <= c && c <= 'Z') || ('a' <= c && c <= 'z') || ('0' <= c && c <= '9')
}

/// Relies on rand's `thread_rng` with the `Alphanumeric` distribution: every
/// sampled character is one of `A-Z a-z 0-9`, and `take` yields exactly
/// `len` of them. Which characters come out is left entirely open.
#[verifier::external_body]
fn random_alphanumeric(len: usize) -> (r: String)
    ensures
        r@.len() == len,
        forall|i: int| 0 <= i < r@.len() ==> is_nonce_char(#[trigger] r@[i]),
{
    thread_rng().sample_iter(&Alphanumeric).take(len).collect()
}

/// Generate a fresh nonce: 20 random alphanumeric characters.
pub fn gen_nonce() -> (r: String)
    ensures
        r@.len() == 20,
        forall|i: int| 0 <= i < r@.len() ==> is_nonce_char(#[trigger] r@[i]),
{
    random_alphanumeric(20)
}

} // verus!
