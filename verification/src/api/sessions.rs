//! Session lifecycle endpoints and the ids they hand out. Ids are not
//! secrets (the bearer token guards the API); they only need to be unique.

use vstd::prelude::*;

use crate::text::{hex_fixed, push_hex, push_str_chars, string_from_chars};

verus! {

/// The answer to `POST /sessions`.
#[derive(Debug)]
pub struct SessionCreated {
    pub id: String,
}

/// The id of the session numbered `n`: `s_` and 32 lowercase hex digits.
pub open spec fn session_id_text(n: u128) -> Seq<char> {
    "s_"@ + hex_fixed(n as nat, 32)
}

/// The session id for the number `n`.
pub fn session_id_for(n: u128) -> (id: String)
    ensures
        id@ == session_id_text(n),
{
    let mut out: Vec<char> = Vec::new();
    push_str_chars(&mut out, "s_");
    push_hex(&mut out, n, 32);
    string_from_chars(&out)
}

/// `rand::random::<u128>()`: a number drawn from the thread-local
/// generator. Nothing is stated of it.
#[verifier::external_body]
fn random_u128() -> u128 {
    rand::random()
}

/// A fresh session id, for a random number.
pub fn new_session_id() -> (id: String)
    ensures
        exists|n: u128| id@ == session_id_text(n),
{
    let n = random_u128();
    session_id_for(n)
}

} // verus!
