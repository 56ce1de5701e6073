//! The fixed DOM helper that is injected into an isolated world of every
//! page. Its SHA-256 fingerprint is published (in `GET /config`) so that
//! any change to the shipped helper is visible.

use sha2::{Digest, Sha256};
use vstd::prelude::*;

use crate::text::{hex_fixed, push_hex, string_from_chars};

verus! {

/// The name of the isolated world the helper runs in.
pub const ACB_WORLD: &'static str = "acb_world";

/// The SHA-256 digest of `data`.
pub uninterp spec fn sha256_digest(data: Seq<u8>) -> Seq<u8>;

/// `<sha2::Sha256 as Digest>::digest`: the 32-byte SHA-256 digest of
/// `data`, a function of the bytes alone.
#[verifier::external_body]
fn sha256(data: &[u8]) -> (d: Vec<u8>)
    ensures
        d@ == sha256_digest(data@),
        d@.len() == 32,
{
    Sha256::digest(data).to_vec()
}

/// Each byte as two lowercase hex digits, in order.
pub open spec fn hex_bytes(b: Seq<u8>) -> Seq<char>
    decreases b.len(),
{
    if b.len() == 0 {
        Seq::empty()
    } else {
        hex_bytes(b.drop_last()) + hex_fixed(b.last() as nat, 2)
    }
}

proof fn lemma_hex_fixed_len(n: nat, w: nat)
    ensures
        hex_fixed(n, w).len() == w,
    decreases w,
{
    if w > 0 {
        lemma_hex_fixed_len(n / 16, (w - 1) as nat);
    }
}

proof fn lemma_hex_bytes_len(b: Seq<u8>)
    ensures
        hex_bytes(b).len() == 2 * b.len(),
    decreases b.len(),
{
    if b.len() > 0 {
        lemma_hex_bytes_len(b.drop_last());
        lemma_hex_fixed_len(b.last() as nat, 2);
    }
}

/// The lowercase hex form of `bytes`.
pub fn hex_lower(bytes: &Vec<u8>) -> (s: String)
    ensures
        s@ == hex_bytes(bytes@),
        s@.len() == 2 * bytes@.len(),
{
    let mut out: Vec<char> = Vec::new();
    let mut i: usize = 0;
    while i < bytes.len()
        invariant
            i <= bytes.len(),
            out@ == hex_bytes(bytes@.take(i as int)),
        decreases bytes.len() - i,
    {
        push_hex(&mut out, bytes[i] as u128, 2);
        assert(bytes@.take(i + 1).drop_last() =~= bytes@.take(i as int));
        i = i + 1;
    }
    assert(bytes@.take(bytes.len() as int) =~= bytes@);
    proof {
        lemma_hex_bytes_len(bytes@);
    }
    string_from_chars(&out)
}

/// The fingerprint of the helper script `source`: the lowercase hex form of
/// the SHA-256 digest of its UTF-8 bytes (64 characters).
pub fn helper_sha256(source: &str) -> (s: String)
    ensures
        s@ == hex_bytes(sha256_digest(vstd::utf8::encode_utf8(source@))),
        s@.len() == 64,
{
    let d = sha256(source.as_bytes());
    hex_lower(&d)
}

} // verus!
