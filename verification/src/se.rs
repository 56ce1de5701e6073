//! Naming of the operator's Secure Enclave policy-signing key in the macOS
//! keychain.

use vstd::prelude::*;

use crate::text::{push_str_chars, string_from_chars};

verus! {

/// Label used when `--signing-key secure-enclave` carries no explicit name.
pub const DEFAULT_LABEL: &'static str = "acb-policy";

/// The namespace every keychain label of a policy signing key starts with.
pub const LABEL_PREFIX: &'static str = "access-control-browser policy signing key: ";

/// `kSecAttrLabel` value for a key named `label`. Namespaced so the CLI
/// never picks up an unrelated key with a short label.
pub fn keychain_label(label: &str) -> (r: String)
    ensures
        r@ == LABEL_PREFIX@ + label@,
{
    let mut out: Vec<char> = Vec::new();
    push_str_chars(&mut out, LABEL_PREFIX);
    push_str_chars(&mut out, label);
    assert(out@ =~= LABEL_PREFIX@ + label@);
    string_from_chars(&out)
}

} // verus!
