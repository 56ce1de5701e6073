//! The daemon's view of the on-disk policy: where its detached signature
//! lives, and the rollback guard. Startup, the hot-reload watcher and the
//! admin reload endpoint all look for the signature at this one path and go
//! through the same guard: with verify keys configured, a policy is accepted
//! only if its revision is not lower than the one in effect.

use vstd::prelude::*;

use crate::sign::SIG_SUFFIX;

verus! {

/// `config.yaml` -> `config.yaml.sig` (what `ssh-keygen -Y sign` writes).
pub fn sig_path(config: &str) -> (r: String)
    ensures
        r@ == config@ + SIG_SUFFIX@,
{
    crate::sign::sig_path(config)
}

/// The revision a newly loaded policy is checked against: the revision in
/// effect, when policy verification is on and one is in effect (at startup
/// there is none). An unsigned file can be rewritten to any revision anyway,
/// so without verify keys there is nothing to check against.
pub fn rollback_floor(verifying: bool, current_revision: Option<u64>) -> (r: Option<u64>)
    ensures
        r == (if verifying {
            current_revision
        } else {
            None
        }),
{
    if verifying {
        current_revision
    } else {
        None
    }
}

/// Whether a policy of revision `revision` passes the rollback guard with
/// floor `floor` (see [`rollback_floor`]): its revision is not lower than
/// the floor.
pub fn revision_accepted(floor: Option<u64>, revision: u64) -> (b: bool)
    ensures
        b == match floor {
            Some(cur) => revision >= cur,
            None => true,
        },
{
    match floor {
        Some(cur) => revision >= cur,
        None => true,
    }
}

} // verus!
