//! How the browser is launched: the hardening flags every launch passes.

use vstd::prelude::*;

verus! {

/// The flags the browser is started with (each without its leading `--`,
/// which the launcher adds). WebRTC and WebTransport are off so they cannot
/// bypass the request interceptor; the back/forward cache is off so history
/// navigation always refetches (and is re-checked); background networking
/// and component updates are off to keep the request flow predictable; the
/// remaining flags keep headless launches quiet and make the browser run
/// as root or in a container without user namespaces.
pub open spec fn hardening() -> Seq<Seq<char>> {
    seq![
        "disable-features=WebRTC,WebTransport,SharedArrayBuffer,BackForwardCache"@,
        "disable-background-networking"@,
        "disable-component-update"@,
        "no-first-run"@,
        "no-default-browser-check"@,
        "disable-default-apps"@,
        "disable-dev-shm-usage"@,
        "no-sandbox"@,
    ]
}

/// The hardening flags (see [`hardening`]).
pub fn hardening_flags() -> (r: Vec<&'static str>)
    ensures
        r.len() == hardening().len(),
        forall|i: int| 0 <= i < r.len() ==> #[trigger] r@[i]@ == hardening()[i],
{
    let mut r: Vec<&'static str> = Vec::new();
    r.push("disable-features=WebRTC,WebTransport,SharedArrayBuffer,BackForwardCache");
    r.push("disable-background-networking");
    r.push("disable-component-update");
    r.push("no-first-run");
    r.push("no-default-browser-check");
    r.push("disable-default-apps");
    r.push("disable-dev-shm-usage");
    r.push("no-sandbox");
    r
}

} // verus!
