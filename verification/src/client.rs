//! The daemon's bearer token as the CLI reads it from the token file the
//! daemon writes on startup.

use vstd::prelude::*;

use crate::text::{lines, opt_text, next_piece, skip_ws, skip_ws_back, substring, to_chars, trim};

verus! {

/// The token held by a token file's text: its first line, trimmed; none
/// for an empty file.
pub open spec fn token_of(text: Seq<char>) -> Option<Seq<char>> {
    if text.len() == 0 {
        None
    } else {
        Some(trim(lines(text)[0]))
    }
}

/// The token in the text of a token file (`None`: the file is empty).
pub fn token_from_text(text: &str) -> (r: Option<String>)
    ensures
        opt_text(r) == token_of(text@),
{
    let v = to_chars(text);
    let n = v.len();
    if n == 0 {
        return None;
    }
    let (_next, stop) = next_piece(&v, 0, n);
    let a = skip_ws(&v, 0, stop);
    let b = skip_ws_back(&v, a, stop);
    proof {
        let s = v@;
        assert(s.subrange(0, n as int) =~= s);
        assert(lines(s)[0] == s.subrange(0, stop as int));
    }
    Some(substring(&v, a, b))
}

} // verus!

verus! {

/// Whether the health probe was answered by this daemon: a success status
/// that carries the `x-acb: 1` marker, which another service bound to the
/// same port would not send.
pub fn is_our_daemon(success: bool, marker: &Option<Vec<u8>>) -> (b: bool)
    ensures
        b == (success && (marker matches Some(v) && v@ == seq![0x31u8])),
{
    match marker {
        Some(v) => {
            if success && v.len() == 1 && v[0] == 0x31u8 {
                assert(v@ =~= seq![0x31u8]);
                true
            } else {
                false
            }
        },
        None => false,
    }
}

} // verus!
