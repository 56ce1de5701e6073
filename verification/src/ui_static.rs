//! Serving the embedded web UI (a static export): which asset a request
//! path maps to, and the headers every UI response carries so the bundle
//! cannot be reused to load outside scripts.

use vstd::prelude::*;

use crate::protect::string_views;
use crate::text::{owned, push_range, push_str_chars, str_eq, string_from_chars, to_chars};

verus! {

/// The Content-Security-Policy of every UI response.
pub const CSP: &'static str = "default-src 'self'; img-src 'self' data: blob:; connect-src 'self'; script-src 'self' 'unsafe-inline'; style-src 'self' 'unsafe-inline'; frame-ancestors 'none'; base-uri 'none'";

/// The Permissions-Policy of every UI response.
pub const PERMISSIONS_POLICY: &'static str = "geolocation=(), microphone=(), camera=(), midi=(), payment=()";

/// `s` without its leading `c`s (`str::trim_start_matches`).
pub open spec fn strip_leading(s: Seq<char>, c: char) -> Seq<char>
    decreases s.len(),
{
    if s.len() > 0 && s[0] == c {
        strip_leading(s.drop_first(), c)
    } else {
        s
    }
}

/// `s` without its trailing `c`s (`str::trim_end_matches`).
pub open spec fn strip_trailing(s: Seq<char>, c: char) -> Seq<char>
    decreases s.len(),
{
    if s.len() > 0 && s.last() == c {
        strip_trailing(s.drop_last(), c)
    } else {
        s
    }
}

/// The asset a request path names: `index.html` for the root, else the path
/// without its leading slashes.
pub open spec fn lookup_name(path: Seq<char>) -> Seq<char> {
    if path.len() == 0 || path == "/"@ {
        "index.html"@
    } else {
        strip_leading(path, '/')
    }
}

/// The assets tried for a request path, in order: the path itself, then
/// `<path>/index.html` (trailing-slash output), then the top-level
/// `index.html` so client-side routes still load.
pub open spec fn candidates(path: Seq<char>) -> Seq<Seq<char>> {
    let l = lookup_name(path);
    seq![l, strip_trailing(l, '/') + "/index.html"@, "index.html"@]
}

fn strip_leading_range(v: &Vec<char>, lo: usize, hi: usize, c: char) -> (a: usize)
    requires
        lo <= hi <= v.len(),
    ensures
        lo <= a <= hi,
        v@.subrange(a as int, hi as int) == strip_leading(v@.subrange(lo as int, hi as int), c),
{
    let mut i = lo;
    while i < hi && v[i] == c
        invariant
            lo <= i <= hi <= v.len(),
            strip_leading(v@.subrange(i as int, hi as int), c) == strip_leading(
                v@.subrange(lo as int, hi as int),
                c,
            ),
        decreases hi - i,
    {
        assert(v@.subrange(i as int, hi as int).drop_first() =~= v@.subrange(i + 1, hi as int));
        i = i + 1;
    }
    i
}

fn strip_trailing_range(v: &Vec<char>, lo: usize, hi: usize, c: char) -> (b: usize)
    requires
        lo <= hi <= v.len(),
    ensures
        lo <= b <= hi,
        v@.subrange(lo as int, b as int) == strip_trailing(v@.subrange(lo as int, hi as int), c),
{
    let mut j = hi;
    while j > lo && v[j - 1] == c
        invariant
            lo <= j <= hi <= v.len(),
            strip_trailing(v@.subrange(lo as int, j as int), c) == strip_trailing(
                v@.subrange(lo as int, hi as int),
                c,
            ),
        decreases j - lo,
    {
        assert(v@.subrange(lo as int, j as int).drop_last() =~= v@.subrange(lo as int, j - 1));
        j = j - 1;
    }
    j
}

/// The assets to try for a request path (see [`candidates`]).
pub fn asset_candidates(path: &str) -> (r: Vec<String>)
    ensures
        r.len() == 3,
        forall|i: int| 0 <= i < 3 ==> #[trigger] r@[i]@ == candidates(path@)[i],
{
    let v = to_chars(path);
    let n = v.len();
    assert(v@.subrange(0, n as int) =~= v@);
    let look: Vec<char> = if n == 0 || str_eq(path, "/") {
        to_chars("index.html")
    } else {
        let a = strip_leading_range(&v, 0, n, '/');
        let mut l: Vec<char> = Vec::new();
        push_range(&mut l, &v, a, n);
        assert(l@ =~= v@.subrange(a as int, n as int));
        l
    };
    assert(look@ == lookup_name(path@));
    let m = look.len();
    assert(look@.subrange(0, m as int) =~= look@);
    let b = strip_trailing_range(&look, 0, m, '/');
    let mut second: Vec<char> = Vec::new();
    push_range(&mut second, &look, 0, b);
    push_str_chars(&mut second, "/index.html");
    let mut r: Vec<String> = Vec::new();
    r.push(string_from_chars(&look));
    r.push(string_from_chars(&second));
    r.push(owned("index.html"));
    r
}

} // verus!

verus! {

/// The content type `mime_guess` gives an asset name (by its extension;
/// `application/octet-stream` when it knows none).
pub uninterp spec fn content_type_of(name: Seq<char>) -> Seq<char>;

/// `mime_guess::from_path(name).first_or_octet_stream()`, as text. A guess
/// from the name's extension alone (no file is read); which type it gives
/// is named, not stated.
#[verifier::external_body]
fn guess_content_type(name: &str) -> (t: String)
    ensures
        t@ == content_type_of(name@),
{
    mime_guess::from_path(name).first_or_octet_stream().to_string()
}

/// The answer to a UI request.
#[derive(Debug)]
pub enum UiResponse {
    /// 200: the asset `name`, sent with `content_type` and the
    /// [`CSP`] and [`PERMISSIONS_POLICY`] headers.
    Asset { name: String, content_type: String },
    /// 404 `not found`.
    NotFound,
}

/// The first of the candidates for `path` that is among the `available`
/// assets.
pub open spec fn first_available(path: Seq<char>, available: Seq<Seq<char>>) -> Option<Seq<char>> {
    let c = candidates(path);
    if available.contains(c[0]) {
        Some(c[0])
    } else if available.contains(c[1]) {
        Some(c[1])
    } else if available.contains(c[2]) {
        Some(c[2])
    } else {
        None
    }
}

fn contains_text(v: &Vec<String>, s: &str) -> (b: bool)
    ensures
        b == string_views(v@).contains(s@),
{
    let mut i: usize = 0;
    while i < v.len()
        invariant
            i <= v.len(),
            forall|j: int| 0 <= j < i ==> v@[j]@ != s@,
        decreases v.len() - i,
    {
        if str_eq(v[i].as_str(), s) {
            assert(string_views(v@)[i as int] == s@);
            return true;
        }
        i = i + 1;
    }
    proof {
        if string_views(v@).contains(s@) {
            let k = choose|k: int| 0 <= k < string_views(v@).len() && string_views(v@)[k] == s@;
            assert(v@[k]@ == s@);
        }
    }
    false
}

/// The answer to a request for `path` when the embedded UI holds the assets
/// named in `available`: the first candidate asset that exists, else 404.
pub fn ui_response(path: &str, available: &Vec<String>) -> (r: UiResponse)
    ensures
        match first_available(path@, string_views(available@)) {
            Some(name) => r matches UiResponse::Asset { name: n, content_type } && n@ == name
                && content_type@ == content_type_of(name),
            None => r is NotFound,
        },
{
    let c = asset_candidates(path);
    let mut i: usize = 0;
    while i < 3
        invariant
            i <= 3,
            c.len() == 3,
            forall|k: int| 0 <= k < 3 ==> #[trigger] c@[k]@ == candidates(path@)[k],
            forall|k: int| 0 <= k < i ==> !string_views(available@).contains(candidates(path@)[k]),
        decreases 3 - i,
    {
        if contains_text(available, c[i].as_str()) {
            let name = owned(c[i].as_str());
            let content_type = guess_content_type(name.as_str());
            return UiResponse::Asset { name, content_type };
        }
        i = i + 1;
    }
    UiResponse::NotFound
}

} // verus!
