//! Operator-side signing of `config.yaml`: the detached-signature path, the
//! `ssh-keygen -Y sign` command line, and the text-level `revision:` counter
//! that every signed edit bumps (the daemon's rollback guard reads it).

use vstd::prelude::*;

use crate::protect::{CommandSpec, CommandView};
use crate::text::{owned, 
    all_digits, all_ws, eol_len, is_ws, lemma_before_char_concat, lemma_decimal_props,
    lemma_digit_run, lemma_find_char_unique, lemma_strip_eol, lemma_trim_end_keeps,
    lemma_trim_end_ws_suffix, lemma_trim_start, lemma_trim_start_ws_prefix, strip_eol, trim_end,
    trim_start, before_char, decimal, digit_run, find_in, first_piece_len, is_ascii_digit, is_digit,
    lemma_first_piece, lines, next_piece, parse_u64, parse_u64_range, push_decimal, push_range,
    push_str_chars, skip_ws, skip_ws_back, string_from_chars, to_chars, trim, ws_len,
};

verus! {

/// The suffix of the detached signature file next to the policy.
pub const SIG_SUFFIX: &'static str = ".sig";

/// The sshsig namespace the policy signatures are made in.
pub const NAMESPACE: &'static str = "acb-policy";

/// `revision:`, the top-level key that carries the policy revision.
pub open spec fn revision_key() -> Seq<char> {
    seq!['r', 'e', 'v', 'i', 's', 'i', 'o', 'n', ':']
}

pub open spec fn starts_with(s: Seq<char>, p: Seq<char>) -> bool {
    p.len() <= s.len() && s.take(p.len() as int) == p
}

/// The revision a single line declares: the line starts with `revision:`
/// and the text after it, up to a `#` comment and trimmed, is a `u64`.
pub open spec fn line_revision(line: Seq<char>) -> Option<u64> {
    if starts_with(line, revision_key()) {
        parse_u64(trim(before_char(line.skip(9), '#')))
    } else {
        None
    }
}

/// The first line of `ls` that declares a revision.
pub open spec fn first_revision(ls: Seq<Seq<char>>) -> Option<u64>
    decreases ls.len(),
{
    if ls.len() == 0 {
        None
    } else {
        match line_revision(ls[0]) {
            Some(r) => Some(r),
            None => first_revision(ls.drop_first()),
        }
    }
}

/// The `revision:` value of a policy document (see [`current_revision`]).
pub open spec fn revision_of(text: Seq<char>) -> Option<u64> {
    first_revision(lines(text))
}

/// Where the number on a `revision:` line starts: after the key and the
/// whitespace that follows it.
pub open spec fn revision_head_len(line: Seq<char>) -> nat {
    9 + ws_len(line.skip(9))
}

/// Where the rest of a `revision:` line starts: after the digits.
pub open spec fn revision_tail_start(line: Seq<char>) -> nat {
    revision_head_len(line) + digit_run(line.skip(revision_head_len(line) as int))
}

/// A `revision:` line with its number replaced by `n`.
pub open spec fn replace_revision(line: Seq<char>, n: u64) -> Seq<char> {
    line.take(revision_head_len(line) as int) + decimal(n as nat) + line.skip(
        revision_tail_start(line) as int,
    )
}

/// `text` with the number on its first line that starts with `revision:`
/// replaced by `n`; every other character unchanged.
pub open spec fn replace_first_revision(s: Seq<char>, n: u64) -> Seq<char>
    decreases s.len(),
{
    if s.len() == 0 {
        Seq::empty()
    } else {
        let k = first_piece_len(s);
        proof {
            lemma_first_piece(s);
        }
        let p = s.take(k as int);
        if starts_with(p, revision_key()) {
            replace_revision(p, n) + s.skip(k as int)
        } else {
            p + replace_first_revision(s.skip(k as int), n)
        }
    }
}

/// The revision a bumped policy carries.
pub open spec fn next_revision(text: Seq<char>) -> u64 {
    match revision_of(text) {
        Some(c) => if c == u64::MAX {
            c
        } else {
            (c + 1) as u64
        },
        None => 1,
    }
}

/// The text of a bumped policy.
pub open spec fn bumped_text(text: Seq<char>) -> Seq<char> {
    match revision_of(text) {
        Some(_) => replace_first_revision(text, next_revision(text)),
        None => revision_key() + seq![' ', '1', '\n'] + text,
    }
}

/// The `ssh-keygen` invocation that signs `staged` with `signing_key` in
/// the policy namespace; it writes the signature to `<staged>.sig`. It runs
/// as the operator, never elevated, so the key's own presence check
/// (passphrase, agent confirmation, security-key touch) reaches the human.
pub fn sign_command(signing_key: &str, staged: &str) -> (r: CommandSpec)
    ensures
        r@ == (CommandView {
            program: "ssh-keygen"@,
            args: seq!["-Y"@, "sign"@, "-f"@, signing_key@, "-n"@, NAMESPACE@, staged@],
            elevate: false,
        }),
{
    let mut args: Vec<String> = Vec::new();
    args.push(owned("-Y"));
    args.push(owned("sign"));
    args.push(owned("-f"));
    args.push(owned(signing_key));
    args.push(owned("-n"));
    args.push(owned(NAMESPACE));
    args.push(owned(staged));
    let r = CommandSpec { program: owned("ssh-keygen"), args, elevate: false };
    assert(r@.args =~= seq!["-Y"@, "sign"@, "-f"@, signing_key@, "-n"@, NAMESPACE@, staged@]);
    r
}

/// `config.yaml` -> `config.yaml.sig`.
pub fn sig_path(config: &str) -> (r: String)
    ensures
        r@ == config@ + SIG_SUFFIX@,
{
    let mut out = to_chars(config);
    push_str_chars(&mut out, SIG_SUFFIX);
    string_from_chars(&out)
}

fn revision_key_chars() -> (k: Vec<char>)
    ensures
        k@ == revision_key(),
{
    let k = to_chars("revision:");
    proof {
        reveal_strlit("revision:");
    }
    assert(k@ =~= revision_key());
    k
}

/// Whether `v[lo..hi]` starts with `revision:`.
fn has_revision_key(v: &Vec<char>, lo: usize, hi: usize, key: &Vec<char>) -> (b: bool)
    requires
        lo <= hi <= v.len(),
        key@ == revision_key(),
    ensures
        b == starts_with(v@.subrange(lo as int, hi as int), revision_key()),
{
    if hi - lo < 9 {
        return false;
    }
    let mut i: usize = 0;
    while i < 9
        invariant
            lo + 9 <= hi <= v.len(),
            key@ == revision_key(),
            i <= 9,
            forall|j: int| 0 <= j < i ==> v@[lo + j] == key@[j],
        decreases 9 - i,
    {
        if v[lo + i] != key[i] {
            assert(v@.subrange(lo as int, hi as int).take(9)[i as int] != revision_key()[i as int]);
            return false;
        }
        i = i + 1;
    }
    assert(v@.subrange(lo as int, hi as int).take(9) =~= revision_key());
    true
}

/// `line_revision` of `v[lo..hi]`.
fn line_revision_range(v: &Vec<char>, lo: usize, hi: usize, key: &Vec<char>) -> (r: Option<u64>)
    requires
        lo <= hi <= v.len(),
        key@ == revision_key(),
    ensures
        r == line_revision(v@.subrange(lo as int, hi as int)),
{
    if !has_revision_key(v, lo, hi, key) {
        return None;
    }
    let a = lo + 9;
    let h = find_in(v, a, hi, '#');
    let s = skip_ws(v, a, h);
    let t = skip_ws_back(v, s, h);
    proof {
        let line = v@.subrange(lo as int, hi as int);
        assert(line.skip(9) =~= v@.subrange(a as int, hi as int));
        assert(before_char(line.skip(9), '#') =~= v@.subrange(a as int, h as int));
    }
    parse_u64_range(v, s, t)
}

/// Digits starting at `lo`: the end of the run.
fn digit_run_end(v: &Vec<char>, lo: usize, hi: usize) -> (t: usize)
    requires
        lo <= hi <= v.len(),
    ensures
        lo <= t <= hi,
        t - lo == digit_run(v@.subrange(lo as int, hi as int)),
{
    let mut t = lo;
    while t < hi && is_ascii_digit(v[t])
        invariant
            lo <= t <= hi <= v.len(),
            forall|j: int| lo <= j < t ==> is_digit(v@[j]),
        decreases hi - t,
    {
        t = t + 1;
    }
    proof {
        lemma_digit_run_unique(v@.subrange(lo as int, hi as int), t - lo);
    }
    t
}

proof fn lemma_digit_run_unique(s: Seq<char>, k: int)
    requires
        0 <= k <= s.len(),
        forall|i: int| 0 <= i < k ==> is_digit(s[i]),
        k < s.len() ==> !is_digit(s[k]),
    ensures
        digit_run(s) == k,
    decreases s.len(),
{
    if k > 0 {
        assert forall|i: int| 0 <= i < k - 1 implies is_digit(s.drop_first()[i]) by {
            assert(s.drop_first()[i] == s[i + 1]);
        }
        lemma_digit_run_unique(s.drop_first(), k - 1);
    }
}

/// For a line `v[lo..hi]` that starts with `revision:`: where its number
/// starts and where the rest of the line starts.
fn revision_bounds(v: &Vec<char>, lo: usize, hi: usize) -> (r: (usize, usize))
    requires
        lo <= hi <= v.len(),
        starts_with(v@.subrange(lo as int, hi as int), revision_key()),
    ensures
        lo <= r.0 <= r.1 <= hi,
        r.0 - lo == revision_head_len(v@.subrange(lo as int, hi as int)),
        r.1 - lo == revision_tail_start(v@.subrange(lo as int, hi as int)),
{
    let ghost line = v@.subrange(lo as int, hi as int);
    let a = lo + 9;
    let h = skip_ws(v, a, hi);
    proof {
        assert(line.skip(9) =~= v@.subrange(a as int, hi as int));
        assert(line.skip(revision_head_len(line) as int) =~= v@.subrange(h as int, hi as int));
    }
    let t = digit_run_end(v, h, hi);
    (h, t)
}

/// The characters of `line` that follow its first nine bytes (as many
/// bytes as `revision:` has).
pub open spec fn after_revision_key(line: Seq<char>) -> Seq<char> {
    vstd::utf8::decode_utf8(
        vstd::utf8::encode_utf8(line).subrange(9, vstd::utf8::encode_utf8(line).len() as int),
    )
}

/// `line` with its first nine bytes read as `revision:`.
pub open spec fn as_revision_line(line: Seq<char>) -> Seq<char> {
    revision_key() + after_revision_key(line)
}

/// Split `revision: 12   # note\n` into (`revision: `, `   # note\n`): the
/// first nine bytes of the line are taken to be the key, which the head
/// spells out, followed by the whitespace after them; the tail is what
/// follows that whitespace and the digits after it. The line must be at
/// least nine bytes long, with a character boundary after the ninth.
pub fn split_revision_line(line: &str) -> (r: (String, String))
    requires
        vstd::utf8::is_char_boundary(vstd::utf8::encode_utf8(line@), 9),
    ensures
        r.0@ == as_revision_line(line@).take(revision_head_len(as_revision_line(line@)) as int),
        r.1@ == as_revision_line(line@).skip(revision_tail_start(as_revision_line(line@)) as int),
{
    broadcast use vstd::utf8::encode_utf8_decode_utf8;

    let (_, after) = line.split_at(9);
    assert(after@ == after_revision_key(line@)) by {
        assert(vstd::utf8::decode_utf8(vstd::utf8::encode_utf8(after@)) == after@);
    }
    let mut v = revision_key_chars();
    let rest = to_chars(after);
    push_range(&mut v, &rest, 0, rest.len());
    assert(rest@.subrange(0, rest.len() as int) =~= rest@);
    assert(v@.subrange(0, v.len() as int) =~= v@);
    assert(v@.take(9) =~= revision_key());
    let (h, t) = revision_bounds(&v, 0, v.len());
    let mut head: Vec<char> = Vec::new();
    push_range(&mut head, &v, 0, h);
    let mut tail: Vec<char> = Vec::new();
    push_range(&mut tail, &v, t, v.len());
    assert(head@ =~= v@.take(revision_head_len(v@) as int));
    assert(tail@ =~= v@.skip(revision_tail_start(v@) as int));
    (string_from_chars(&head), string_from_chars(&tail))
}

/// The `revision:` value of a policy document, or `None` if the top-level
/// key is absent. Text-level (line-based) so the operator's formatting and
/// comments are untouched by [`bump_revision`].
pub fn current_revision(text: &str) -> (r: Option<u64>)
    ensures
        r == revision_of(text@),
{
    let v = to_chars(text);
    let key = revision_key_chars();
    let n = v.len();
    let mut pos: usize = 0;
    assert(v@.skip(0) =~= v@);
    while pos < n
        invariant
            n == v.len(),
            v@ == text@,
            pos <= n,
            key@ == revision_key(),
            revision_of(v@) == first_revision(lines(v@.skip(pos as int))),
        decreases n - pos,
    {
        let (next, e) = next_piece(&v, pos, n);
        let r = line_revision_range(&v, pos, e, &key);
        proof {
            let s = v@.skip(pos as int);
            assert(s =~= v@.subrange(pos as int, n as int));
            assert(s.take((next - pos) as int) =~= v@.subrange(pos as int, next as int));
            assert(s.skip((next - pos) as int) =~= v@.skip(next as int));
            assert(lines(s)[0] == v@.subrange(pos as int, e as int));
            assert(lines(s).drop_first() =~= lines(v@.skip(next as int)));
            assert(lines(s).len() > 0);
            assert(line_revision(lines(s)[0]) == r);
            if r.is_some() {
                assert(first_revision(lines(s)) == r);
            }
        }
        if r.is_some() {
            return r;
        }
        pos = next;
    }
    assert(v@.skip(n as int) =~= Seq::<char>::empty());
    None
}

/// Return `text` with its top-level `revision:` incremented (or inserted as
/// `revision: 1` at the top when absent), plus the new value. Only the
/// number on that line changes; everything else is byte-identical.
pub fn bump_revision(text: &str) -> (r: (String, u64))
    ensures
        r.1 == next_revision(text@),
        r.0@ == bumped_text(text@),
{
    match current_revision(text) {
        Some(cur) => {
            let nx = cur.saturating_add(1);
            let v = to_chars(text);
            let key = revision_key_chars();
            let n = v.len();
            let mut out: Vec<char> = Vec::new();
            let mut done = false;
            let mut pos: usize = 0;
            assert(v@.skip(0) =~= v@);
            while pos < n
                invariant
                    n == v.len(),
                    pos <= n,
                    key@ == revision_key(),
                    !done ==> out@ + replace_first_revision(v@.skip(pos as int), nx)
                        == replace_first_revision(v@, nx),
                    done ==> out@ + v@.skip(pos as int) == replace_first_revision(v@, nx),
                decreases n - pos,
            {
                let (next, _e) = next_piece(&v, pos, n);
                let ghost s = v@.skip(pos as int);
                let ghost p = v@.subrange(pos as int, next as int);
                proof {
                    assert(s =~= v@.subrange(pos as int, n as int));
                    assert(s.take((next - pos) as int) =~= p);
                    assert(s.skip((next - pos) as int) =~= v@.skip(next as int));
                    assert(s =~= p + v@.skip(next as int));
                }
                if !done && has_revision_key(&v, pos, next, &key) {
                    let (h, t) = revision_bounds(&v, pos, next);
                    push_range(&mut out, &v, pos, h);
                    push_decimal(&mut out, nx);
                    push_range(&mut out, &v, t, next);
                    proof {
                        assert(p.take(revision_head_len(p) as int) =~= v@.subrange(
                            pos as int,
                            h as int,
                        ));
                        assert(p.skip(revision_tail_start(p) as int) =~= v@.subrange(
                            t as int,
                            next as int,
                        ));
                    }
                    done = true;
                } else {
                    push_range(&mut out, &v, pos, next);
                }
                pos = next;
            }
            assert(v@.skip(n as int) =~= Seq::<char>::empty());
            (string_from_chars(&out), nx)
        },
        None => {
            let mut out = revision_key_chars();
            push_str_chars(&mut out, " 1\n");
            proof {
                reveal_strlit(" 1\n");
            }
            push_str_chars(&mut out, text);
            assert(out@ =~= bumped_text(text@));
            (string_from_chars(&out), 1)
        },
    }
}


/// A piece (no newline except possibly a final one) in front of more text
/// is the first line of the result.
proof fn lemma_lines_of_piece_then(p: Seq<char>, rest: Seq<char>)
    requires
        p.len() > 0,
        forall|i: int| 0 <= i < p.len() - 1 ==> p[i] != '\n',
        p.last() == '\n' || rest.len() == 0,
    ensures
        lines(p + rest) == seq![strip_eol(p)] + lines(rest),
{
    let r = p + rest;
    assert forall|i: int| 0 <= i < p.len() - 1 implies r[i] != '\n' by {
        assert(r[i] == p[i]);
    }
    if p.last() == '\n' {
        assert(r[p.len() - 1] == p.last());
        lemma_find_char_unique(r, '\n', p.len() - 1);
    } else {
        assert(r =~= p);
        assert(p[p.len() - 1] == p.last());
        lemma_find_char_unique(r, '\n', r.len() as int);
    }
    assert(first_piece_len(r) == p.len());
    assert(r.take(p.len() as int) =~= p);
    assert(r.skip(p.len() as int) =~= rest);
}



/// The text after `revision:` of a plain line, once trimmed, is its digits:
/// the rest of the line (before a comment) is blank.
proof fn lemma_blank_after_digits(w: Seq<char>, d: Seq<char>, tt: Seq<char>)
    requires
        all_ws(w),
        d.len() > 0,
        all_digits(d),
        tt.len() == 0 || !is_digit(tt[0]),
        parse_u64(trim(before_char(w + d + tt, '#'))) is Some,
    ensures
        all_ws(before_char(tt, '#')),
{
    let b = before_char(tt, '#');
    lemma_no_hash(w, d);
    lemma_before_char_concat(w + d, tt, '#');
    assert((w + d) + b =~= w + (d + b));
    lemma_trim_start_ws_prefix(w, d + b);
    assert((d + b)[0] == d[0]);
    assert(trim_start(d + b) == d + b);
    let x = d + b;
    let y = trim_end(x);
    if !all_ws(b) {
        let m = choose|m: int| 0 <= m < b.len() && !is_ws(b[m]);
        assert(x[d.len() + m] == b[m]);
        lemma_trim_end_keeps(x, d.len() + m);
        assert(y[0] == d[0]);
        assert(all_digits(y));
        assert(y[d.len() as int] == x[d.len() as int]);
        crate::text::lemma_find_char_bounds(tt, '#');
        assert(b[0] == tt[0]);
        assert(false);
    }
}

proof fn lemma_no_hash(w: Seq<char>, d: Seq<char>)
    requires
        all_ws(w),
        all_digits(d),
    ensures
        forall|i: int| 0 <= i < (w + d).len() ==> (w + d)[i] != '#',
{
    assert forall|i: int| 0 <= i < (w + d).len() implies (w + d)[i] != '#' by {
        if i < w.len() {
            assert(is_ws((w + d)[i]));
        } else {
            assert(is_digit((w + d)[i]));
        }
    }
}

/// Blanks, then digits, then blanks trim to the digits.
proof fn lemma_trim_digits(w: Seq<char>, d: Seq<char>, b: Seq<char>)
    requires
        all_ws(w),
        d.len() > 0,
        all_digits(d),
        all_ws(b),
    ensures
        trim(w + d + b) == d,
{
    assert(w + d + b =~= w + (d + b));
    lemma_trim_start_ws_prefix(w, d + b);
    assert((d + b)[0] == d[0]);
    assert(trim_start(d + b) == d + b);
    lemma_trim_end_ws_suffix(d, b);
    assert(d.last() == d[d.len() - 1]);
    assert(trim_end(d) == d);
}


/// A line terminator lies entirely after a digit: stripping it from
/// `pre + tail` strips it from `tail`.
proof fn lemma_strip_after_digit(pre: Seq<char>, tail: Seq<char>)
    requires
        pre.len() > 0,
        is_digit(pre.last()),
    ensures
        eol_len(tail) <= tail.len(),
        strip_eol(pre + tail) == pre + tail.take(tail.len() - eol_len(tail)),
{
    let l = pre + tail;
    lemma_strip_eol(l);
    lemma_strip_eol(tail);
    let tl = tail.len() as int;
    if tl >= 2 {
        assert(l[l.len() - 1] == tail[tl - 1]);
        assert(l[l.len() - 2] == tail[tl - 2]);
    } else if tl == 1 {
        assert(l[l.len() - 1] == tail[0]);
        assert(l[l.len() - 2] == pre.last());
    } else {
        assert(l =~= pre);
    }
    assert(l.last() == l[l.len() - 1]);
    if tl > 0 {
        assert(tail.last() == tail[tl - 1]);
    }
    assert(eol_len(l) == eol_len(tail));
    assert(l.take(l.len() - eol_len(l)) =~= pre + tail.take(tail.len() - eol_len(tail)));
}




/// Whether reading the revision back from a bumped policy gives the
/// revision the bump reported: always when the policy has no readable
/// revision (the bump inserts `revision: 1`) or its first `revision:` line
/// is clean; otherwise only when the text after that line happens to
/// declare the new revision.
pub open spec fn bump_reads_back(text: Seq<char>) -> bool {
    ||| revision_of(text) is None
    ||| first_revision_line_clean(text)
    ||| revision_after_first_line(text) == Some(next_revision(text))
}

/// Reading the revision back from a bumped policy gives the revision the
/// bump reported (`current_revision(bump_revision(t).0) ==
/// Some(bump_revision(t).1)`) exactly on the texts of [`bump_reads_back`]:
/// those without a readable revision, those whose first `revision:` line is
/// clean (the number's slot lies before the terminator and only blanks,
/// then perhaps a `#` comment, follow the digits), and those whose later
/// text happens to declare the new revision.
pub proof fn law_bumped_revision_reads_back(text: Seq<char>)
    ensures
        revision_of(bumped_text(text)) == Some(next_revision(text)) <==> bump_reads_back(text),
{
    match revision_of(text) {
        Some(_) => {
            lemma_replaced_reads(text, next_revision(text));
            lemma_replaced_reads_is(text, next_revision(text));
        },
        None => {
            let t = bumped_text(text);
            let first = revision_key() + seq![' ', '1', '\n'];
            assert(t =~= first + text);
            lemma_lines_of_piece_then(first, text);
            lemma_strip_eol(first);
            let line = strip_eol(first);
            assert(line =~= revision_key() + seq![' ', '1']);
            assert(line.take(9) =~= revision_key());
            let v = seq![' ', '1'];
            assert(line.skip(9) =~= v);
            lemma_find_char_unique(v, '#', 2);
            assert(before_char(v, '#') =~= v);
            assert(v =~= seq![' '] + seq!['1'] + Seq::<char>::empty());
            assert(all_digits(seq!['1']));
            lemma_trim_digits(seq![' '], seq!['1'], Seq::<char>::empty());
            assert(seq!['1'].drop_last() =~= Seq::<char>::empty());
            assert(crate::text::digits_value(Seq::<char>::empty()) == 0);
            assert(parse_u64(seq!['1']) == Some(1u64));
            assert(line_revision(line) == Some(1u64));
            let ls = seq![line] + lines(text);
            assert(ls[0] == line);
        },
    }
}

} // verus!

verus! {

/// A signed save never rolls the revision back: the bumped revision is one
/// more than the current one (it stays put only at the largest revision),
/// and is 1 for a policy without one.
pub proof fn law_bump_never_rolls_back(text: Seq<char>)
    ensures
        revision_of(text) matches Some(c) ==> (next_revision(text) >= c && (c < u64::MAX
            ==> next_revision(text) == c + 1)),
        revision_of(text) is None ==> next_revision(text) == 1,
{
}

} // verus!

verus! {

/// On a `revision:` line, the slot where the number goes lies before the
/// line terminator: the blanks after the key do not run into it.
pub open spec fn slot_before_eol(p: Seq<char>) -> bool {
    !(p.len() > 0 && p.last() == '\n' && revision_head_len(p) == p.len())
}

/// A `revision:` line whose number can be replaced cleanly: the number
/// slot lies before the terminator, and after the digits there is nothing
/// but blanks up to a `#` comment or the end of the line.
pub open spec fn revision_slot_clean(p: Seq<char>) -> bool {
    &&& slot_before_eol(p)
    &&& all_ws(before_char(strip_eol(p.skip(revision_tail_start(p) as int)), '#'))
}

/// The first line of `s` that starts with `revision:` is clean (see
/// [`revision_slot_clean`]); true when there is none.
pub open spec fn first_revision_line_clean(s: Seq<char>) -> bool
    decreases s.len(),
{
    if s.len() == 0 {
        true
    } else {
        let k = first_piece_len(s);
        proof {
            lemma_first_piece(s);
        }
        let p = s.take(k as int);
        if starts_with(p, revision_key()) {
            revision_slot_clean(p)
        } else {
            first_revision_line_clean(s.skip(k as int))
        }
    }
}

/// The parts of a `revision:` line: key, blanks, digits (possibly none),
/// rest.
proof fn lemma_slot_parts(p: Seq<char>)
    requires
        starts_with(p, revision_key()),
    ensures
        9 <= revision_head_len(p) <= revision_tail_start(p) <= p.len(),
        p.take(9) == revision_key(),
        all_ws(p.subrange(9, revision_head_len(p) as int)),
        all_digits(p.subrange(revision_head_len(p) as int, revision_tail_start(p) as int)),
        revision_tail_start(p) < p.len() ==> !is_digit(p[revision_tail_start(p) as int]),
{
    let h = revision_head_len(p) as int;
    let a = p.skip(9);
    lemma_trim_start(a);
    assert(p.subrange(9, h) =~= a.take(ws_len(a) as int));
    let rest = p.skip(h);
    lemma_digit_run(rest);
    let t = revision_tail_start(p) as int;
    assert(p.subrange(h, t) =~= rest.take(digit_run(rest) as int));
    if t < p.len() {
        assert(p[t] == rest[digit_run(rest) as int]);
    }
}

/// Replacing the number of a `revision:` line whose slot lies before the
/// terminator keeps the line structure.
#[verifier::spinoff_prover]
proof fn lemma_clean_shape(p: Seq<char>, n: u64)
    requires
        starts_with(p, revision_key()),
        slot_before_eol(p),
        forall|i: int| 0 <= i < p.len() - 1 ==> p[i] != '\n',
    ensures
        replace_revision(p, n).len() > 0,
        forall|i: int|
            0 <= i < replace_revision(p, n).len() - 1 ==> #[trigger] replace_revision(p, n)[i]
                != '\n',
        (replace_revision(p, n).last() == '\n') == (p.last() == '\n'),
{
    lemma_slot_parts(p);
    let h = revision_head_len(p) as int;
    let t = revision_tail_start(p) as int;
    let dec = decimal(n as nat);
    lemma_decimal_props(n as nat);
    let q = replace_revision(p, n);
    assert(q =~= p.take(h) + dec + p.skip(t));
    assert(p.take(9)[0] == p[0]);
    assert forall|i: int| 0 <= i < q.len() - 1 implies #[trigger] q[i] != '\n' by {
        if i < h {
            assert(q[i] == p[i]);
            if i == p.len() - 1 {
                assert(p.last() == p[i]);
            }
        } else if i < h + dec.len() {
            assert(q[i] == dec[i - h]);
            assert(is_digit(dec[i - h]));
        } else {
            assert(q[i] == p[t + (i - h - dec.len())]);
        }
    }
    assert(q.last() == q[q.len() - 1]);
    assert(p.last() == p[p.len() - 1]);
    if t < p.len() {
        assert(q[q.len() - 1] == p[p.len() - 1]);
    } else {
        assert(q[q.len() - 1] == dec[dec.len() - 1]);
        assert(is_digit(dec[dec.len() - 1]));
        if t > h {
            assert(p.subrange(h, t)[t - h - 1] == p[p.len() - 1]);
        } else if h > 9 {
            assert(p.last() != '\n');
        } else {
            assert(p.take(9)[8] == p[p.len() - 1]);
        }
    }
}

/// Replacing the number of a clean `revision:` line by `n` gives a line
/// that declares `n`.
#[verifier::spinoff_prover]
proof fn lemma_clean_value(p: Seq<char>, n: u64)
    requires
        starts_with(p, revision_key()),
        revision_slot_clean(p),
    ensures
        line_revision(strip_eol(replace_revision(p, n))) == Some(n),
{
    lemma_slot_parts(p);
    let key = revision_key();
    let h = revision_head_len(p) as int;
    let t = revision_tail_start(p) as int;
    let w = p.subrange(9, h);
    let tail = p.skip(t);
    let dec = decimal(n as nat);
    lemma_decimal_props(n as nat);
    let q = replace_revision(p, n);
    assert(p.take(h) =~= key + w);
    let pre = key + w + dec;
    assert(q =~= pre + tail);
    assert(pre.last() == dec.last());
    assert(dec.last() == dec[dec.len() - 1]);
    lemma_strip_after_digit(pre, tail);
    lemma_strip_eol(tail);
    let tt = strip_eol(tail);
    assert(strip_eol(q) =~= pre + tt);
    assert((pre + tt).take(9) =~= key);
    assert((pre + tt).skip(9) =~= w + dec + tt);
    let b = before_char(tt, '#');
    lemma_no_hash(w, dec);
    lemma_before_char_concat(w + dec, tt, '#');
    lemma_trim_digits(w, dec, b);
    assert(parse_u64(dec) == Some(n)) by {
        assert(is_digit(dec[0]));
    }
}


} // verus!

verus! {

/// `s` without its first line (with its terminator).
pub open spec fn drop_line(s: Seq<char>) -> Seq<char> {
    if s.len() == 0 {
        s
    } else {
        s.skip(first_piece_len(s) as int)
    }
}

/// The revision read from the text that follows the first `revision:`
/// line: after that line, or, when the blanks after its key run into its
/// terminator (the new number then joins the next line), after the next
/// line too. `None` when there is no `revision:` line.
pub open spec fn revision_after_first_line(s: Seq<char>) -> Option<u64>
    decreases s.len(),
{
    if s.len() == 0 {
        None
    } else {
        let k = first_piece_len(s);
        proof {
            lemma_first_piece(s);
        }
        let p = s.take(k as int);
        if starts_with(p, revision_key()) {
            if slot_before_eol(p) {
                revision_of(s.skip(k as int))
            } else {
                revision_of(drop_line(s.skip(k as int)))
            }
        } else {
            revision_after_first_line(s.skip(k as int))
        }
    }
}

/// The revision read back after replacing the number of the first
/// `revision:` line with `n`.
pub open spec fn replaced_reads(s: Seq<char>, n: u64) -> Option<u64>
    decreases s.len(),
{
    if s.len() == 0 {
        None
    } else {
        let k = first_piece_len(s);
        proof {
            lemma_first_piece(s);
        }
        let p = s.take(k as int);
        if starts_with(p, revision_key()) {
            if revision_slot_clean(p) {
                Some(n)
            } else {
                revision_after_first_line(s)
            }
        } else {
            replaced_reads(s.skip(k as int), n)
        }
    }
}

/// A line that is not clean but whose slot lies before the terminator no
/// longer declares a revision once its number is replaced.
#[verifier::spinoff_prover]
proof fn lemma_unclean_unread(p: Seq<char>, n: u64)
    requires
        starts_with(p, revision_key()),
        slot_before_eol(p),
        !revision_slot_clean(p),
    ensures
        line_revision(strip_eol(replace_revision(p, n))) is None,
{
    lemma_slot_parts(p);
    let key = revision_key();
    let h = revision_head_len(p) as int;
    let t = revision_tail_start(p) as int;
    let w = p.subrange(9, h);
    let tail = p.skip(t);
    let dec = decimal(n as nat);
    lemma_decimal_props(n as nat);
    let q = replace_revision(p, n);
    assert(p.take(h) =~= key + w);
    let pre = key + w + dec;
    assert(q =~= pre + tail);
    assert(pre.last() == dec.last());
    assert(dec.last() == dec[dec.len() - 1]);
    lemma_strip_after_digit(pre, tail);
    lemma_strip_eol(tail);
    let tt = strip_eol(tail);
    assert(strip_eol(q) =~= pre + tt);
    assert((pre + tt).take(9) =~= key);
    assert((pre + tt).skip(9) =~= w + dec + tt);
    if tt.len() > 0 {
        assert(tt[0] == tail[0]);
        assert(tail[0] == p[t]);
    }
    if line_revision(strip_eol(q)) is Some {
        lemma_blank_after_digits(w, dec, tt);
    }
}

/// A line made of the key and blanks only declares no revision.
proof fn lemma_blank_line_unread(p: Seq<char>)
    requires
        starts_with(p, revision_key()),
        revision_head_len(p) == p.len(),
    ensures
        line_revision(strip_eol(p)) is None,
{
    lemma_slot_parts(p);
    lemma_strip_eol(p);
    let l = strip_eol(p);
    let w = l.skip(9);
    assert(p.subrange(9, p.len() as int).take(w.len() as int) =~= w);
    assert(all_ws(w)) by {
        assert forall|i: int| 0 <= i < w.len() implies is_ws(#[trigger] w[i]) by {
            assert(w[i] == p.subrange(9, p.len() as int)[i]);
        }
    }
    crate::text::lemma_find_char_bounds(w, '#');
    assert forall|i: int| 0 <= i < w.len() implies w[i] != '#' by {
        assert(is_ws(w[i]));
    }
    lemma_find_char_unique(w, '#', w.len() as int);
    assert(before_char(w, '#') =~= w);
    lemma_trim_start_ws_prefix(w, Seq::<char>::empty());
    assert(w + Seq::<char>::empty() =~= w);
    assert(trim_start(Seq::<char>::empty()) == Seq::<char>::empty());
    assert(trim(w) =~= Seq::<char>::empty());
}

/// Replacing the number on a revision line whose slot lies before its
/// terminator, in front of `rest`.
#[verifier::spinoff_prover]
proof fn lemma_slot_reads(p: Seq<char>, rest: Seq<char>, n: u64)
    requires
        starts_with(p, revision_key()),
        slot_before_eol(p),
        forall|i: int| 0 <= i < p.len() - 1 ==> p[i] != '\n',
        p.last() == '\n' || rest.len() == 0,
    ensures
        revision_of(replace_revision(p, n) + rest) == (if revision_slot_clean(p) {
            Some(n)
        } else {
            revision_of(rest)
        }),
{
    let q = replace_revision(p, n);
    lemma_clean_shape(p, n);
    lemma_lines_of_piece_then(q, rest);
    let ls = seq![strip_eol(q)] + lines(rest);
    assert(ls[0] == strip_eol(q));
    assert(ls.drop_first() =~= lines(rest));
    if revision_slot_clean(p) {
        lemma_clean_value(p, n);
    } else {
        lemma_unclean_unread(p, n);
    }
}

/// A line that starts with a digit declares no revision.
proof fn lemma_digit_line_unread(l: Seq<char>)
    requires
        l.len() > 0,
        is_digit(l[0]),
    ensures
        line_revision(l) is None,
{
    if starts_with(l, revision_key()) {
        assert(l.take(9)[0] == l[0]);
    }
}

/// `dec + rest` (`dec` digits) reads the revision of `rest` without its
/// first line.
#[verifier::spinoff_prover]
proof fn lemma_digits_then_reads(dec: Seq<char>, rest: Seq<char>)
    requires
        dec.len() > 0,
        all_digits(dec),
    ensures
        revision_of(dec + rest) == revision_of(drop_line(rest)),
{
    let dr = dec + rest;
    assert forall|i: int| 0 <= i < dec.len() implies dec[i] != '\n' by {
        assert(is_digit(dec[i]));
    }
    if rest.len() == 0 {
        assert(dr =~= dec);
        assert(dec.last() == dec[dec.len() - 1]);
        lemma_lines_of_piece_then(dec, rest);
        lemma_strip_eol(dec);
        let l0 = strip_eol(dec);
        assert(l0[0] == dec[0]);
        lemma_digit_line_unread(l0);
        let ls = seq![l0] + lines(rest);
        assert(ls[0] == l0);
        assert(ls.drop_first() =~= lines(rest));
    } else {
        let kr = first_piece_len(rest) as int;
        lemma_first_piece(rest);
        let pr = rest.take(kr);
        let piece = dec + pr;
        assert(dr =~= piece + rest.skip(kr));
        assert(pr.last() == rest[kr - 1]);
        assert(piece.last() == pr.last());
        assert forall|i: int| 0 <= i < piece.len() - 1 implies piece[i] != '\n' by {
            if i < dec.len() {
                assert(piece[i] == dec[i]);
            } else {
                assert(piece[i] == rest[i - dec.len()]);
            }
        }
        lemma_lines_of_piece_then(piece, rest.skip(kr));
        lemma_strip_eol(piece);
        let l0 = strip_eol(piece);
        assert(l0[0] == dec[0]);
        lemma_digit_line_unread(l0);
        let ls = seq![l0] + lines(rest.skip(kr));
        assert(ls[0] == l0);
        assert(ls.drop_first() =~= lines(rest.skip(kr)));
    }
}

/// Replacing the number on a revision line whose blanks run into its
/// terminator: the number joins the next line.
#[verifier::spinoff_prover]
proof fn lemma_crossing_reads(p: Seq<char>, rest: Seq<char>, n: u64)
    requires
        starts_with(p, revision_key()),
        !slot_before_eol(p),
        forall|i: int| 0 <= i < p.len() - 1 ==> p[i] != '\n',
    ensures
        revision_of(replace_revision(p, n) + rest) == revision_of(drop_line(rest)),
{
    lemma_slot_parts(p);
    let dec = decimal(n as nat);
    lemma_decimal_props(n as nat);
    let q = replace_revision(p, n);
    assert(q =~= p + dec);
    assert(q + rest =~= p + (dec + rest));
    lemma_lines_of_piece_then(p, dec + rest);
    lemma_blank_line_unread(p);
    let ls = seq![strip_eol(p)] + lines(dec + rest);
    assert(ls[0] == strip_eol(p));
    assert(ls.drop_first() =~= lines(dec + rest));
    lemma_digits_then_reads(dec, rest);
}

/// What the revision reads after replacing the first revision line's number.
proof fn lemma_replaced_reads(s: Seq<char>, n: u64)
    ensures
        revision_of(replace_first_revision(s, n)) == replaced_reads(s, n),
    decreases s.len(),
{
    if s.len() == 0 {
        return;
    }
    let k = first_piece_len(s) as int;
    lemma_first_piece(s);
    let p = s.take(k);
    let rest = s.skip(k);
    assert(s =~= p + rest);
    assert(p.last() == s[k - 1]);
    assert(forall|i: int| 0 <= i < p.len() - 1 ==> p[i] == s[i]);
    if starts_with(p, revision_key()) {
        assert(replace_first_revision(s, n) == replace_revision(p, n) + rest);
        if slot_before_eol(p) {
            lemma_slot_reads(p, rest, n);
        } else {
            lemma_crossing_reads(p, rest, n);
        }
    } else {
        lemma_strip_eol(p);
        assert(!starts_with(strip_eol(p), revision_key())) by {
            if starts_with(strip_eol(p), revision_key()) {
                assert(p.take(9) =~= strip_eol(p).take(9));
            }
        }
        if k == s.len() {
            assert(rest =~= Seq::<char>::empty());
        }
        lemma_replaced_reads(rest, n);
        let r2 = replace_first_revision(rest, n);
        assert(replace_first_revision(s, n) == p + r2);
        lemma_lines_of_piece_then(p, r2);
        let ls = seq![strip_eol(p)] + lines(r2);
        assert(ls[0] == strip_eol(p));
        assert(ls.drop_first() =~= lines(r2));
    }
}

/// With a readable revision, the replaced text reads `n` when the first
/// revision line is clean and what follows that line otherwise.
proof fn lemma_replaced_reads_is(s: Seq<char>, n: u64)
    requires
        revision_of(s) is Some,
    ensures
        replaced_reads(s, n) == (if first_revision_line_clean(s) {
            Some(n)
        } else {
            revision_after_first_line(s)
        }),
    decreases s.len(),
{
    let k = first_piece_len(s) as int;
    lemma_first_piece(s);
    let p = s.take(k);
    let rest = s.skip(k);
    assert(s =~= p + rest);
    assert(p.last() == s[k - 1]);
    assert(forall|i: int| 0 <= i < p.len() - 1 ==> p[i] == s[i]);
    if !starts_with(p, revision_key()) {
        lemma_strip_eol(p);
        assert(!starts_with(strip_eol(p), revision_key())) by {
            if starts_with(strip_eol(p), revision_key()) {
                assert(p.take(9) =~= strip_eol(p).take(9));
            }
        }
        assert(lines(s)[0] == strip_eol(p));
        assert(lines(s).drop_first() =~= lines(rest));
        assert(revision_of(s) == revision_of(rest));
        if k == s.len() {
            assert(rest =~= Seq::<char>::empty());
        }
        lemma_replaced_reads_is(rest, n);
    }
}

} // verus!
