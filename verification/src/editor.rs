//! Splitting an `$EDITOR` / `$VISUAL` value into a program and its
//! arguments. Whitespace separates; single and double quotes group.
//! Deliberately *not* a shell: no command substitution and no `;`, `&&` or
//! `|` operators, so a hostile `$EDITOR` can only name a program and its
//! arguments.

use vstd::prelude::*;

use crate::text::{is_whitespace, is_ws, string_from_chars, to_chars};

verus! {

/// The scanner's state after a prefix of the input.
pub struct SplitState {
    pub out: Seq<Seq<char>>,
    pub cur: Seq<char>,
    pub in_single: bool,
    pub in_double: bool,
    pub started: bool,
}

pub open spec fn split_init() -> SplitState {
    SplitState { out: Seq::empty(), cur: Seq::empty(), in_single: false, in_double: false, started: false }
}

/// One character of input.
pub open spec fn split_step(st: SplitState, c: char) -> SplitState {
    if c == '\'' && !st.in_double {
        SplitState { in_single: !st.in_single, started: true, ..st }
    } else if c == '"' && !st.in_single {
        SplitState { in_double: !st.in_double, started: true, ..st }
    } else if is_ws(c) && !st.in_single && !st.in_double {
        if st.started {
            SplitState { out: st.out.push(st.cur), cur: Seq::empty(), started: false, ..st }
        } else {
            st
        }
    } else {
        SplitState { cur: st.cur.push(c), started: true, ..st }
    }
}

/// The scanner's state after all of `s`.
pub open spec fn split_scan(s: Seq<char>) -> SplitState
    decreases s.len(),
{
    if s.len() == 0 {
        split_init()
    } else {
        split_step(split_scan(s.drop_last()), s.last())
    }
}

/// The words of an editor command line.
pub open spec fn split_words(s: Seq<char>) -> Seq<Seq<char>> {
    let st = split_scan(s);
    if st.started {
        st.out.push(st.cur)
    } else {
        st.out
    }
}

/// Split an `$EDITOR` string into program + args.
pub fn split_editor(editor: &str) -> (r: Vec<String>)
    ensures
        r.len() == split_words(editor@).len(),
        forall|i: int| 0 <= i < r.len() ==> #[trigger] r[i]@ == split_words(editor@)[i],
{
    let v = to_chars(editor);
    let mut out: Vec<String> = Vec::new();
    let mut cur: Vec<char> = Vec::new();
    let mut in_single = false;
    let mut in_double = false;
    let mut started = false;
    let mut i: usize = 0;
    while i < v.len()
        invariant
            v@ == editor@,
            i <= v.len(),
            ({
                let st = split_scan(v@.take(i as int));
                &&& out.len() == st.out.len()
                &&& forall|j: int| 0 <= j < out.len() ==> #[trigger] out[j]@ == st.out[j]
                &&& cur@ == st.cur
                &&& in_single == st.in_single
                &&& in_double == st.in_double
                &&& started == st.started
            }),
        decreases v.len() - i,
    {
        let c = v[i];
        assert(v@.take(i + 1).drop_last() =~= v@.take(i as int));
        if c == '\'' && !in_double {
            in_single = !in_single;
            started = true;
        } else if c == '"' && !in_single {
            in_double = !in_double;
            started = true;
        } else if is_whitespace(c) && !in_single && !in_double {
            if started {
                out.push(string_from_chars(&cur));
                cur = Vec::new();
                started = false;
            }
        } else {
            cur.push(c);
            started = true;
        }
        i = i + 1;
    }
    assert(v@.take(v.len() as int) =~= v@);
    if started {
        out.push(string_from_chars(&cur));
    }
    out
}

/// All words, one after the other.
pub open spec fn concat_words(ws: Seq<Seq<char>>) -> Seq<char>
    decreases ws.len(),
{
    if ws.len() == 0 {
        Seq::empty()
    } else {
        concat_words(ws.drop_last()) + ws.last()
    }
}

/// `s` without its whitespace.
pub open spec fn without_ws(s: Seq<char>) -> Seq<char>
    decreases s.len(),
{
    if s.len() == 0 {
        Seq::empty()
    } else if is_ws(s.last()) {
        without_ws(s.drop_last())
    } else {
        without_ws(s.drop_last()).push(s.last())
    }
}

pub open spec fn has_no_quotes(s: Seq<char>) -> bool {
    forall|i: int| 0 <= i < s.len() ==> s[i] != '\'' && s[i] != '"'
}

pub open spec fn is_word(w: Seq<char>) -> bool {
    w.len() > 0 && forall|i: int| 0 <= i < w.len() ==> !is_ws(#[trigger] w[i])
}

proof fn lemma_scan_unquoted(s: Seq<char>)
    requires
        has_no_quotes(s),
    ensures
        !split_scan(s).in_single,
        !split_scan(s).in_double,
        split_scan(s).started == (split_scan(s).cur.len() > 0),
        forall|i: int| 0 <= i < split_scan(s).cur.len() ==> !is_ws(#[trigger] split_scan(s).cur[i]),
        forall|j: int| 0 <= j < split_scan(s).out.len() ==> is_word(#[trigger] split_scan(s).out[j]),
        concat_words(split_scan(s).out) + split_scan(s).cur == without_ws(s),
    decreases s.len(),
{
    if s.len() > 0 {
        let p = s.drop_last();
        assert(has_no_quotes(p)) by {
            assert forall|i: int| 0 <= i < p.len() implies p[i] != '\'' && p[i] != '"' by {
                assert(p[i] == s[i]);
            }
        }
        lemma_scan_unquoted(p);
        let st = split_scan(p);
        let c = s.last();
        assert(c == s[s.len() - 1]);
        if is_ws(c) {
            if st.started {
                let out2 = st.out.push(st.cur);
                assert(out2.drop_last() =~= st.out);
                assert(concat_words(out2) == concat_words(st.out) + st.cur);
                assert(concat_words(out2) + Seq::<char>::empty() =~= concat_words(out2));
                assert forall|j: int| 0 <= j < out2.len() implies is_word(#[trigger] out2[j]) by {
                    if j < st.out.len() {
                        assert(out2[j] == st.out[j]);
                    }
                }
            }
        } else {
            let cur2 = st.cur.push(c);
            assert(concat_words(st.out) + cur2 =~= (concat_words(st.out) + st.cur).push(c));
            assert forall|i: int| 0 <= i < cur2.len() implies !is_ws(#[trigger] cur2[i]) by {
                if i < st.cur.len() {
                    assert(cur2[i] == st.cur[i]);
                }
            }
        }
    }
}

/// Whitespace separates: an editor command line without quotes splits into
/// non-empty words without whitespace, which together are exactly the
/// line's non-whitespace characters, in order.
pub proof fn law_unquoted_split_is_words(s: Seq<char>)
    requires
        has_no_quotes(s),
    ensures
        forall|j: int| 0 <= j < split_words(s).len() ==> is_word(#[trigger] split_words(s)[j]),
        concat_words(split_words(s)) == without_ws(s),
{
    lemma_scan_unquoted(s);
    let st = split_scan(s);
    if st.started {
        let w = st.out.push(st.cur);
        assert(w.drop_last() =~= st.out);
        assert forall|j: int| 0 <= j < w.len() implies is_word(#[trigger] w[j]) by {
            if j < st.out.len() {
                assert(w[j] == st.out[j]);
            }
        }
    } else {
        assert(st.cur =~= Seq::<char>::empty());
        assert(concat_words(st.out) + st.cur =~= concat_words(st.out));
    }
}

} // verus!
