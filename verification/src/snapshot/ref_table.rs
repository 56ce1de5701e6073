//! `@eN` ref allocation table. Per-session, monotonic across snapshots so an
//! old ref's generation can be detected even after its number has elapsed.
//! Stale refs (entry generation != current generation) are rejected by the
//! action handlers.

use vstd::prelude::*;

use crate::text::{
    all_digits, decimal, digits_value, is_ascii_digit, lemma_decimal_props, parse_u64,
    parse_u64_range, push_decimal, string_from_chars, to_chars,
};

verus! {

/// `s` matches `^@e[0-9]+$`.
pub open spec fn is_ref_text(s: Seq<char>) -> bool {
    s.len() >= 3 && s[0] == '@' && s[1] == 'e' && all_digits(s.skip(2))
}

/// The ref string of the `n`-th allocation: `@e{n}`.
pub open spec fn ref_key(n: nat) -> Seq<char> {
    seq!['@', 'e'] + decimal(n)
}

/// The allocation number a ref string names: `@e` followed by the decimal
/// form of a number (no leading zeros).
pub open spec fn ref_number(key: Seq<char>) -> Option<nat> {
    let d = key.skip(2);
    if key.len() >= 3 && key[0] == '@' && key[1] == 'e' && all_digits(d) && (d.len() == 1 || d[0]
        != '0') {
        Some(digits_value(d))
    } else {
        None
    }
}

/// The pattern every ref string matches.
pub const REF_PATTERN: &'static str = "^@e[0-9]+$";

/// Whether `regex::Regex` compiled from `pattern` matches `text`; `None`
/// when the pattern does not compile.
pub uninterp spec fn regex_match(pattern: Seq<char>, text: Seq<char>) -> Option<bool>;

/// `regex::Regex::new(pattern)` and `Regex::is_match(text)`. What a match
/// means for a pattern in general is named, not stated; for the ref pattern
/// the crate's syntax documentation fixes it: `^` and `$` anchor at the
/// start and end of the text, `@` and `e` match themselves, `[0-9]+` one or
/// more of the ASCII digits.
#[verifier::external_body]
fn regex_is_match(pattern: &str, text: &str) -> (r: Option<bool>)
    ensures
        r == regex_match(pattern@, text@),
        pattern@ == REF_PATTERN@ ==> r == Some(is_ref_text(text@)),
{
    match regex::Regex::new(pattern) {
        Ok(re) => Some(re.is_match(text)),
        Err(_) => None,
    }
}

/// Whether `s` has the shape of a ref (`@e` followed by digits).
pub fn is_ref(s: &str) -> (b: bool)
    ensures
        b == is_ref_text(s@),
{
    match regex_is_match(REF_PATTERN, s) {
        Some(m) => m,
        None => false,
    }
}

/// One allocated ref: the snapshot generation it belongs to and the element
/// id it stands for.
#[derive(Debug, Clone, Copy)]
pub struct RefEntry {
    pub generation: u64,
    pub acb_id: u64,
}

/// The allocation table of one session. Refs are numbered consecutively
/// from 1 and never reused, so the entries are kept in a `Vec` by number
/// (the entry of `@eN` is the `N`-th) rather than in a map keyed by the ref
/// text; a lookup parses the number out of the text. `next_num` is the
/// number of refs allocated so far, always the length of `entries`.
pub struct RefTable {
    generation: u64,
    next_num: u64,
    entries: Vec<RefEntry>,
}

/// What a [`RefTable`] holds: the current generation, and the entry of
/// every ref allocated so far (`entries[n - 1]` for `@e{n}`).
pub struct RefTableView {
    pub generation: u64,
    pub entries: Seq<RefEntry>,
}

impl RefTableView {
    /// No entry is newer than the current generation.
    pub open spec fn valid(self) -> bool {
        forall|i: int| 0 <= i < self.entries.len() ==> #[trigger] self.entries[i].generation <= self.generation
    }

    /// The entry a ref string names, if it was allocated.
    pub open spec fn lookup(self, key: Seq<char>) -> Option<RefEntry> {
        match ref_number(key) {
            Some(n) => if 1 <= n <= self.entries.len() {
                Some(self.entries[n - 1])
            } else {
                None
            },
            None => None,
        }
    }

    /// The element a ref resolves to: it was allocated in the current
    /// generation.
    pub open spec fn resolve(self, key: Seq<char>) -> Option<u64> {
        match self.lookup(key) {
            Some(e) => if e.generation == self.generation {
                Some(e.acb_id)
            } else {
                None
            },
            None => None,
        }
    }

    /// The table after a new snapshot generation starts.
    pub open spec fn bumped(self) -> RefTableView {
        RefTableView { generation: (self.generation + 1) as u64, entries: self.entries }
    }

    /// The table after allocating a ref for `acb_id`.
    pub open spec fn allocated(self, acb_id: u64) -> RefTableView {
        RefTableView {
            generation: self.generation,
            entries: self.entries.push(RefEntry { generation: self.generation, acb_id }),
        }
    }
}

impl View for RefTable {
    type V = RefTableView;

    closed spec fn view(&self) -> RefTableView {
        RefTableView { generation: self.generation, entries: self.entries@ }
    }
}

pub proof fn lemma_ref_key_number(n: nat)
    ensures
        ref_number(ref_key(n)) == Some(n),
        is_ref_text(ref_key(n)),
{
    lemma_decimal_props(n);
    let k = ref_key(n);
    assert(k.skip(2) =~= decimal(n));
}

/// `@e{n}`.
pub fn ref_string(n: u64) -> (r: String)
    ensures
        r@ == ref_key(n as nat),
{
    let mut out = to_chars("@e");
    proof {
        reveal_strlit("@e");
    }
    push_decimal(&mut out, n);
    assert(out@ =~= ref_key(n as nat));
    string_from_chars(&out)
}

impl RefTable {
    /// The table's internal consistency.
    pub closed spec fn wf(&self) -> bool {
        &&& self.entries@.len() == self.next_num
        &&& self@.valid()
    }

    pub fn new() -> (t: Self)
        ensures
            t.wf(),
            t@.generation == 0,
            t@.entries.len() == 0,
    {
        RefTable { generation: 0, next_num: 0, entries: Vec::new() }
    }

    /// How many refs were allocated so far (the number of the last one).
    pub(crate) fn allocated_count(&self) -> (n: u64)
        requires
            self.wf(),
        ensures
            n == self@.entries.len(),
    {
        self.next_num
    }

    pub fn current_generation(&self) -> (g: u64)
        ensures
            g == self@.generation,
    {
        self.generation
    }

    /// Start a new snapshot generation; every ref allocated before becomes
    /// stale. Returns the new generation.
    pub fn next_generation(&mut self) -> (g: u64)
        requires
            old(self).wf(),
            old(self)@.generation < u64::MAX,
        ensures
            final(self).wf(),
            final(self)@ == old(self)@.bumped(),
            g == final(self)@.generation,
    {
        self.generation = self.generation + 1;
        assert forall|i: int| 0 <= i < self@.entries.len() implies #[trigger] self@.entries[i].generation
            <= self@.generation by {
            assert(self@.entries[i] == old(self)@.entries[i]);
        }
        self.generation
    }

    /// Allocate a new monotonic ref for the current generation. Returns the
    /// ref string (e.g. "@e42").
    pub fn allocate(&mut self, acb_id: u64) -> (key: String)
        requires
            old(self).wf(),
            old(self)@.entries.len() < u64::MAX,
        ensures
            final(self).wf(),
            final(self)@ == old(self)@.allocated(acb_id),
            key@ == ref_key(final(self)@.entries.len() as nat),
            is_ref_text(key@),
            old(self)@.lookup(key@) is None,
            final(self)@.resolve(key@) == Some(acb_id),
    {
        let g = self.generation;
        let n = self.next_num + 1;
        self.entries.push(RefEntry { generation: g, acb_id });
        self.next_num = n;
        proof {
            lemma_ref_key_number(n as nat);
            assert(self@ =~= old(self)@.allocated(acb_id));
        }
        ref_string(n)
    }

    /// The entry of a ref string, if it was allocated.
    pub fn get(&self, key: &str) -> (r: Option<RefEntry>)
        requires
            self.wf(),
        ensures
            r == self@.lookup(key@),
    {
        let v = to_chars(key);
        let len = v.len();
        if len < 3 || v[0] != '@' || v[1] != 'e' {
            return None;
        }
        let ghost d = v@.skip(2);
        assert(v@.subrange(2, len as int) =~= d);
        if !is_ascii_digit(v[2]) {
            assert(!all_digits(d));
            return None;
        }
        if v[2] == '0' && len > 3 {
            return None;
        }
        match parse_u64_range(&v, 2, len) {
            Some(n) => {
                assert(d.len() > 0);
                assert(d[0] != '+');
                assert(parse_u64(d) == Some(n));
                assert(all_digits(d));
                assert(d.len() == 1 || d[0] != '0');
                assert(ref_number(key@) == Some(n as nat));
                if n >= 1 && n <= self.next_num {
                    let len_e = self.entries.len();
                    assert(n - 1 < len_e);
                    let idx = (n - 1) as usize;
                    assert(idx == n - 1);
                    let e = self.entries[idx];
                    assert(e == self@.entries[n - 1]);
                    assert(self@.lookup(key@) == Some(e));
                    Some(e)
                } else {
                    assert(self@.entries.len() == self.next_num);
                    assert(self@.lookup(key@) is None);
                    None
                }
            },
            None => {
                proof {
                    if ref_number(key@) is Some {
                        assert(d[0] != '+');
                        assert(digits_value(d) > u64::MAX);
                    }
                }
                None
            },
        }
    }
}

/// A ref resolves only within its own snapshot generation: once the next
/// snapshot begins, no ref allocated before resolves any more.
pub proof fn law_new_generation_invalidates_refs(t: RefTableView, key: Seq<char>)
    requires
        t.valid(),
        t.generation < u64::MAX,
    ensures
        t.bumped().valid(),
        t.bumped().resolve(key) is None,
{
}

/// A freshly allocated ref resolves to its element, and allocating never
/// changes what any other ref resolves to.
pub proof fn law_allocate_keeps_other_refs(t: RefTableView, acb_id: u64, key: Seq<char>)
    requires
        t.valid(),
    ensures
        t.allocated(acb_id).valid(),
        t.allocated(acb_id).resolve(ref_key((t.entries.len() + 1) as nat)) == Some(acb_id),
        key != ref_key((t.entries.len() + 1) as nat) ==> t.allocated(acb_id).resolve(key)
            == t.resolve(key),
        key != ref_key((t.entries.len() + 1) as nat) ==> t.allocated(acb_id).lookup(key)
            == t.lookup(key),
        t.lookup(ref_key((t.entries.len() + 1) as nat)) is None,
{
    let t2 = t.allocated(acb_id);
    let n = (t.entries.len() + 1) as nat;
    lemma_ref_key_number(n);
    assert forall|i: int| 0 <= i < t2.entries.len() implies #[trigger] t2.entries[i].generation
        <= t2.generation by {
        if i < t.entries.len() {
            assert(t2.entries[i] == t.entries[i]);
        }
    }
    if key != ref_key(n) {
        match ref_number(key) {
            Some(m) => {
                if m == n {
                    let d = key.skip(2);
                    crate::text::lemma_canonical_is_decimal(d);
                    assert(key =~= seq!['@', 'e'] + d);
                    assert(false);
                }
                if 1 <= m <= t.entries.len() {
                    assert(t2.entries[m - 1] == t.entries[m - 1]);
                }
            },
            None => {},
        }
    }
}

/// Refs with different numbers are different strings: the refs one table
/// hands out, numbered consecutively, are pairwise distinct.
pub proof fn law_refs_are_distinct(m: nat, n: nat)
    requires
        m != n,
    ensures
        ref_key(m) != ref_key(n),
{
    lemma_ref_key_number(m);
    lemma_ref_key_number(n);
}

} // verus!

verus! {

impl RefTable {
    /// A well-formed table's contents are consistent: no entry belongs to a
    /// generation newer than the current one.
    pub proof fn lemma_wf_valid(&self)
        requires
            self.wf(),
        ensures
            self@.valid(),
    {
    }
}

/// One operation on a ref table, as [`RefTable::next_generation`] and
/// [`RefTable::allocate`] perform it.
pub enum TableOp {
    NewGeneration,
    Allocate(u64),
}

pub open spec fn apply_op(t: RefTableView, op: TableOp) -> RefTableView {
    match op {
        TableOp::NewGeneration => t.bumped(),
        TableOp::Allocate(a) => t.allocated(a),
    }
}

/// The table after the operations `ops`, in order.
pub open spec fn replay(t: RefTableView, ops: Seq<TableOp>) -> RefTableView
    decreases ops.len(),
{
    if ops.len() == 0 {
        t
    } else {
        replay(apply_op(t, ops[0]), ops.drop_first())
    }
}

/// How many new generations `ops` start.
pub open spec fn generations_started(ops: Seq<TableOp>) -> nat
    decreases ops.len(),
{
    if ops.len() == 0 {
        0
    } else {
        (if ops[0] is NewGeneration {
            1nat
        } else {
            0nat
        }) + generations_started(ops.drop_first())
    }
}

proof fn lemma_replay(t: RefTableView, ops: Seq<TableOp>, n: nat)
    requires
        1 <= n <= t.entries.len(),
        t.generation + ops.len() < u64::MAX,
    ensures
        replay(t, ops).entries.len() >= t.entries.len(),
        replay(t, ops).entries[n - 1] == t.entries[n - 1],
        replay(t, ops).generation == t.generation + generations_started(ops),
        generations_started(ops) <= ops.len(),
    decreases ops.len(),
{
    if ops.len() > 0 {
        let t1 = apply_op(t, ops[0]);
        assert(t1.entries[n - 1] == t.entries[n - 1]);
        lemma_replay(t1, ops.drop_first(), n);
    }
}

/// A ref resolves to its element for as long as no new snapshot generation
/// starts, whatever is allocated meanwhile; once one starts, it never
/// resolves again. (`t` is the table the ref was allocated in; the bound
/// keeps the generation counter from overflowing, where
/// [`RefTable::next_generation`] refuses to go.)
pub proof fn law_ref_lives_until_next_generation(t: RefTableView, acb_id: u64, ops: Seq<TableOp>)
    requires
        t.valid(),
        t.generation + ops.len() < u64::MAX,
    ensures
        replay(t.allocated(acb_id), ops).resolve(ref_key((t.entries.len() + 1) as nat)) == (if generations_started(ops) == 0 {
            Some(acb_id)
        } else {
            None
        }),
{
    let t1 = t.allocated(acb_id);
    let n = (t.entries.len() + 1) as nat;
    lemma_ref_key_number(n);
    lemma_replay(t1, ops, n);
    let r = replay(t1, ops);
    assert(t1.entries[n - 1] == RefEntry { generation: t.generation, acb_id });
    assert(r.lookup(ref_key(n)) == Some(r.entries[n - 1]));
}

} // verus!
