//! Per-session snapshot machinery. A snapshot is the policy-filtered list of
//! accessible elements with their `@eN` refs. Each new snapshot bumps the
//! session's generation and invalidates all previous refs.

pub mod ref_table;

use std::collections::HashMap;

use vstd::prelude::*;

use self::ref_table::{is_ref, is_ref_text, ref_key, ref_string, RefEntry, RefTable, RefTableView};
use crate::text::{copy_opt, opt_text};

verus! {

broadcast use vstd::std_specs::hash::group_hash_axioms;

/// Whether `r` has the shape of a ref.
pub fn validate_ref_format(r: &str) -> (b: bool)
    ensures
        b == is_ref_text(r@),
{
    is_ref(r)
}

/// The element a ref stands for, if it was allocated in the table's current
/// snapshot generation; a stale, unknown or malformed ref gives `None`.
pub fn parse_ref(table: &RefTable, r: &str) -> (id: Option<u64>)
    requires
        table.wf(),
    ensures
        id == table@.resolve(r@),
{
    if !validate_ref_format(r) {
        proof {
            if ref_table::ref_number(r@) is Some {
                let d = r@.skip(2);
                assert(is_ref_text(r@));
            }
        }
        return None;
    }
    let entry = match table.get(r) {
        Some(e) => e,
        None => {
            return None;
        },
    };
    let current_gen = table.current_generation();
    if entry.generation != current_gen {
        return None;
    }
    Some(entry.acb_id)
}

/// One element the page helper reported, as plain values: its fields as
/// read from the helper's JSON (`acbId`, `parent_acb_id`, `tag`, `role`,
/// `name`, `text`, `href`); an absent or ill-typed field is `None`.
pub struct RawElement {
    pub acb_id: Option<u64>,
    pub parent_acb_id: Option<u64>,
    pub tag: Option<String>,
    pub role: Option<String>,
    pub name: Option<String>,
    pub text: Option<String>,
    pub href: Option<String>,
}

/// One accessible element of a snapshot. `raw_index` is the element's
/// position in the helper's list (where its bounding box can be found).
pub struct SnapshotItem {
    pub reference: String,
    pub tag: String,
    pub role: Option<String>,
    pub name: Option<String>,
    pub text: String,
    pub href: Option<String>,
    pub parent_ref: Option<String>,
    pub raw_index: usize,
}

pub struct SnapshotResponse {
    pub generation: u64,
    pub refs: Vec<SnapshotItem>,
}

/// The element id of a raw element; 0 (no id) when absent.
pub open spec fn acb_of(e: RawElement) -> u64 {
    match e.acb_id {
        Some(a) => a,
        None => 0,
    }
}

/// Positions of the raw elements that carry an id, in order.
pub open spec fn kept(raw: Seq<RawElement>) -> Seq<int>
    decreases raw.len(),
{
    if raw.len() == 0 {
        Seq::empty()
    } else if acb_of(raw.last()) != 0 {
        kept(raw.drop_last()).push(raw.len() - 1)
    } else {
        kept(raw.drop_last())
    }
}

/// For each element id: the number of the ref allocated last for it, when
/// the refs of this snapshot are numbered from `base + 1`.
pub open spec fn ref_numbers(raw: Seq<RawElement>, base: nat) -> Map<u64, u64>
    decreases raw.len(),
{
    if raw.len() == 0 {
        Map::empty()
    } else if acb_of(raw.last()) != 0 {
        ref_numbers(raw.drop_last(), base).insert(acb_of(raw.last()), (base + kept(raw).len()) as u64)
    } else {
        ref_numbers(raw.drop_last(), base)
    }
}

pub open spec fn text_or_empty(s: Option<String>) -> Seq<char> {
    match s {
        Some(t) => t@,
        None => Seq::empty(),
    }
}

/// The parent ref the stitching pass attaches to the `j`-th item: it walks
/// the helper's elements by position and gives item `j` the ref of the
/// element id that the `j`-th *raw* element names as its parent (the item
/// and the raw element coincide while no element lacks an id).
pub open spec fn parent_ref_of(raw: Seq<RawElement>, base: nat, j: int) -> Option<Seq<char>> {
    match raw[j].parent_acb_id {
        Some(p) => if ref_numbers(raw, base).contains_key(p) {
            Some(ref_key(ref_numbers(raw, base)[p] as nat))
        } else {
            None
        },
        None => None,
    }
}

/// Every raw element whose parent has a ref lies within the item list: the
/// stitching pass, which walks the raw elements by position, would
/// otherwise index past the items.
pub open spec fn parents_in_range(raw: Seq<RawElement>, base: nat) -> bool {
    forall|i: int|
        0 <= i < raw.len() ==> (#[trigger] parent_ref_of(raw, base, i) is Some ==> i < kept(
            raw,
        ).len())
}

proof fn lemma_kept(raw: Seq<RawElement>)
    ensures
        kept(raw).len() <= raw.len(),
        forall|j: int| 0 <= j < kept(raw).len() ==> 0 <= #[trigger] kept(raw)[j] < raw.len(),
        forall|j: int| 0 <= j < kept(raw).len() ==> acb_of(raw[#[trigger] kept(raw)[j]]) != 0,
    decreases raw.len(),
{
    if raw.len() > 0 {
        lemma_kept(raw.drop_last());
        let k = kept(raw);
        let k0 = kept(raw.drop_last());
        assert forall|j: int| 0 <= j < k.len() implies acb_of(raw[#[trigger] k[j]]) != 0 by {
            if j < k0.len() {
                assert(k[j] == k0[j]);
                assert(raw[k0[j]] == raw.drop_last()[k0[j]]);
            }
        }
    }
}

/// `r` is the snapshot of the elements `raw` taken with a table that was
/// `t0` and is `t1` afterwards: a new generation started; every element
/// with an id got the next ref, in order, in that generation; each item
/// carries its element's fields and the ref of the element its raw element
/// names as parent.
pub open spec fn snapshot_taken(
    t0: RefTableView,
    t1: RefTableView,
    raw: Seq<RawElement>,
    r: SnapshotResponse,
) -> bool {
    &&& r.generation == t0.generation + 1
    &&& t1.generation == r.generation
    &&& t1.entries == t0.entries + Seq::new(
        kept(raw).len(),
        |j: int| RefEntry { generation: r.generation, acb_id: acb_of(raw[kept(raw)[j]]) },
    )
    &&& r.refs.len() == kept(raw).len()
    &&& forall|j: int|
        0 <= j < r.refs.len() ==> {
            let it = #[trigger] r.refs@[j];
            let e = raw[kept(raw)[j]];
            &&& it.raw_index == kept(raw)[j]
            &&& it.reference@ == ref_key((t0.entries.len() + j + 1) as nat)
            &&& it.tag@ == text_or_empty(e.tag)
            &&& opt_text(it.role) == opt_text(e.role)
            &&& opt_text(it.name) == opt_text(e.name)
            &&& it.text@ == text_or_empty(e.text)
            &&& opt_text(it.href) == opt_text(e.href)
            &&& opt_text(it.parent_ref) == parent_ref_of(raw, t0.entries.len() as nat, j)
        }
}

/// Take a snapshot from the elements the page helper reported: start a new
/// generation (invalidating all earlier refs), allocate a ref for every
/// element that has an id, and link each item to its parent's ref.
pub fn build_snapshot(table: &mut RefTable, raw: &Vec<RawElement>) -> (r: SnapshotResponse)
    requires
        old(table).wf(),
        old(table)@.generation < u64::MAX,
        old(table)@.entries.len() + raw.len() < u64::MAX,
        parents_in_range(raw@, old(table)@.entries.len() as nat),
    ensures
        final(table).wf(),
        snapshot_taken(old(table)@, final(table)@, raw@, r),
{
    let ghost base = old(table)@.entries.len() as nat;
    let ghost t0 = old(table)@;
    let gen = table.next_generation();
    let mut items: Vec<SnapshotItem> = Vec::new();
    let mut acb_to_ref: HashMap<u64, u64> = HashMap::new();
    let mut i: usize = 0;
    proof {
        lemma_kept(raw@);
    }
    while i < raw.len()
        invariant
            0 <= i <= raw.len(),
            table.wf(),
            table@.generation == gen,
            gen == t0.generation + 1,
            base == t0.entries.len(),
            base + raw.len() < u64::MAX,
            table@.entries == t0.entries + Seq::new(
                kept(raw@.take(i as int)).len(),
                |j: int| RefEntry { generation: gen, acb_id: acb_of(raw@[kept(raw@.take(i as int))[j]]) },
            ),
            acb_to_ref@ == ref_numbers(raw@.take(i as int), base),
            items.len() == kept(raw@.take(i as int)).len(),
            forall|j: int|
                0 <= j < items.len() ==> {
                    let it = #[trigger] items@[j];
                    let e = raw@[kept(raw@.take(i as int))[j]];
                    &&& it.raw_index == kept(raw@.take(i as int))[j]
                    &&& it.reference@ == ref_key((base + j + 1) as nat)
                    &&& it.tag@ == text_or_empty(e.tag)
                    &&& opt_text(it.role) == opt_text(e.role)
                    &&& opt_text(it.name) == opt_text(e.name)
                    &&& it.text@ == text_or_empty(e.text)
                    &&& opt_text(it.href) == opt_text(e.href)
                    &&& it.parent_ref is None
                },
        decreases raw.len() - i,
    {
        proof {
            lemma_kept(raw@.take(i as int));
        }
        let ghost pre = raw@.take(i as int);
        let ghost post = raw@.take(i + 1);
        assert(post.drop_last() =~= pre);
        assert(post.last() == raw@[i as int]);
        let v = &raw[i];
        let acb_id = match v.acb_id {
            Some(a) => a,
            None => 0,
        };
        if acb_id == 0 {
            i = i + 1;
            continue;
        }
        let key = table.allocate(acb_id);
        let num = table.allocated_count();
        acb_to_ref.insert(acb_id, num);
        let item = SnapshotItem {
            reference: key,
            tag: match &v.tag {
                Some(t) => crate::text::owned(t.as_str()),
                None => String::new(),
            },
            role: copy_opt(&v.role),
            name: copy_opt(&v.name),
            text: match &v.text {
                Some(t) => crate::text::owned(t.as_str()),
                None => String::new(),
            },
            href: copy_opt(&v.href),
            parent_ref: None,
            raw_index: i,
        };
        items.push(item);
        i = i + 1;
        proof {
            assert(kept(post) == kept(pre).push(i - 1));
            assert forall|j: int| 0 <= j < kept(pre).len() implies #[trigger] kept(post)[j]
                == kept(pre)[j] by {}
            assert(table@.entries =~= t0.entries + Seq::new(
                kept(post).len(),
                |j: int| RefEntry { generation: gen, acb_id: acb_of(raw@[kept(post)[j]]) },
            ));
        }
    }
    assert(raw@.take(raw.len() as int) =~= raw@);
    // Stitch parent refs.
    let ghost numbers = acb_to_ref@;
    let mut k: usize = 0;
    while k < raw.len()
        invariant
            0 <= k <= raw.len(),
            acb_to_ref@ == numbers,
            numbers == ref_numbers(raw@, base),
            parents_in_range(raw@, base),
            items.len() == kept(raw@).len(),
            forall|j: int|
                0 <= j < items.len() ==> {
                    let it = #[trigger] items@[j];
                    let e = raw@[kept(raw@)[j]];
                    &&& it.raw_index == kept(raw@)[j]
                    &&& it.reference@ == ref_key((base + j + 1) as nat)
                    &&& it.tag@ == text_or_empty(e.tag)
                    &&& opt_text(it.role) == opt_text(e.role)
                    &&& opt_text(it.name) == opt_text(e.name)
                    &&& it.text@ == text_or_empty(e.text)
                    &&& opt_text(it.href) == opt_text(e.href)
                    &&& opt_text(it.parent_ref) == (if j < k {
                        parent_ref_of(raw@, base, j)
                    } else {
                        None
                    })
                },
        decreases raw.len() - k,
    {
        let v = &raw[k];
        assert(parent_ref_of(raw@, base, k as int) == parent_ref_of(raw@, base, k as int));
        match v.parent_acb_id {
            Some(p) => {
                match acb_to_ref.get(&p) {
                    Some(n) => {
                        let pr = ref_string(*n);
                        let old_item = items.remove(k);
                        let item = SnapshotItem { parent_ref: Some(pr), ..old_item };
                        items.insert(k, item);
                    },
                    None => {},
                }
            },
            None => {},
        }
        k = k + 1;
    }
    SnapshotResponse { generation: gen, refs: items }
}

} // verus!

verus! {

/// An element id has a ref in the snapshot exactly when some element
/// carries it (and it is not 0, which stands for "no id").
proof fn lemma_ref_numbers_keys(raw: Seq<RawElement>, base: nat, p: u64)
    ensures
        ref_numbers(raw, base).contains_key(p) <==> (p != 0 && exists|j: int|
            0 <= j < raw.len() && acb_of(#[trigger] raw[j]) == p),
    decreases raw.len(),
{
    if raw.len() > 0 {
        let pre = raw.drop_last();
        lemma_ref_numbers_keys(pre, base, p);
        if exists|j: int| 0 <= j < pre.len() && acb_of(#[trigger] pre[j]) == p {
            let j = choose|j: int| 0 <= j < pre.len() && acb_of(#[trigger] pre[j]) == p;
            assert(raw[j] == pre[j]);
        }
        if exists|j: int| 0 <= j < raw.len() && acb_of(#[trigger] raw[j]) == p {
            let j = choose|j: int| 0 <= j < raw.len() && acb_of(#[trigger] raw[j]) == p;
            if j < raw.len() - 1 {
                assert(pre[j] == raw[j]);
            }
        }
    }
}

fn count_kept(raw: &Vec<RawElement>) -> (n: usize)
    ensures
        n == kept(raw@).len(),
{
    let mut n: usize = 0;
    let mut i: usize = 0;
    while i < raw.len()
        invariant
            i <= raw.len(),
            n == kept(raw@.take(i as int)).len(),
            n <= i,
        decreases raw.len() - i,
    {
        let ghost pre = raw@.take(i as int);
        let ghost post = raw@.take(i + 1);
        assert(post.drop_last() =~= pre);
        assert(post.last() == raw@[i as int]);
        let has = match raw[i].acb_id {
            Some(a) => a != 0,
            None => false,
        };
        if has {
            n = n + 1;
        }
        i = i + 1;
    }
    assert(raw@.take(raw.len() as int) =~= raw@);
    n
}

fn has_id(raw: &Vec<RawElement>, p: u64) -> (b: bool)
    ensures
        b == exists|j: int| 0 <= j < raw.len() && acb_of(#[trigger] raw@[j]) == p,
{
    let mut i: usize = 0;
    while i < raw.len()
        invariant
            i <= raw.len(),
            forall|j: int| 0 <= j < i ==> acb_of(#[trigger] raw@[j]) != p,
        decreases raw.len() - i,
    {
        let a = match raw[i].acb_id {
            Some(a) => a,
            None => 0,
        };
        if a == p {
            assert(acb_of(raw@[i as int]) == p);
            return true;
        }
        i = i + 1;
    }
    false
}

fn parents_fit(raw: &Vec<RawElement>, Ghost(base): Ghost<nat>) -> (b: bool)
    ensures
        b == parents_in_range(raw@, base),
{
    let n_kept = count_kept(raw);
    let mut i: usize = 0;
    while i < raw.len()
        invariant
            i <= raw.len(),
            n_kept == kept(raw@).len(),
            forall|j: int|
                0 <= j < i ==> (#[trigger] parent_ref_of(raw@, base, j) is Some ==> j < n_kept),
        decreases raw.len() - i,
    {
        let linked = match raw[i].parent_acb_id {
            Some(p) => {
                proof {
                    lemma_ref_numbers_keys(raw@, base, p);
                }
                p != 0 && has_id(raw, p)
            },
            None => false,
        };
        assert(linked == parent_ref_of(raw@, base, i as int) is Some);
        if linked && i >= n_kept {
            return false;
        }
        i = i + 1;
    }
    true
}

/// Take a snapshot (see [`build_snapshot`]) when it can be taken: `None`,
/// with the table untouched, when the generation or ref counters would
/// overflow, or when an element whose parent has a ref lies past the item
/// list (the stitching pass would index past it).
pub fn take_snapshot(table: &mut RefTable, raw: &Vec<RawElement>) -> (r: Option<SnapshotResponse>)
    requires
        old(table).wf(),
    ensures
        final(table).wf(),
        r is None <==> !(old(table)@.generation < u64::MAX && old(table)@.entries.len() + raw.len()
            < u64::MAX && parents_in_range(raw@, old(table)@.entries.len() as nat)),
        r is None ==> final(table)@ == old(table)@,
        r matches Some(s) ==> snapshot_taken(old(table)@, final(table)@, raw@, s),
{
    let count = table.allocated_count();
    if table.current_generation() == u64::MAX {
        return None;
    }
    let len = raw.len() as u64;
    if len >= u64::MAX - count {
        return None;
    }
    if !parents_fit(raw, Ghost(count as nat)) {
        return None;
    }
    Some(build_snapshot(table, raw))
}

} // verus!

verus! {

/// After a snapshot, the refs it handed out resolve to their elements, and
/// every ref allocated before it is stale: an action naming one is refused.
pub proof fn law_snapshot_refs_resolve_and_older_are_stale(
    t0: RefTableView,
    t1: RefTableView,
    raw: Seq<RawElement>,
    r: SnapshotResponse,
    old_key: Seq<char>,
)
    requires
        t0.valid(),
        snapshot_taken(t0, t1, raw, r),
        t0.lookup(old_key) is Some,
    ensures
        t1.resolve(old_key) is None,
        forall|j: int|
            0 <= j < r.refs.len() ==> t1.resolve(#[trigger] r.refs@[j].reference@) == Some(
                acb_of(raw[kept(raw)[j]]),
            ),
{
    let n = ref_table::ref_number(old_key).unwrap();
    assert(t1.entries[n - 1] == t0.entries[n - 1]);
    assert forall|j: int| 0 <= j < r.refs.len() implies t1.resolve(
        #[trigger] r.refs@[j].reference@,
    ) == Some(acb_of(raw[kept(raw)[j]])) by {
        let m = (t0.entries.len() + j + 1) as nat;
        ref_table::lemma_ref_key_number(m);
        assert(t1.entries[m - 1] == RefEntry {
            generation: r.generation,
            acb_id: acb_of(raw[kept(raw)[j]]),
        });
    }
}

} // verus!
