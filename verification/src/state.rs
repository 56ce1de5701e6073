//! The CLI's small on-disk state, shared by successive invocations: the
//! last-used session and the session pinned with `acb-cli use`, and the
//! rules that pick which session a command targets.

use vstd::prelude::*;

use crate::protect::string_views;
use crate::text::{copy_opt, opt_text, owned, str_eq};

verus! {

#[derive(Debug)]
pub struct CliState {
    /// The session the CLI last created or used.
    pub session_id: Option<String>,
    /// The session pinned with `acb-cli use`.
    pub pinned_session_id: Option<String>,
}

impl Default for CliState {
    fn default() -> (s: Self)
        ensures
            s.session_id is None,
            s.pinned_session_id is None,
    {
        CliState { session_id: None, pinned_session_id: None }
    }
}

/// The one-element sequence of `o`'s value, or the empty sequence.
pub open spec fn opt_seq(o: Option<Seq<char>>) -> Seq<Seq<char>> {
    match o {
        Some(x) => seq![x],
        None => Seq::empty(),
    }
}

/// The sessions a command may target, in the order they are tried: the
/// `--session` flag alone when it is given; else the pinned session, then
/// the last-used one.
pub open spec fn candidates(flag: Option<Seq<char>>, st: CliState) -> Seq<Seq<char>> {
    match flag {
        Some(f) => seq![f],
        None => opt_seq(opt_text(st.pinned_session_id)) + opt_seq(opt_text(st.session_id)),
    }
}

/// The candidate sessions for a command (see [`candidates`]).
pub fn session_candidates(flag: &Option<String>, st: &CliState) -> (r: Vec<String>)
    ensures
        string_views(r@) == candidates(opt_text(*flag), *st),
{
    let mut out: Vec<String> = Vec::new();
    match flag {
        Some(f) => {
            out.push(owned(f.as_str()));
        },
        None => {
            match &st.pinned_session_id {
                Some(p) => out.push(owned(p.as_str())),
                None => {},
            }
            match &st.session_id {
                Some(s) => out.push(owned(s.as_str())),
                None => {},
            }
        },
    }
    assert(string_views(out@) =~= candidates(opt_text(*flag), *st));
    out
}

/// The next step of resolving a command's session.
#[derive(Debug, Clone, Copy, PartialEq, Eq)]
pub enum Resolve {
    /// Ask the daemon whether the candidate at this index is live.
    Probe(usize),
    /// Target the (live) candidate at this index.
    Use(usize),
    /// The `--session` given is not a live session: fail.
    FlagNotLive,
    /// No candidate is live: create a new session and remember it.
    CreateNew,
}

/// The step once the first `dead` candidates were found not live.
pub open spec fn step_after(n: nat, flagged: bool, dead: nat) -> Resolve {
    if dead < n {
        Resolve::Probe(dead as usize)
    } else if flagged {
        Resolve::FlagNotLive
    } else {
        Resolve::CreateNew
    }
}

/// The first step of resolving a session among `n` candidates (`flagged`:
/// the candidates are the `--session` flag).
pub fn resolve_start(n: usize, flagged: bool) -> (r: Resolve)
    ensures
        r == step_after(n as nat, flagged, 0),
{
    if 0 < n {
        Resolve::Probe(0)
    } else if flagged {
        Resolve::FlagNotLive
    } else {
        Resolve::CreateNew
    }
}

/// The step after the daemon answered whether candidate `index` is live.
pub fn resolve_answer(n: usize, flagged: bool, index: usize, alive: bool) -> (r: Resolve)
    requires
        index < n,
    ensures
        alive ==> r == Resolve::Use(index),
        !alive ==> r == step_after(n as nat, flagged, index as nat + 1),
{
    if alive {
        Resolve::Use(index)
    } else if index + 1 < n {
        Resolve::Probe(index + 1)
    } else if flagged {
        Resolve::FlagNotLive
    } else {
        Resolve::CreateNew
    }
}

/// Where resolving ends when the daemon answers `live[i]` for candidate
/// `i`, having found the candidates before `from` dead.
pub open spec fn run_from(n: nat, flagged: bool, live: Seq<bool>, from: nat) -> Resolve
    decreases n - from,
{
    if from < n {
        if live[from as int] {
            Resolve::Use(from as usize)
        } else {
            run_from(n, flagged, live, from + 1)
        }
    } else if flagged {
        Resolve::FlagNotLive
    } else {
        Resolve::CreateNew
    }
}

proof fn lemma_run_from(n: nat, flagged: bool, live: Seq<bool>, from: nat)
    requires
        from <= n,
        n <= live.len(),
        n <= usize::MAX,
    ensures
        match run_from(n, flagged, live, from) {
            Resolve::Use(i) => from <= i < n && live[i as int] && forall|j: int|
                from <= j < i ==> !#[trigger] live[j],
            Resolve::Probe(_) => false,
            Resolve::FlagNotLive => flagged && forall|j: int| from <= j < n ==> !#[trigger] live[j],
            Resolve::CreateNew => !flagged && forall|j: int| from <= j < n ==> !#[trigger] live[j],
        },
    decreases n - from,
{
    if from < n && !live[from as int] {
        lemma_run_from(n, flagged, live, from + 1);
    }
}

/// The session resolution order. The steps ([`resolve_start`] gives
/// `step_after(n, flagged, 0)`; [`resolve_answer`] for candidate `i` gives
/// `Use(i)` when it is live and `step_after(n, flagged, i + 1)` otherwise)
/// probe the candidates in order, so with the daemon's answer `live[i]` for
/// each they run as [`run_from`] from 0: they end at the first live
/// candidate; with no live candidate they fail when the candidates came from
/// `--session`, and otherwise create a new session. They never end on a
/// probe.
pub proof fn law_first_live_candidate_wins(n: nat, flagged: bool, live: Seq<bool>)
    requires
        n <= live.len(),
        n <= usize::MAX,
    ensures
        match run_from(n, flagged, live, 0) {
            Resolve::Use(i) => i < n && live[i as int] && forall|j: int|
                0 <= j < i ==> !#[trigger] live[j],
            Resolve::Probe(_) => false,
            Resolve::FlagNotLive => flagged && forall|j: int| 0 <= j < n ==> !#[trigger] live[j],
            Resolve::CreateNew => !flagged && forall|j: int| 0 <= j < n ==> !#[trigger] live[j],
        },
        forall|k: nat| k < n ==> #[trigger] step_after(n, flagged, k) == Resolve::Probe(k as usize),
        step_after(n, flagged, n) == run_from(n, flagged, live, n),
{
    lemma_run_from(n, flagged, live, 0);
}

/// The session `close` acts on: the `--session` flag, else the pinned
/// session, else the last-used one (it never creates one).
pub open spec fn close_target_of(flag: Option<Seq<char>>, st: CliState) -> Option<Seq<char>> {
    match flag {
        Some(f) => Some(f),
        None => match opt_text(st.pinned_session_id) {
            Some(p) => Some(p),
            None => opt_text(st.session_id),
        },
    }
}

/// The session to close, or `None` when there is none.
pub fn close_target(flag: &Option<String>, st: &CliState) -> (r: Option<String>)
    ensures
        opt_text(r) == close_target_of(opt_text(*flag), *st),
{
    match flag {
        Some(f) => Some(owned(f.as_str())),
        None => match &st.pinned_session_id {
            Some(p) => Some(owned(p.as_str())),
            None => copy_opt(&st.session_id),
        },
    }
}

/// `o` unless it holds `id`, in which case nothing.
pub open spec fn without(o: Option<Seq<char>>, id: Seq<char>) -> Option<Seq<char>> {
    if o == Some(id) {
        None
    } else {
        o
    }
}

fn clear_if(o: &mut Option<String>, id: &str)
    ensures
        opt_text(*final(o)) == without(opt_text(*old(o)), id@),
{
    let hit = match o {
        Some(s) => str_eq(s.as_str(), id),
        None => false,
    };
    if hit {
        *o = None;
    }
}

impl CliState {
    /// Remember `id` as the last-used session (after creating it).
    pub fn remember(&mut self, id: &str)
        ensures
            opt_text(final(self).session_id) == Some(id@),
            opt_text(final(self).pinned_session_id) == opt_text(old(self).pinned_session_id),
    {
        self.session_id = Some(owned(id));
    }

    /// Pin `id`: later commands target it.
    pub fn pin(&mut self, id: &str)
        ensures
            opt_text(final(self).pinned_session_id) == Some(id@),
            opt_text(final(self).session_id) == opt_text(old(self).session_id),
    {
        self.pinned_session_id = Some(owned(id));
    }

    /// Clear the pin.
    pub fn unpin(&mut self)
        ensures
            final(self).pinned_session_id is None,
            opt_text(final(self).session_id) == opt_text(old(self).session_id),
    {
        self.pinned_session_id = None;
    }

    /// Forget every local pointer to the closed session `id`.
    pub fn forget(&mut self, id: &str)
        ensures
            opt_text(final(self).session_id) == without(opt_text(old(self).session_id), id@),
            opt_text(final(self).pinned_session_id) == without(
                opt_text(old(self).pinned_session_id),
                id@,
            ),
    {
        clear_if(&mut self.session_id, id);
        clear_if(&mut self.pinned_session_id, id);
    }
}

/// Whether `id` is the pinned session (marked in the session list).
pub fn is_pinned(id: &str, pinned: &Option<String>) -> (b: bool)
    ensures
        b == (opt_text(*pinned) == Some(id@)),
{
    match pinned {
        Some(p) => str_eq(p.as_str(), id),
        None => false,
    }
}

/// After closing the session `close` picked (no flag) and forgetting it,
/// `close` no longer picks that session.
pub proof fn law_closed_session_is_forgotten(
    before: CliState,
    after: CliState,
    id: Seq<char>,
)
    requires
        close_target_of(None, before) == Some(id),
        opt_text(after.session_id) == without(opt_text(before.session_id), id),
        opt_text(after.pinned_session_id) == without(opt_text(before.pinned_session_id), id),
    ensures
        close_target_of(None, after) != Some(id),
        !candidates(None, after).contains(id),
{
    let c = candidates(None, after);
    if c.contains(id) {
        let k = choose|k: int| 0 <= k < c.len() && c[k] == id;
        assert(opt_text(after.pinned_session_id) != Some(id));
        assert(opt_text(after.session_id) != Some(id));
        match opt_text(after.pinned_session_id) {
            Some(p) => {
                if k == 0 {
                    assert(c[0] == p);
                } else {
                    assert(c[k] == c.drop_first()[k - 1]);
                }
            },
            None => {
                assert(c =~= opt_seq(opt_text(after.session_id)));
            },
        }
    }
}

} // verus!
