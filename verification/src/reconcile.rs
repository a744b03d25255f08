//! The desired-state cache: the last successfully applied controller decision
//! per node, and the per-tick bookkeeping the reconciliation loop relies on.
#![allow(unused_imports)]
use vstd::prelude::*;

verus! {

use vstd::string::StrSliceExecFns;
use vstd::string::StringExecFns;

/// The cache contents as a map: each entry's key (a node identity) to the
/// decision recorded for it; later entries win, but keys are kept unique.
pub open spec fn entries_map(s: Seq<(String, Option<String>)>) -> Map<
    Seq<char>,
    Option<Seq<char>>,
>
    decreases s.len(),
{
    if s.len() == 0 {
        Map::empty()
    } else {
        entries_map(s.drop_last()).insert(s.last().0@, s.last().1.deep_view())
    }
}

pub proof fn lemma_entries_map_contains(s: Seq<(String, Option<String>)>, k: Seq<char>)
    ensures
        entries_map(s).contains_key(k) <==> (exists|i: int| 0 <= i < s.len() && s[i].0@ == k),
    decreases s.len(),
{
    if s.len() == 0 {
    } else {
        lemma_entries_map_contains(s.drop_last(), k);
        if s.last().0@ == k {
            assert(s[s.len() - 1].0@ == k);
        } else {
            if exists|i: int| 0 <= i < s.len() && s[i].0@ == k {
                let i = choose|i: int| 0 <= i < s.len() && s[i].0@ == k;
                assert(s.drop_last()[i].0@ == k);
            }
        }
    }
}

pub proof fn lemma_entries_map_value(s: Seq<(String, Option<String>)>, i: int)
    requires
        0 <= i < s.len(),
        forall|j: int| i < j < s.len() ==> s[j].0@ != s[i].0@,
    ensures
        entries_map(s).contains_key(s[i].0@),
        entries_map(s)[s[i].0@] == s[i].1.deep_view(),
    decreases s.len(),
{
    if i == s.len() - 1 {
    } else {
        assert(s.drop_last()[i] == s[i]);
        lemma_entries_map_value(s.drop_last(), i);
        assert(s.last().0@ != s[i].0@);
    }
}

pub proof fn lemma_entries_map_push(s: Seq<(String, Option<String>)>, e: (String, Option<String>))
    ensures
        entries_map(s.push(e)) == entries_map(s).insert(e.0@, e.1.deep_view()),
{
    assert(s.push(e).drop_last() =~= s);
    assert(s.push(e).last() == e);
}

pub proof fn lemma_entries_map_update(s: Seq<(String, Option<String>)>, i: int, d: Option<String>)
    requires
        0 <= i < s.len(),
        forall|j1: int, j2: int| 0 <= j1 < j2 < s.len() ==> s[j1].0@ != s[j2].0@,
    ensures
        entries_map(s.update(i, (s[i].0, d))) == entries_map(s).insert(s[i].0@, d.deep_view()),
    decreases s.len(),
{
    let s2 = s.update(i, (s[i].0, d));
    let k = s[i].0@;
    if i == s.len() - 1 {
        assert(s2.drop_last() =~= s.drop_last());
        assert(entries_map(s2) =~= entries_map(s).insert(k, d.deep_view()));
    } else {
        assert(s2.drop_last() =~= s.drop_last().update(i, (s[i].0, d)));
        assert(s.drop_last()[i] == s[i]);
        lemma_entries_map_update(s.drop_last(), i, d);
        assert(s2.last() == s.last());
        assert(s.last().0@ != k);
        assert(entries_map(s2) =~= entries_map(s).insert(k, d.deep_view()));
    }
}

/// Character-for-character equality of two strings.
fn str_eq(a: &str, b: &str) -> (r: bool)
    ensures
        r == (a@ == b@),
{
    let a_len = a.unicode_len();
    let b_len = b.unicode_len();
    if a_len != b_len {
        return false;
    }
    let mut i: usize = 0;
    while i < a_len
        invariant
            i <= a_len,
            a_len == a@.len(),
            a_len == b@.len(),
            forall|j: int| 0 <= j < i ==> a@[j] == b@[j],
        decreases a_len - i,
    {
        if a.get_char(i) != b.get_char(i) {
            return false;
        }
        i += 1;
    }
    proof {
        assert(a@ =~= b@);
    }
    true
}

/// Equality of two controller decisions.
fn decision_eq(a: &Option<String>, b: &Option<String>) -> (r: bool)
    ensures
        r == (a.deep_view() == b.deep_view()),
{
    match (a, b) {
        (Option::None, Option::None) => true,
        (Option::Some(x), Option::Some(y)) => str_eq(x.as_str(), y.as_str()),
        _ => false,
    }
}

fn clone_decision(d: &Option<String>) -> (r: Option<String>)
    ensures
        r == *d,
{
    match d {
        Option::None => Option::None,
        Option::Some(x) => Option::Some(x.clone()),
    }
}

/// A node's reconciliation must touch it exactly when the freshly computed
/// decision differs from the one last recorded for it (or none was recorded).
pub open spec fn spec_needs_update(
    m: Map<Seq<char>, Option<Seq<char>>>,
    id: Seq<char>,
    d: Option<Seq<char>>,
) -> bool {
    !(m.contains_key(id) && m[id] == d)
}

/// The cache after one node's tick: recorded only when an update was needed
/// and the apply succeeded, untouched otherwise.
pub open spec fn spec_tick_cache(
    m: Map<Seq<char>, Option<Seq<char>>>,
    id: Seq<char>,
    d: Option<Seq<char>>,
    apply_ok: bool,
) -> Map<Seq<char>, Option<Seq<char>>> {
    if spec_needs_update(m, id, d) && apply_ok {
        m.insert(id, d)
    } else {
        m
    }
}

/// Dedup: when a tick applies a decision successfully, a second tick that
/// computes the same decision needs no update, so the applier runs at most
/// once over consecutive ticks with an unchanged decision.
pub proof fn lemma_dedup(m: Map<Seq<char>, Option<Seq<char>>>, id: Seq<char>, d: Option<Seq<char>>)
    ensures
        !spec_needs_update(spec_tick_cache(m, id, d, true), id, d),
{
}

/// Failure-retry: a failed apply leaves the cache unchanged, so the next tick
/// with the same desired decision plans the apply again.
pub proof fn lemma_failure_retry(
    m: Map<Seq<char>, Option<Seq<char>>>,
    id: Seq<char>,
    d: Option<Seq<char>>,
)
    requires
        spec_needs_update(m, id, d),
    ensures
        spec_tick_cache(m, id, d, false) == m,
        spec_needs_update(spec_tick_cache(m, id, d, false), id, d),
{
}

/// The desired-state cache: for each node identity, the controller decision
/// that was last successfully applied to it.
pub struct ControllerCache {
    entries: Vec<(String, Option<String>)>,
}

impl View for ControllerCache {
    type V = Map<Seq<char>, Option<Seq<char>>>;

    closed spec fn view(&self) -> Map<Seq<char>, Option<Seq<char>>> {
        entries_map(self.entries@)
    }
}

impl ControllerCache {
    /// Node identities are kept unique among the entries.
    pub closed spec fn wf(&self) -> bool {
        forall|j1: int, j2: int|
            0 <= j1 < j2 < self.entries@.len() ==> self.entries@[j1].0@ != self.entries@[j2].0@
    }

    /// An empty cache: no node has had a decision applied yet.
    pub fn new() -> (r: Self)
        ensures
            r@ == Map::<Seq<char>, Option<Seq<char>>>::empty(),
            r.wf(),
    {
        ControllerCache { entries: Vec::new() }
    }

    fn find_entry(&self, id: &str) -> (r: Option<usize>)
        ensures
            match r {
                Some(i) => i < self.entries@.len() && self.entries@[i as int].0@ == id@,
                None => forall|j: int| 0 <= j < self.entries@.len() ==> self.entries@[j].0@ != id@,
            },
    {
        let n = self.entries.len();
        let mut i: usize = 0;
        while i < n
            invariant
                i <= n,
                n == self.entries@.len(),
                forall|j: int| 0 <= j < i ==> self.entries@[j].0@ != id@,
            decreases n - i,
        {
            if str_eq(self.entries[i].0.as_str(), id) {
                return Some(i);
            }
            i += 1;
        }
        None
    }

    /// Whether an apply is owed for `id` this tick: true exactly when no
    /// decision is recorded for `id` or the recorded one differs from
    /// `decision`.
    pub fn needs_update(&self, id: &str, decision: &Option<String>) -> (r: bool)
        requires
            self.wf(),
        ensures
            r == spec_needs_update(self@, id@, decision.deep_view()),
    {
        match self.find_entry(id) {
            None => {
                proof {
                    lemma_entries_map_contains(self.entries@, id@);
                }
                true
            },
            Some(i) => {
                proof {
                    assert(self.entries@[i as int].0@ == id@);
                    lemma_entries_map_value(self.entries@, i as int);
                }
                !decision_eq(&self.entries[i].1, decision)
            },
        }
    }

    /// Records `decision` as the one last successfully applied for `id`,
    /// creating the entry on first success and overwriting it thereafter.
    pub fn record(&mut self, id: &str, decision: &Option<String>)
        requires
            old(self).wf(),
        ensures
            final(self).wf(),
            final(self)@ == old(self)@.insert(id@, decision.deep_view()),
    {
        let d = clone_decision(decision);
        let ghost dg = d;
        let ghost s_old = self.entries@;
        match self.find_entry(id) {
            Some(i) => {
                let k = self.entries[i].0.clone();
                proof {
                    lemma_entries_map_update(s_old, i as int, dg);
                }
                self.entries.set(i, (k, d));
                proof {
                    assert(self.entries@ =~= s_old.update(i as int, (s_old[i as int].0, dg)));
                    assert forall|j: int| 0 <= j < self.entries@.len() implies self.entries@[j].0
                        == s_old[j].0 by {}
                }
            },
            None => {
                let key = String::from_str(id);
                let ghost kg = key;
                self.entries.push((key, d));
                proof {
                    lemma_entries_map_push(s_old, (kg, dg));
                    lemma_entries_map_contains(s_old, id@);
                    assert forall|j1: int, j2: int|
                        0 <= j1 < j2 < self.entries@.len() implies self.entries@[j1].0@
                        != self.entries@[j2].0@ by {
                        if j2 < s_old.len() {
                        } else {
                            assert(self.entries@[j2].0@ == id@);
                            assert(s_old[j1].0@ != id@);
                        }
                    }
                }
            },
        }
    }

    /// One node's tick bookkeeping: after an apply attempt of `decision` for
    /// `id`, the decision is recorded only when the apply succeeded.
    pub fn finish_apply(&mut self, id: &str, decision: &Option<String>, apply_ok: bool)
        requires
            old(self).wf(),
            spec_needs_update(old(self)@, id@, decision.deep_view()),
        ensures
            final(self).wf(),
            final(self)@ == spec_tick_cache(old(self)@, id@, decision.deep_view(), apply_ok),
    {
        if apply_ok {
            self.record(id, decision);
        }
    }
}

} // verus!
