//! The dispatcher: one poll cycle's dispatch decisions. Each cycle walks
//! the registry in order; a source with a marker is skipped, a source
//! without one is dispatched exactly when its marker acquisition
//! succeeds, and the marker is held from dispatch until the job ends.

use vstd::prelude::*;
use crate::locks::LockSet;
use crate::registry::Registry;
use crate::registry::Source;
use crate::registry::distinct_ids;
use crate::registry::source_views;

verus! {

/// The dispatch decision for one source: dispatch iff no marker was held
/// at the cycle's start and the marker acquisition succeeded.
pub open spec fn dispatches(
    entry: (Seq<char>, Seq<char>),
    locked: Set<Seq<char>>,
    acquire_ok: bool,
) -> bool {
    !locked.contains(entry.0) && acquire_ok
}

/// What one cycle dispatches among the first `n` sources, given the
/// markers held at the cycle's start and each source's acquisition
/// outcome, in registry order.
pub open spec fn cycle_plan_upto(
    entries: Seq<(Seq<char>, Seq<char>)>,
    locked: Set<Seq<char>>,
    ok: Seq<bool>,
    n: int,
) -> Seq<(Seq<char>, Seq<char>)>
    decreases n,
{
    if n <= 0 {
        Seq::empty()
    } else {
        cycle_plan_upto(entries, locked, ok, n - 1) + (if dispatches(
            entries[n - 1],
            locked,
            ok[n - 1],
        ) {
            seq![entries[n - 1]]
        } else {
            Seq::empty()
        })
    }
}

/// Everything one cycle dispatches.
pub open spec fn cycle_plan(
    entries: Seq<(Seq<char>, Seq<char>)>,
    locked: Set<Seq<char>>,
    ok: Seq<bool>,
) -> Seq<(Seq<char>, Seq<char>)> {
    cycle_plan_upto(entries, locked, ok, entries.len() as int)
}

/// The identifiers of a list of entries.
pub open spec fn id_set(entries: Seq<(Seq<char>, Seq<char>)>) -> Set<Seq<char>> {
    Set::new(|k: Seq<char>| exists|i: int| 0 <= i < entries.len() && entries[i].0 == k)
}

/// A source is dispatched exactly when some registry position carries it
/// and that position's decision says so.
pub proof fn lemma_plan_membership(
    entries: Seq<(Seq<char>, Seq<char>)>,
    locked: Set<Seq<char>>,
    ok: Seq<bool>,
    n: int,
    e: (Seq<char>, Seq<char>),
)
    requires
        n <= entries.len(),
    ensures
        cycle_plan_upto(entries, locked, ok, n).contains(e) <==> exists|i: int|
            0 <= i < n && entries[i] == e && dispatches(entries[i], locked, ok[i]),
    decreases n,
{
    if n <= 0 {
        assert(cycle_plan_upto(entries, locked, ok, n).len() == 0);
    } else {
        lemma_plan_membership(entries, locked, ok, n - 1, e);
        let pre = cycle_plan_upto(entries, locked, ok, n - 1);
        let whole = cycle_plan_upto(entries, locked, ok, n);
        if whole.contains(e) {
            let idx = choose|idx: int| 0 <= idx < whole.len() && whole[idx] == e;
            if idx < pre.len() {
                assert(pre[idx] == e);
                assert(pre.contains(e));
            } else {
                assert(e == entries[n - 1] && dispatches(entries[n - 1], locked, ok[n - 1]));
            }
        }
        if exists|i: int| 0 <= i < n && entries[i] == e && dispatches(entries[i], locked, ok[i]) {
            let i = choose|i: int|
                0 <= i < n && entries[i] == e && dispatches(entries[i], locked, ok[i]);
            if i < n - 1 {
                assert(pre.contains(e));
                let idx = choose|idx: int| 0 <= idx < pre.len() && pre[idx] == e;
                assert(whole[idx] == e);
            } else {
                assert(whole[pre.len() as int] == e);
            }
            assert(whole.contains(e));
        }
    }
}

/// Idempotent dispatch: a source whose marker is held at the cycle's
/// start is not dispatched by that cycle, whatever the registry holds
/// and however the acquisitions turn out.
pub proof fn lemma_idempotent_dispatch(
    entries: Seq<(Seq<char>, Seq<char>)>,
    locked: Set<Seq<char>>,
    ok: Seq<bool>,
    k: Seq<char>,
)
    requires
        locked.contains(k),
    ensures
        forall|j: int|
            0 <= j < cycle_plan(entries, locked, ok).len() ==> cycle_plan(entries, locked, ok)[j].0
                != k,
{
    let plan = cycle_plan(entries, locked, ok);
    assert forall|j: int| 0 <= j < plan.len() implies plan[j].0 != k by {
        assert(plan.contains(plan[j]));
        lemma_plan_membership(entries, locked, ok, entries.len() as int, plan[j]);
    }
}

/// Eventual retry: a source whose marker is absent when the cycle scans
/// — in particular one whose prior job released it — is dispatched by
/// that cycle, provided its own acquisition succeeds.
pub proof fn lemma_eventual_retry(
    entries: Seq<(Seq<char>, Seq<char>)>,
    locked: Set<Seq<char>>,
    ok: Seq<bool>,
    i: int,
)
    requires
        0 <= i < entries.len(),
        !locked.contains(entries[i].0),
        ok[i],
    ensures
        cycle_plan(entries, locked, ok).contains(entries[i]),
{
    lemma_plan_membership(entries, locked, ok, entries.len() as int, entries[i]);
}

/// Fault isolation: whether a source is dispatched depends only on its
/// own entry, the markers held at the cycle's start, and its own
/// acquisition outcome — another source's acquisition failure cannot
/// change it.
pub proof fn lemma_fault_isolation(
    entries: Seq<(Seq<char>, Seq<char>)>,
    locked: Set<Seq<char>>,
    ok1: Seq<bool>,
    ok2: Seq<bool>,
    j: int,
)
    requires
        0 <= j < entries.len(),
        distinct_ids(entries),
        ok1[j] == ok2[j],
    ensures
        cycle_plan(entries, locked, ok1).contains(entries[j]) <==> cycle_plan(
            entries,
            locked,
            ok2,
        ).contains(entries[j]),
{
    lemma_plan_contains_entry(entries, locked, ok1, j);
    lemma_plan_contains_entry(entries, locked, ok2, j);
}

/// With unique identifiers, a registry position is dispatched exactly
/// when its own decision says so.
pub proof fn lemma_plan_contains_entry(
    entries: Seq<(Seq<char>, Seq<char>)>,
    locked: Set<Seq<char>>,
    ok: Seq<bool>,
    j: int,
)
    requires
        0 <= j < entries.len(),
        distinct_ids(entries),
    ensures
        cycle_plan(entries, locked, ok).contains(entries[j]) <==> dispatches(
            entries[j],
            locked,
            ok[j],
        ),
{
    lemma_plan_membership(entries, locked, ok, entries.len() as int, entries[j]);
    if cycle_plan(entries, locked, ok).contains(entries[j]) {
        let i = choose|i: int|
            0 <= i < entries.len() && entries[i] == entries[j] && dispatches(
                entries[i],
                locked,
                ok[i],
            );
        if i < j {
            assert(entries[i].0 != entries[j].0);
        } else if j < i {
            assert(entries[j].0 != entries[i].0);
        }
        assert(i == j);
    }
}

/// One poll cycle over the in-memory store: walks the registry in order,
/// skips each source whose marker is held, and for each other source
/// whose acquisition succeeds, takes its marker and returns it for
/// dispatch. The markers afterwards are those of the cycle's start plus
/// the dispatched sources'.
pub fn run_cycle(locks: &mut LockSet, registry: &Registry, acquire_ok: &Vec<bool>) -> (dispatched:
    Vec<Source>)
    requires
        old(locks).wf(),
        registry.wf(),
        acquire_ok@.len() == registry@.len(),
    ensures
        final(locks).wf(),
        source_views(dispatched@) == cycle_plan(registry@, old(locks)@, acquire_ok@),
        final(locks)@ == old(locks)@.union(id_set(cycle_plan(registry@, old(locks)@, acquire_ok@))),
{
    let ghost entries = registry@;
    let ghost start = old(locks)@;
    let ghost ok = acquire_ok@;
    let mut dispatched: Vec<Source> = Vec::new();
    let n = registry.entries.len();
    let mut idx: usize = 0;
    while idx < n
        invariant
            locks.wf(),
            registry.wf(),
            entries == registry@,
            ok == acquire_ok@,
            n == registry.entries@.len(),
            ok.len() == entries.len(),
            0 <= idx <= n,
            source_views(dispatched@) == cycle_plan_upto(entries, start, ok, idx as int),
            locks@ == start.union(id_set(cycle_plan_upto(entries, start, ok, idx as int))),
        decreases n - idx,
    {
        let ghost ii = idx as int;
        let ghost pre = cycle_plan_upto(entries, start, ok, ii);
        let entry = &registry.entries[idx];
        proof {
            assert(entry@ == entries[ii]);
        }
        if !locks.is_locked(&entry.id) {
            proof {
                assert(!start.contains(entries[ii].0));
            }
            if acquire_ok[idx] {
                locks.acquire(&entry.id);
                let cloned = entry.clone();
                dispatched.push(cloned);
                proof {
                    assert(dispatches(entries[ii], start, ok[ii]));
                    assert(cycle_plan_upto(entries, start, ok, ii + 1) == pre + seq![
                        entries[ii],
                    ]);
                    assert(source_views(dispatched@) =~= pre + seq![entries[ii]]);
                    assert forall|k: Seq<char>|
                        id_set(pre + seq![entries[ii]]).contains(k) <==> id_set(pre).insert(
                            entries[ii].0,
                        ).contains(k) by {
                        let ext = pre + seq![entries[ii]];
                        if id_set(ext).contains(k) {
                            let i = choose|i: int| 0 <= i < ext.len() && ext[i].0 == k;
                            if i < pre.len() {
                                assert(pre[i].0 == k);
                            } else {
                                assert(ext[i] == entries[ii]);
                            }
                        }
                        if id_set(pre).insert(entries[ii].0).contains(k) {
                            if id_set(pre).contains(k) {
                                let i = choose|i: int| 0 <= i < pre.len() && pre[i].0 == k;
                                assert(ext[i].0 == k);
                            } else {
                                assert(ext[pre.len() as int].0 == k);
                            }
                        }
                    }
                    assert(id_set(pre + seq![entries[ii]]) =~= id_set(pre).insert(entries[ii].0));
                    assert(locks@ =~= start.union(
                        id_set(cycle_plan_upto(entries, start, ok, ii + 1)),
                    ));
                }
            } else {
                proof {
                    assert(cycle_plan_upto(entries, start, ok, ii + 1) =~= pre);
                }
            }
        } else {
            proof {
                // The marker seen mid-cycle is either one held at the start
                // or one taken by an earlier, distinct source this cycle.
                if !start.contains(entries[ii].0) {
                    assert(id_set(pre).contains(entries[ii].0));
                    let i = choose|i: int| 0 <= i < pre.len() && pre[i].0 == entries[ii].0;
                    assert(pre.contains(pre[i]));
                    lemma_plan_membership(entries, start, ok, ii, pre[i]);
                    let src = choose|src: int|
                        0 <= src < ii && entries[src] == pre[i] && dispatches(
                            entries[src],
                            start,
                            ok[src],
                        );
                    assert(entries[src].0 != entries[ii].0);
                    assert(false);
                }
                assert(!dispatches(entries[ii], start, ok[ii]));
                assert(cycle_plan_upto(entries, start, ok, ii + 1) =~= pre);
            }
        }
        idx += 1;
    }
    dispatched
}

/// The planning half of a cycle alone: the sources the dispatcher would
/// dispatch given the markers currently held, assuming every acquisition
/// succeeds, in registry order. The store is not changed.
pub fn plan_cycle(locks: &LockSet, registry: &Registry) -> (plan: Vec<Source>)
    ensures
        source_views(plan@) == cycle_plan(
            registry@,
            locks@,
            Seq::new(registry@.len(), |i: int| true),
        ),
{
    let ghost entries = registry@;
    let ghost ok = Seq::new(registry@.len(), |i: int| true);
    let mut plan: Vec<Source> = Vec::new();
    let n = registry.entries.len();
    let mut idx: usize = 0;
    while idx < n
        invariant
            entries == registry@,
            ok == Seq::new(registry@.len(), |i: int| true),
            n == registry.entries@.len(),
            0 <= idx <= n,
            source_views(plan@) == cycle_plan_upto(entries, locks@, ok, idx as int),
        decreases n - idx,
    {
        let ghost ii = idx as int;
        let ghost pre = cycle_plan_upto(entries, locks@, ok, ii);
        let entry = &registry.entries[idx];
        proof {
            assert(entry@ == entries[ii]);
        }
        if !locks.is_locked(&entry.id) {
            plan.push(entry.clone());
            proof {
                assert(dispatches(entries[ii], locks@, ok[ii]));
                assert(source_views(plan@) =~= pre + seq![entries[ii]]);
            }
        } else {
            proof {
                assert(!dispatches(entries[ii], locks@, ok[ii]));
                assert(cycle_plan_upto(entries, locks@, ok, ii + 1) =~= pre);
            }
        }
        idx += 1;
    }
    plan
}

} // verus!
