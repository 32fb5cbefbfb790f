//! Restarting processes when their files change: which pane a changed path
//! belongs to, and when a burst of changes has settled.
use vstd::prelude::*;
use crate::config::ProcessConfig;
use crate::text::{append_str, owned, str_eq, views};
use std::collections::HashMap;

verus! {

broadcast use vstd::std_specs::hash::group_hash_axioms;

/// A watched path, as its components, and the pane it restarts.
pub struct WatchRoute {
    pub path: Vec<String>,
    pub pane: usize,
}

/// Whether `base` is a leading part of `path`, component by component
/// (`Path::starts_with`).
pub open spec fn starts_with(path: Seq<Seq<char>>, base: Seq<Seq<char>>) -> bool {
    base.len() <= path.len() && path.take(base.len() as int) == base
}

/// Whether `i` is the first route whose path leads `path`.
pub open spec fn is_first_route(routes: Seq<WatchRoute>, path: Seq<Seq<char>>, i: int) -> bool {
    &&& 0 <= i < routes.len()
    &&& starts_with(path, views(routes[i].path@))
    &&& forall|j: int| 0 <= j < i ==> !starts_with(path, views((#[trigger] routes[j]).path@))
}

/// The pane of the first route whose path leads `path`.
pub open spec fn routed_pane(routes: Seq<WatchRoute>, path: Seq<Seq<char>>) -> Option<usize> {
    if exists|i: int| is_first_route(routes, path, i) {
        Some(routes[choose|i: int| is_first_route(routes, path, i)].pane)
    } else {
        None
    }
}

fn leads(path: &Vec<String>, base: &Vec<String>) -> (r: bool)
    ensures
        r == starts_with(views(path@), views(base@)),
{
    if base.len() > path.len() {
        return false;
    }
    let mut i: usize = 0;
    while i < base.len()
        invariant
            i <= base@.len() <= path@.len(),
            forall|j: int| 0 <= j < i ==> path@[j]@ == base@[j]@,
        decreases base@.len() - i,
    {
        if !str_eq(path[i].as_str(), base[i].as_str()) {
            assert(views(path@).take(base@.len() as int)[i as int] != views(base@)[i as int]);
            return false;
        }
        i = i + 1;
    }
    assert(views(path@).take(base@.len() as int) =~= views(base@));
    true
}

/// The pane whose watched path leads the changed `path` (the first route
/// that does), if any.
pub fn route_change(routes: &Vec<WatchRoute>, path: &Vec<String>) -> (r: Option<usize>)
    ensures
        r == routed_pane(routes@, views(path@)),
{
    let ghost p = views(path@);
    let mut i: usize = 0;
    while i < routes.len()
        invariant
            i <= routes@.len(),
            p == views(path@),
            forall|j: int| 0 <= j < i ==> !starts_with(p, views((#[trigger] routes@[j]).path@)),
        decreases routes@.len() - i,
    {
        if leads(path, &routes[i].path) {
            proof {
                assert(is_first_route(routes@, p, i as int));
                let c = choose|k: int| is_first_route(routes@, p, k);
                if c < i {
                    assert(!starts_with(p, views(routes@[c].path@)));
                } else if c > i {
                    assert(!starts_with(p, views(routes@[i as int].path@)));
                }
            }
            return Some(routes[i].pane);
        }
        i = i + 1;
    }
    proof {
        if exists|k: int| is_first_route(routes@, p, k) {
            let c = choose|k: int| is_first_route(routes@, p, k);
            assert(!starts_with(p, views(routes@[c].path@)));
        }
    }
    None
}

/// Panes waiting for their changes to settle, with the time of the last
/// change of each (in milliseconds).
pub struct Debouncer {
    pending: HashMap<usize, u64>,
}

/// How long a pane's changes must settle: its configured time, or 800 ms
/// for a pane without one.
pub open spec fn settle_of(settle: Seq<u64>, pane: usize) -> u64 {
    if pane < settle.len() {
        settle[pane as int]
    } else {
        800
    }
}

/// Whether a change at `last` has settled at `now` (time does not run
/// backwards: a change in the future has not settled unless nothing is
/// required).
pub open spec fn settled(now: u64, last: u64, need: u64) -> bool {
    (if now >= last {
        now - last
    } else {
        0
    }) >= need
}

/// Whether pane `p` has a pending change that has settled at `now`.
pub open spec fn is_due(pending: Map<usize, u64>, now: u64, settle: Seq<u64>, p: usize) -> bool {
    pending.contains_key(p) && settled(now, pending[p], settle_of(settle, p))
}

impl Debouncer {
    /// The pending panes with the time of their last change.
    pub closed spec fn view(self) -> Map<usize, u64> {
        self.pending@
    }

    /// Nothing pending.
    pub fn new() -> (d: Debouncer)
        ensures
            d.view() == Map::<usize, u64>::empty(),
    {
        Debouncer { pending: HashMap::new() }
    }

    /// Records a change of pane `pane`'s files at `now`.
    pub fn note(&mut self, pane: usize, now: u64)
        ensures
            final(self).view() == old(self).view().insert(pane, now),
    {
        self.pending.insert(pane, now);
    }

    /// Takes the panes whose changes have settled at `now` (`settle[p]` is
    /// the settle time of pane `p`); they are no longer pending.
    pub fn take_due(&mut self, now: u64, settle: &Vec<u64>) -> (due: Vec<usize>)
        ensures
            forall|p: usize| #[trigger] due@.contains(p) <==> is_due(old(self).view(), now, settle@, p),
            due@.no_duplicates(),
            final(self).view() == left_pending(old(self).view(), now, settle@),
    {
        let ghost m = self.pending@;
        let ghost mut visited: Set<usize> = Set::empty();
        let mut due: Vec<usize> = Vec::new();
        for k in it: self.pending.keys()
            invariant
                m == self.pending@,
                it.seq().unref().to_set() == m.dom(),
                it.seq().no_duplicates(),
                it.seq().len() == m.dom().len(),
                visited.finite(),
                visited.len() == it.index(),
                visited.subset_of(m.dom()),
                forall|x: usize| #[trigger] visited.contains(x) ==> exists|q: int| 0 <= q < it.index() && *it.seq()[q] == x,
                forall|p: usize| #[trigger] due@.contains(p) <==> visited.contains(p) && is_due(m, now, settle@, p),
                due@.no_duplicates(),
        {
            let p = *k;
            let ghost i = it.index();
            assert(it.seq().unref()[i] == p);
            assert(it.seq().unref().to_set().contains(p));
            assert(!visited.contains(p)) by {
                if visited.contains(p) {
                    let q = choose|q: int| 0 <= q < i && *it.seq()[q] == p;
                    assert(it.seq()[q] == it.seq()[i]);
                }
            }
            let last = *self.pending.get(&p).unwrap();
            let need: u64 = if p < settle.len() {
                settle[p]
            } else {
                800
            };
            let elapsed: u64 = if now >= last {
                now - last
            } else {
                0
            };
            let ghost before = due@;
            if elapsed >= need {
                due.push(p);
                assert(due@.no_duplicates()) by {
                    assert forall|a: int, b: int| 0 <= a < b < due@.len() implies due@[a] != due@[b] by {
                        if b == before.len() {
                            assert(before.contains(before[a]));
                        } else {
                            assert(before[a] == due@[a] && before[b] == due@[b]);
                        }
                    }
                }
            }
            proof {
                let v2 = visited.insert(p);
                assert forall|x: usize| #[trigger] v2.contains(x) implies exists|q: int| 0 <= q < i + 1 && *it.seq()[q] == x by {
                    if x != p {
                        let q = choose|q: int| 0 <= q < i && *it.seq()[q] == x;
                    } else {
                        assert(*it.seq()[i] == x);
                    }
                }
                assert forall|x: usize| #[trigger] due@.contains(x) <==> v2.contains(x) && is_due(m, now, settle@, x) by {
                    if x != p {
                        assert(due@.contains(x) <==> before.contains(x)) by {
                            if due@.contains(x) {
                                let a = choose|a: int| 0 <= a < due@.len() && due@[a] == x;
                                if a < before.len() {
                                    assert(before[a] == x);
                                }
                            }
                            if before.contains(x) {
                                let a = choose|a: int| 0 <= a < before.len() && before[a] == x;
                                assert(due@[a] == x);
                            }
                        }
                    } else {
                        if elapsed >= need {
                            assert(due@[before.len() as int] == x);
                        } else {
                            assert(!before.contains(x));
                        }
                    }
                }
                visited = v2;
            }
        }
        proof {
            vstd::set_lib::lemma_subset_equality(visited, m.dom());
        }
        let mut j: usize = 0;
        while j < due.len()
            invariant
                j <= due@.len(),
                self.pending@ == m.remove_keys(due@.take(j as int).to_set()),
            decreases due@.len() - j,
        {
            let p = due[j];
            self.pending.remove(&p);
            proof {
                let t0 = due@.take(j as int);
                let t1 = due@.take(j + 1);
                assert(t1 =~= t0.push(p));
                assert forall|x: usize| #[trigger] t1.to_set().contains(x) <==> t0.to_set().contains(x) || x == p by {
                    if t1.to_set().contains(x) {
                        let a = choose|a: int| 0 <= a < t1.len() && #[trigger] t1[a] == x;
                        if a < j {
                            assert(t0[a] == x);
                        }
                    }
                    if t0.to_set().contains(x) {
                        let a = choose|a: int| 0 <= a < t0.len() && #[trigger] t0[a] == x;
                        assert(t1[a] == x);
                    }
                    if x == p {
                        assert(t1[j as int] == x);
                    }
                }
                assert(m.remove_keys(t1.to_set()) =~= m.remove_keys(t0.to_set()).remove(p));
            }
            j = j + 1;
        }
        proof {
            assert(due@.take(due@.len() as int) =~= due@);
            let left = left_pending(m, now, settle@);
            let got = m.remove_keys(due@.to_set());
            assert forall|x: usize| #[trigger] got.contains_key(x) <==> left.contains_key(x) by {
                assert(due@.to_set().contains(x) <==> due@.contains(x));
            }
            assert(got =~= left);
        }
        due
    }
}

/// The pending changes left once the settled ones at `now` are taken.
pub open spec fn left_pending(pending: Map<usize, u64>, now: u64, settle: Seq<u64>) -> Map<usize, u64> {
    pending.restrict(pending.dom().filter(|p: usize| !settled(now, pending[p], settle_of(settle, p))))
}

/// A burst of changes is reported once: the take that reports a pane
/// forgets its changes, so a later take reports it again only after a new
/// change is noted; changes that have not settled stay pending unchanged.
pub proof fn law_settled_change_reported_once(pending: Map<usize, u64>, now: u64, settle: Seq<u64>, p: usize)
    ensures
        pending.contains_key(p) && settled(now, pending[p], settle_of(settle, p)) ==> !left_pending(
            pending,
            now,
            settle,
        ).contains_key(p),
        pending.contains_key(p) && !settled(now, pending[p], settle_of(settle, p)) ==> left_pending(
            pending,
            now,
            settle,
        ).contains_key(p) && left_pending(pending, now, settle)[p] == pending[p],
{
}

/// The settle time of every process, by pane identifier.
pub fn settle_times(processes: &Vec<ProcessConfig>) -> (r: Vec<u64>)
    ensures
        r@.len() == processes@.len(),
        forall|i: int| 0 <= i < r@.len() ==> r@[i] == #[trigger] processes@[i].watch_settle_time_ms,
{
    let mut r: Vec<u64> = Vec::new();
    let mut i: usize = 0;
    while i < processes.len()
        invariant
            i <= processes@.len(),
            r@.len() == i,
            forall|j: int| 0 <= j < i ==> r@[j] == #[trigger] processes@[j].watch_settle_time_ms,
        decreases processes@.len() - i,
    {
        r.push(processes[i].watch_settle_time_ms);
        i = i + 1;
    }
    r
}

/// The message for a process without a command.
pub open spec fn missing_command(who: Seq<char>) -> Seq<char> {
    "Process command missing for: "@ + who
}

/// The program and arguments of a prepared process, named `who` in the
/// error when it has no command.
pub fn command_parts(cfg: &ProcessConfig, who: &str) -> (r: Result<(String, Vec<String>), String>)
    ensures
        match r {
            Ok((program, args)) => cfg.cmd@.len() > 0 && program@ == cfg.cmd@[0]@ && views(args@) == views(
                cfg.cmd@,
            ).skip(1),
            Err(e) => cfg.cmd@.len() == 0 && e@ == missing_command(who@),
        },
{
    if cfg.cmd.len() == 0 {
        let mut e = owned("Process command missing for: ");
        append_str(&mut e, who);
        return Err(e);
    }
    let program = cfg.cmd[0].clone();
    let mut args: Vec<String> = Vec::new();
    let mut i: usize = 1;
    while i < cfg.cmd.len()
        invariant
            1 <= i <= cfg.cmd@.len(),
            views(args@) == views(cfg.cmd@).subrange(1, i as int),
        decreases cfg.cmd@.len() - i,
    {
        let a = cfg.cmd[i].clone();
        let ghost before = args@;
        args.push(a);
        assert(views(args@) =~= views(before).push(a@));
        assert(views(cfg.cmd@).subrange(1, i + 1) =~= views(cfg.cmd@).subrange(1, i as int).push(cfg.cmd@[i as int]@));
        assert(views(args@) =~= views(cfg.cmd@).subrange(1, i + 1));
        i = i + 1;
    }
    assert(views(cfg.cmd@).subrange(1, cfg.cmd@.len() as int) =~= views(cfg.cmd@).skip(1));
    Ok((program, args))
}

} // verus!
