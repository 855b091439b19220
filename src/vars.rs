//! The state shared by the supervisor and the workers: the pool counters
//! and the table of worker slots. Every change to it is one of the
//! transitions below, each taken while the caller holds the state's lock.
//!
//! A slot is claimed before its worker is spawned; `pending` counts the
//! claims whose worker has not started yet, so that `active_threads` is at
//! all times the number of occupied slots plus the pending claims.
use vstd::prelude::*;
use crate::configuration::ControllerConfig;

verus! {

/// Scheduling priority of a worker between events.
pub const WORKER_BASE_PRIORITY: i64 = 94;

/// Scheduling priority of the supervisor.
pub const SUPERVISOR_PRIORITY: i64 = 95;

/// Scheduling priority of the watchers and the status reconciler.
pub const WATCHER_PRIORITY: i64 = 96;

/// Consecutive spawn failures the supervisor tolerates.
pub const MAX_SPAWN_FAILURES: usize = 5;

/// One entry of the worker table.
#[derive(Clone, Copy, Debug, PartialEq, Eq, Structural)]
pub struct Worker {
    /// Identifier of the worker's thread, as its spawner recorded it; 0 for
    /// an empty slot.
    pub id: u64,
    /// The slot is held by a live worker (or one about to be spawned).
    pub active: bool,
    /// The worker is handling an event.
    pub busy: bool,
}

pub open spec fn count_active(s: Seq<Worker>) -> nat
    decreases s.len(),
{
    if s.len() == 0 {
        0
    } else {
        count_active(s.drop_last()) + if s.last().active {
            1nat
        } else {
            0nat
        }
    }
}

pub open spec fn count_busy(s: Seq<Worker>) -> nat
    decreases s.len(),
{
    if s.len() == 0 {
        0
    } else {
        count_busy(s.drop_last()) + if s.last().busy {
            1nat
        } else {
            0nat
        }
    }
}

pub open spec fn flag(b: bool) -> int {
    if b {
        1
    } else {
        0
    }
}

proof fn lemma_counts_update(s: Seq<Worker>, i: int, w: Worker)
    requires
        0 <= i < s.len(),
    ensures
        count_active(s.update(i, w)) == count_active(s) - flag(s[i].active) + flag(w.active),
        count_busy(s.update(i, w)) == count_busy(s) - flag(s[i].busy) + flag(w.busy),
    decreases s.len(),
{
    let t = s.update(i, w);
    if i == s.len() - 1 {
        assert(t.drop_last() =~= s.drop_last());
    } else {
        lemma_counts_update(s.drop_last(), i, w);
        assert(t.drop_last() =~= s.drop_last().update(i, w));
    }
}

proof fn lemma_busy_within_active(s: Seq<Worker>)
    requires
        forall|i: int| 0 <= i < s.len() && (#[trigger] s[i]).busy ==> s[i].active,
    ensures
        count_busy(s) <= count_active(s),
        count_active(s) <= s.len(),
    decreases s.len(),
{
    if s.len() > 0 {
        let p = s.drop_last();
        assert forall|i: int| 0 <= i < p.len() && (#[trigger] p[i]).busy implies p[i].active by {
            assert(p[i] == s[i]);
        }
        lemma_busy_within_active(p);
        assert(s.last() == s[s.len() - 1]);
    }
}

proof fn lemma_all_active(s: Seq<Worker>)
    requires
        forall|i: int| 0 <= i < s.len() ==> (#[trigger] s[i]).active,
    ensures
        count_active(s) == s.len(),
    decreases s.len(),
{
    if s.len() > 0 {
        let p = s.drop_last();
        assert forall|i: int| 0 <= i < p.len() implies (#[trigger] p[i]).active by {
            assert(p[i] == s[i]);
        }
        lemma_all_active(p);
        assert(s.last() == s[s.len() - 1]);
    }
}

/// Number of active workers that the supervisor aims at after seeing
/// `working` of `active` workers busy: enough to leave `threshold` idle,
/// capped at `max`.
pub open spec fn growth_target(active: nat, working: nat, threshold: nat, max: nat) -> nat {
    let idle = active - working;
    if idle < threshold {
        let wanted = active + (threshold - idle);
        if wanted > max {
            max
        } else {
            wanted as nat
        }
    } else {
        active
    }
}

/// A worker that has just finished an event leaves the pool when more than
/// `threshold` workers are idle and the pool is above its minimum.
pub open spec fn over_provisioned(active: nat, working: nat, threshold: nat, min: nat) -> bool {
    active - working > threshold && active > min
}

/// The state the supervisor and the workers share.
pub struct SharedState {
    /// The configuration; no transition changes it.
    pub config: ControllerConfig,
    /// Workers alive or about to be spawned.
    pub active_threads: usize,
    /// Workers handling an event.
    pub working_threads: usize,
    /// Claimed slots whose worker has not been spawned yet.
    pub pending: usize,
    /// The supervisor has set the pool up.
    pub bootstrapped: bool,
    /// The slot table, one entry per possible worker.
    pub workers: Vec<Worker>,
}

/// Creates the shared state for `config`: no worker, every slot empty.
/// `None` when the configuration's minimum exceeds its maximum.
pub fn new_shared_state(config: ControllerConfig) -> (r: Option<SharedState>)
    ensures
        r is Some <==> config.min_watchdogs <= config.max_watchdogs,
        r matches Some(s) ==> {
            &&& s.wf()
            &&& s.config == config
            &&& s.active_threads == 0
            &&& s.working_threads == 0
            &&& s.pending == 0
            &&& !s.bootstrapped
            &&& s.workers@.len() == config.max_watchdogs
            &&& forall|i: int|
                0 <= i < s.workers@.len() ==> #[trigger] s.workers@[i] == (Worker {
                    id: 0,
                    active: false,
                    busy: false,
                })
        },
{
    if config.min_watchdogs > config.max_watchdogs {
        return None;
    }
    let empty = Worker { id: 0, active: false, busy: false };
    let mut workers: Vec<Worker> = Vec::new();
    let mut i: usize = 0;
    while i < config.max_watchdogs
        invariant
            empty == (Worker { id: 0, active: false, busy: false }),
            i <= config.max_watchdogs,
            workers@.len() == i,
            forall|k: int| 0 <= k < i ==> #[trigger] workers@[k] == empty,
            count_active(workers@) == 0,
            count_busy(workers@) == 0,
        decreases config.max_watchdogs - i,
    {
        let ghost before = workers@;
        workers.push(empty);
        assert(workers@.drop_last() =~= before);
        i = i + 1;
    }
    let s = SharedState {
        config,
        active_threads: 0,
        working_threads: 0,
        pending: 0,
        bootstrapped: false,
        workers,
    };
    proof {
        lemma_busy_within_active(s.workers@);
    }
    Some(s)
}

impl SharedState {
    pub open spec fn wf(&self) -> bool {
        &&& self.config.min_watchdogs <= self.config.max_watchdogs
        &&& self.workers@.len() == self.config.max_watchdogs
        &&& self.active_threads == count_active(self.workers@) + self.pending
        &&& self.working_threads == count_busy(self.workers@)
        &&& forall|i: int|
            0 <= i < self.workers@.len() && (#[trigger] self.workers@[i]).busy
                ==> self.workers@[i].active
        &&& self.active_threads <= self.config.max_watchdogs
        &&& self.bootstrapped ==> self.active_threads >= self.config.min_watchdogs
    }

    /// Sets the pool up: the minimum number of workers is counted active,
    /// each as a claim still to be spawned. Returns how many to spawn.
    pub fn bootstrap(&mut self) -> (r: usize)
        requires
            old(self).wf(),
            !old(self).bootstrapped,
            old(self).active_threads == 0,
        ensures
            final(self).wf(),
            final(self).bootstrapped,
            final(self).config == old(self).config,
            final(self).workers@ == old(self).workers@,
            final(self).working_threads == old(self).working_threads,
            final(self).active_threads == old(self).config.min_watchdogs,
            final(self).pending == old(self).config.min_watchdogs,
            r == old(self).config.min_watchdogs,
    {
        self.active_threads = self.config.min_watchdogs;
        self.pending = self.config.min_watchdogs;
        self.bootstrapped = true;
        self.pending
    }

    /// Claims the first empty slot for a worker about to be spawned, using
    /// up one pending claim. `None` when no claim is pending.
    pub fn claim_slot(&mut self) -> (r: Option<usize>)
        requires
            old(self).wf(),
        ensures
            final(self).wf(),
            final(self).config == old(self).config,
            final(self).bootstrapped == old(self).bootstrapped,
            final(self).active_threads == old(self).active_threads,
            final(self).working_threads == old(self).working_threads,
            r is None <==> old(self).pending == 0,
            r is None ==> final(self).workers@ == old(self).workers@ && final(self).pending
                == old(self).pending,
            r matches Some(i) ==> {
                &&& i < old(self).workers@.len()
                &&& !old(self).workers@[i as int].active
                &&& forall|j: int| 0 <= j < i ==> (#[trigger] old(self).workers@[j]).active
                &&& final(self).workers@ == old(self).workers@.update(
                    i as int,
                    Worker { id: 0, active: true, busy: false },
                )
                &&& final(self).pending == old(self).pending - 1
            },
    {
        if self.pending == 0 {
            return None;
        }
        let n = self.workers.len();
        let mut i: usize = 0;
        while i < n
            invariant
                *self == *old(self),
                self.wf(),
                self.pending > 0,
                n == self.workers@.len(),
                i <= n,
                forall|j: int| 0 <= j < i ==> (#[trigger] self.workers@[j]).active,
            decreases n - i,
        {
            if !self.workers[i].active {
                let ghost before = self.workers@;
                let w = Worker { id: 0, active: true, busy: false };
                proof {
                    lemma_counts_update(before, i as int, w);
                }
                self.workers.set(i, w);
                self.pending = self.pending - 1;
                return Some(i);
            }
            i = i + 1;
        }
        proof {
            lemma_all_active(self.workers@);
        }
        None
    }

    /// Gives back a claimed slot whose worker could not be spawned; the
    /// claim becomes pending again, to be retried.
    pub fn release_claim(&mut self, slot: usize)
        requires
            old(self).wf(),
            slot < old(self).workers@.len(),
            old(self).workers@[slot as int].active,
            !old(self).workers@[slot as int].busy,
        ensures
            final(self).wf(),
            final(self).config == old(self).config,
            final(self).bootstrapped == old(self).bootstrapped,
            final(self).active_threads == old(self).active_threads,
            final(self).working_threads == old(self).working_threads,
            final(self).pending == old(self).pending + 1,
            final(self).workers@ == old(self).workers@.update(
                slot as int,
                Worker { id: 0, active: false, busy: false },
            ),
    {
        let w = Worker { id: 0, active: false, busy: false };
        proof {
            lemma_counts_update(self.workers@, slot as int, w);
        }
        self.workers.set(slot, w);
        self.pending = self.pending + 1;
    }

    /// Records the thread identifier of the worker spawned into `slot`.
    pub fn record_thread(&mut self, slot: usize, id: u64)
        requires
            old(self).wf(),
            slot < old(self).workers@.len(),
        ensures
            final(self).wf(),
            final(self).config == old(self).config,
            final(self).bootstrapped == old(self).bootstrapped,
            final(self).active_threads == old(self).active_threads,
            final(self).working_threads == old(self).working_threads,
            final(self).pending == old(self).pending,
            final(self).workers@ == old(self).workers@.update(
                slot as int,
                Worker { id, ..old(self).workers@[slot as int] },
            ),
    {
        let old_w = self.workers[slot];
        let w = Worker { id, active: old_w.active, busy: old_w.busy };
        proof {
            lemma_counts_update(self.workers@, slot as int, w);
        }
        self.workers.set(slot, w);
    }

    /// The worker in `slot` starts handling an event. Returns false, and
    /// changes nothing, unless the slot is active and its worker idle.
    pub fn begin_work(&mut self, slot: usize) -> (r: bool)
        requires
            old(self).wf(),
            slot < old(self).workers@.len(),
        ensures
            final(self).wf(),
            final(self).config == old(self).config,
            final(self).bootstrapped == old(self).bootstrapped,
            final(self).active_threads == old(self).active_threads,
            final(self).pending == old(self).pending,
            r == (old(self).workers@[slot as int].active && !old(self).workers@[
                slot as int
            ].busy),
            r ==> final(self).working_threads == old(self).working_threads + 1
                && final(self).workers@ == old(self).workers@.update(
                slot as int,
                Worker { busy: true, ..old(self).workers@[slot as int] },
            ),
            !r ==> final(self).working_threads == old(self).working_threads
                && final(self).workers@ == old(self).workers@,
    {
        let w = self.workers[slot];
        if !w.active || w.busy {
            return false;
        }
        let nw = Worker { id: w.id, active: true, busy: true };
        proof {
            lemma_counts_update(self.workers@, slot as int, nw);
            lemma_busy_within_active(self.workers@);
            lemma_busy_within_active(self.workers@.update(slot as int, nw));
        }
        self.workers.set(slot, nw);
        self.working_threads = self.working_threads + 1;
        true
    }

    /// The worker in `slot` has finished an event. It stops being busy;
    /// then, if the pool is over-provisioned, it leaves: its slot is freed
    /// and the pool shrinks by one. Returns whether it leaves.
    pub fn finish_work(&mut self, slot: usize) -> (leave: bool)
        requires
            old(self).wf(),
            slot < old(self).workers@.len(),
        ensures
            final(self).wf(),
            final(self).config == old(self).config,
            final(self).bootstrapped == old(self).bootstrapped,
            final(self).pending == old(self).pending,
            ({
                let w = old(self).workers@[slot as int];
                let working = old(self).working_threads - flag(w.busy);
                &&& final(self).working_threads == working
                &&& leave == (w.active && over_provisioned(
                    old(self).active_threads as nat,
                    working as nat,
                    old(self).config.threshold as nat,
                    old(self).config.min_watchdogs as nat,
                ))
                &&& leave ==> final(self).active_threads == old(self).active_threads - 1
                    && final(self).workers@ == old(self).workers@.update(
                    slot as int,
                    Worker { id: 0, active: false, busy: false },
                )
                &&& !leave ==> final(self).active_threads == old(self).active_threads
                    && final(self).workers@ == old(self).workers@.update(
                    slot as int,
                    Worker { busy: false, ..w },
                )
            }),
    {
        let w = self.workers[slot];
        proof {
            lemma_busy_within_active(self.workers@);
        }
        let idle_worker = Worker { id: w.id, active: w.active, busy: false };
        proof {
            lemma_counts_update(self.workers@, slot as int, idle_worker);
        }
        self.workers.set(slot, idle_worker);
        if w.busy {
            self.working_threads = self.working_threads - 1;
        }
        proof {
            lemma_busy_within_active(self.workers@);
        }
        let idle = self.active_threads - self.working_threads;
        if w.active && idle > self.config.threshold && self.active_threads
            > self.config.min_watchdogs {
            let gone = Worker { id: 0, active: false, busy: false };
            proof {
                lemma_counts_update(self.workers@, slot as int, gone);
            }
            self.workers.set(slot, gone);
            self.active_threads = self.active_threads - 1;
            proof {
                assert(self.workers@ =~= old(self).workers@.update(slot as int, gone));
            }
            true
        } else {
            false
        }
    }

    /// The supervisor's reaction to a change in the number of busy workers:
    /// when fewer than `threshold` workers are idle, the pool grows towards
    /// `threshold` idle ones, up to the maximum. The new workers are added
    /// as pending claims; returns how many.
    pub fn grow(&mut self) -> (r: usize)
        requires
            old(self).wf(),
        ensures
            final(self).wf(),
            final(self).config == old(self).config,
            final(self).bootstrapped == old(self).bootstrapped,
            final(self).workers@ == old(self).workers@,
            final(self).working_threads == old(self).working_threads,
            final(self).active_threads == growth_target(
                old(self).active_threads as nat,
                old(self).working_threads as nat,
                old(self).config.threshold as nat,
                old(self).config.max_watchdogs as nat,
            ),
            r == final(self).active_threads - old(self).active_threads,
            final(self).pending == old(self).pending + r,
    {
        proof {
            lemma_busy_within_active(self.workers@);
        }
        let idle = self.active_threads - self.working_threads;
        if idle >= self.config.threshold {
            return 0;
        }
        let needed = self.config.threshold - idle;
        let target = if needed > self.config.max_watchdogs - self.active_threads {
            self.config.max_watchdogs
        } else {
            self.active_threads + needed
        };
        let added = target - self.active_threads;
        self.active_threads = target;
        self.pending = self.pending + added;
        added
    }

    /// Identifiers of the workers that hold a slot, for a final join.
    pub fn active_worker_ids(&self) -> (r: Vec<u64>)
        ensures
            r@ == self.workers@.filter(|w: Worker| w.active).map_values(|w: Worker| w.id),
    {
        let mut r: Vec<u64> = Vec::new();
        let mut i: usize = 0;
        while i < self.workers.len()
            invariant
                i <= self.workers@.len(),
                r@ == self.workers@.subrange(0, i as int).filter(|w: Worker| w.active).map_values(
                    |w: Worker| w.id,
                ),
            decreases self.workers@.len() - i,
        {
            let ghost before = self.workers@.subrange(0, i as int);
            assert(self.workers@.subrange(0, i + 1).drop_last() =~= before);
            let w = self.workers[i];
            if w.active {
                r.push(w.id);
            }
            i = i + 1;
            proof {
                let cur = self.workers@.subrange(0, i as int);
                assert(cur.filter(|w: Worker| w.active) == if w.active {
                    before.filter(|w: Worker| w.active).push(w)
                } else {
                    before.filter(|w: Worker| w.active)
                }) by {
                    reveal(Seq::filter);
                    assert(cur.last() == w);
                }
                assert(r@ =~= cur.filter(|w: Worker| w.active).map_values(|w: Worker| w.id));
            }
        }
        assert(self.workers@.subrange(0, self.workers@.len() as int) =~= self.workers@);
        r
    }
}

/// Under the state's invariant, no more workers are busy than active, and
/// no more are active than the maximum.
pub proof fn lemma_pool_bounds(s: SharedState)
    requires
        s.wf(),
    ensures
        s.working_threads <= s.active_threads <= s.config.max_watchdogs,
{
    lemma_busy_within_active(s.workers@);
}

/// Once the pool is set up, it never holds fewer workers than the minimum.
pub proof fn lemma_pool_keeps_minimum(s: SharedState)
    requires
        s.wf(),
        s.bootstrapped,
    ensures
        s.active_threads >= s.config.min_watchdogs,
{
}

/// The scheduling priority of a worker while it handles an event of band
/// `band`: the base priority less the band.
pub open spec fn event_priority_spec(band: u32) -> int {
    WORKER_BASE_PRIORITY - band
}

pub fn event_priority(band: u32) -> (r: i64)
    ensures
        r == event_priority_spec(band),
{
    WORKER_BASE_PRIORITY - band as i64
}

/// The supervisor's count of consecutive spawn failures after one more
/// attempt, and whether it gives up.
pub fn after_spawn_attempt(failures: usize, spawned: bool) -> (r: (usize, bool))
    ensures
        spawned ==> r == (0usize, false),
        !spawned ==> r.0 == if failures == usize::MAX {
            failures as int
        } else {
            failures + 1
        } && r.1 == (r.0 > MAX_SPAWN_FAILURES),
{
    if spawned {
        (0, false)
    } else {
        let f = if failures == usize::MAX {
            failures
        } else {
            failures + 1
        };
        (f, f > MAX_SPAWN_FAILURES)
    }
}

} // verus!
