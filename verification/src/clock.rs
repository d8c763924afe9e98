//! Monotonic clock source.
//!
//! A free-running hardware counter is too narrow to serve as a timestamp: it
//! wraps. [`MonotonicClock`] folds successive raw counter reads into a wide
//! monotonically non-decreasing tick count by keeping an epoch counter that
//! advances whenever the raw value is seen to step backwards. [`WakeSet`]
//! keeps the pending one-shot wake requests ("wake me at tick T") and hands
//! the due ones back in registration order, which is what re-queues suspended
//! tasks.

use vstd::prelude::*;

verus! {

/// Number of distinct raw counter values: the raw counter wraps modulo this.
pub const RAW_SPAN: u64 = 0x1_0000_0000;

/// Monotonic time source built over a wrapping 32-bit hardware counter.
pub struct MonotonicClock {
    epoch: u64,
    last_raw: u32,
}

impl MonotonicClock {
    /// How many times the raw counter has been seen to wrap.
    pub closed spec fn epoch_spec(self) -> u64 {
        self.epoch
    }

    /// The raw counter value seen at the most recent read.
    pub closed spec fn last_raw_spec(self) -> u32 {
        self.last_raw
    }

    /// Current tick count: full wraps plus the latest raw value.
    pub open spec fn time_spec(self) -> int {
        self.epoch_spec() * RAW_SPAN + self.last_raw_spec()
    }

    /// The clock can absorb at least one more wrap without exhausting `u64`.
    pub open spec fn wf(self) -> bool {
        self.epoch_spec() < 0xFFFF_FFFFu64
    }

    /// The tick count that a read of `raw` will produce.
    pub open spec fn time_after(self, raw: u32) -> int {
        if raw < self.last_raw_spec() {
            (self.epoch_spec() + 1) * RAW_SPAN + raw
        } else {
            self.epoch_spec() * RAW_SPAN + raw
        }
    }

    /// A fresh clock starts at tick 0, before the first raw read.
    pub fn new() -> (c: Self)
        ensures
            c.wf(),
            c.time_spec() == 0,
            c.epoch_spec() == 0,
    {
        MonotonicClock { epoch: 0, last_raw: 0 }
    }

    /// How many raw-counter wraps have been absorbed so far.
    pub fn wrap_count(&self) -> (n: u64)
        ensures
            n == self.epoch_spec(),
    {
        self.epoch
    }

    /// Fold the next raw counter read into the monotonic tick count.
    ///
    /// The result never decreases from one call to the next, whatever raw
    /// values the hardware hands back: a backwards step in the raw value is
    /// read as one full wrap of the counter.
    pub fn now(&mut self, raw: u32) -> (t: u64)
        requires
            old(self).wf(),
        ensures
            final(self).last_raw_spec() == raw,
            final(self).epoch_spec() == if raw < old(self).last_raw_spec() {
                old(self).epoch_spec() + 1
            } else {
                old(self).epoch_spec() as int
            },
            t == final(self).time_spec(),
            final(self).time_spec() == old(self).time_after(raw),
            final(self).time_spec() >= old(self).time_spec(),
            final(self).epoch_spec() <= old(self).epoch_spec() + 1,
    {
        if raw < self.last_raw {
            self.epoch = self.epoch + 1;
        }
        self.last_raw = raw;
        self.epoch * RAW_SPAN + (raw as u64)
    }
}

/// Monotonicity: whatever raw value the next read hands back, the tick count
/// a clock produces never decreases — so any sequence of reads yields
/// non-decreasing results, wrap or no wrap.
pub proof fn lemma_now_monotonic(c: MonotonicClock, raw: u32)
    ensures
        c.time_after(raw) >= c.time_spec(),
{
}

/// One pending one-shot wake request: re-queue `task` once tick `at` is reached.
#[derive(Clone, Copy)]
pub struct Wake {
    pub task: usize,
    pub at: u64,
}

/// No task has two pending wakes: at most one continuation is live per task.
pub open spec fn unique_tasks(s: Seq<Wake>) -> bool {
    forall|i: int, j: int| 0 <= i < j < s.len() ==> s[i].task != s[j].task
}

/// Whether some pending wake belongs to `t`.
pub open spec fn has_task(s: Seq<Wake>, t: usize) -> bool {
    exists|i: int| 0 <= i < s.len() && s[i].task == t
}

/// The tasks whose wakes are due at `now`, in registration order.
pub open spec fn due_ids(s: Seq<Wake>, now: u64) -> Seq<usize>
    decreases s.len(),
{
    if s.len() == 0 {
        Seq::empty()
    } else {
        let rest = due_ids(s.drop_last(), now);
        if s.last().at <= now {
            rest.push(s.last().task)
        } else {
            rest
        }
    }
}

/// The wakes not yet due at `now`, in registration order.
pub open spec fn kept_wakes(s: Seq<Wake>, now: u64) -> Seq<Wake>
    decreases s.len(),
{
    if s.len() == 0 {
        Seq::empty()
    } else {
        let rest = kept_wakes(s.drop_last(), now);
        if s.last().at <= now {
            rest
        } else {
            rest.push(s.last())
        }
    }
}

/// No task id occurs twice in a fired list.
pub open spec fn unique_ids(s: Seq<usize>) -> bool {
    forall|i: int, j: int| 0 <= i < j < s.len() ==> s[i] != s[j]
}

/// The set of pending one-shot wake requests.
pub struct WakeSet {
    entries: Vec<Wake>,
}

impl WakeSet {
    /// The pending wakes in registration order.
    pub closed spec fn pending(self) -> Seq<Wake> {
        self.entries@
    }

    pub open spec fn wf(self) -> bool {
        unique_tasks(self.pending())
    }

    /// An empty wake set: nothing is pending.
    pub fn new() -> (w: Self)
        ensures
            w.wf(),
            w.pending() == Seq::<Wake>::empty(),
    {
        WakeSet { entries: Vec::new() }
    }

    pub fn pending_count(&self) -> (n: usize)
        ensures
            n == self.pending().len(),
    {
        self.entries.len()
    }

    /// Register a one-shot wake for `task` at tick `at`.
    ///
    /// A task has at most one live continuation, so it may not already have a
    /// pending wake.
    pub fn register(&mut self, task: usize, at: u64)
        requires
            old(self).wf(),
            !has_task(old(self).pending(), task),
        ensures
            final(self).pending() == old(self).pending().push(Wake { task, at }),
            final(self).wf(),
    {
        self.entries.push(Wake { task, at });
        proof {
            let s = old(self).pending();
            let s2 = self.pending();
            assert forall|i: int, j: int| 0 <= i < j < s2.len() implies s2[i].task != s2[j].task by {
                if j < s.len() {
                } else {
                    assert(s2[j].task == task);
                    assert(s2[i] == s[i]);
                }
            }
        }
    }

    /// The nearest pending deadline, used to re-arm the single hardware alarm.
    pub fn nearest(&self) -> (r: Option<u64>)
        ensures
            match r {
                Option::None => self.pending().len() == 0,
                Option::Some(m) => {
                    &&& exists|i: int| 0 <= i < self.pending().len() && self.pending()[i].at == m
                    &&& forall|i: int|
                        0 <= i < self.pending().len() ==> self.pending()[i].at >= m
                },
            },
    {
        if self.entries.len() == 0 {
            return Option::None;
        }
        let mut best: u64 = self.entries[0].at;
        let mut i: usize = 1;
        while i < self.entries.len()
            invariant
                1 <= i <= self.pending().len(),
                exists|k: int| 0 <= k < i && self.pending()[k].at == best,
                forall|k: int| 0 <= k < i ==> self.pending()[k].at >= best,
            decreases self.pending().len() - i,
        {
            if self.entries[i].at < best {
                best = self.entries[i].at;
            }
            i = i + 1;
        }
        Option::Some(best)
    }

    /// Remove every wake due at `now` and return their tasks in registration
    /// order; wakes registered with a tick already in the past are due at once.
    pub fn service(&mut self, now: u64) -> (fired: Vec<usize>)
        requires
            old(self).wf(),
        ensures
            fired@ == due_ids(old(self).pending(), now),
            final(self).pending() == kept_wakes(old(self).pending(), now),
            final(self).wf(),
    {
        let ghost s = self.entries@;
        let mut fired: Vec<usize> = Vec::new();
        let mut kept: Vec<Wake> = Vec::new();
        let mut i: usize = 0;
        while i < self.entries.len()
            invariant
                0 <= i <= s.len(),
                self.entries@ == s,
                fired@ == due_ids(s.take(i as int), now),
                kept@ == kept_wakes(s.take(i as int), now),
            decreases s.len() - i,
        {
            let w = self.entries[i];
            proof {
                assert(s.take(i + 1).drop_last() =~= s.take(i as int));
                assert(s.take(i + 1).last() == s[i as int]);
            }
            if w.at <= now {
                fired.push(w.task);
            } else {
                kept.push(w);
            }
            i = i + 1;
        }
        proof {
            assert(s.take(s.len() as int) =~= s);
        }
        self.entries = kept;
        proof {
            lemma_service_parts(s, now);
        }
        fired
    }
}

/// Servicing splits the pending wakes cleanly: duplicates cannot appear among
/// the fired tasks, and a fired task no longer has a pending wake.
pub proof fn lemma_service_parts(s: Seq<Wake>, now: u64)
    requires
        unique_tasks(s),
    ensures
        unique_ids(due_ids(s, now)),
        unique_tasks(kept_wakes(s, now)),
        forall|t: usize| due_ids(s, now).contains(t) ==> !has_task(kept_wakes(s, now), t),
        forall|t: usize| due_ids(s, now).contains(t) ==> has_task(s, t),
        forall|i: int|
            0 <= i < kept_wakes(s, now).len() ==> s.contains(kept_wakes(s, now)[i]),
    decreases s.len(),
{
    if s.len() > 0 {
        let rest = s.drop_last();
        assert(unique_tasks(rest)) by {
            assert forall|i: int, j: int| 0 <= i < j < rest.len() implies rest[i].task
                != rest[j].task by {
                assert(rest[i] == s[i]);
                assert(rest[j] == s[j]);
            }
        }
        lemma_service_parts(rest, now);
        lemma_due_ids_from(rest, now);
        lemma_kept_from(rest, now);
        let last = s.last();
        assert(forall|i: int| 0 <= i < rest.len() ==> rest[i] == s[i]);
        // the last wake's task occurs nowhere earlier in s
        assert forall|t: usize| #[trigger] due_ids(s, now).contains(t) implies has_task(s, t)
            && !has_task(kept_wakes(s, now), t) by {
            if due_ids(rest, now).contains(t) {
                assert(has_task(rest, t));
                let k = choose|k: int| 0 <= k < rest.len() && rest[k].task == t;
                assert(s[k].task == t);
                if last.at <= now {
                    assert(!has_task(kept_wakes(rest, now), t));
                    assert(kept_wakes(s, now) == kept_wakes(rest, now));
                } else {
                    assert(!has_task(kept_wakes(rest, now), t));
                    assert(last.task != t);
                    let kw = kept_wakes(s, now);
                    assert forall|i: int| 0 <= i < kw.len() implies kw[i].task != t by {
                        if i < kw.len() - 1 {
                            assert(kw[i] == kept_wakes(rest, now)[i]);
                        } else {
                            assert(kw[i] == last);
                        }
                    }
                }
            } else {
                // t must be the last wake's task, fired just now
                assert(last.at <= now && t == last.task);
                assert(s[s.len() - 1].task == t);
                assert(kept_wakes(s, now) == kept_wakes(rest, now));
                assert(!has_task(rest, t));
                assert forall|i: int| 0 <= i < kept_wakes(rest, now).len() implies kept_wakes(
                    rest,
                    now,
                )[i].task != t by {
                    assert(rest.contains(kept_wakes(rest, now)[i]));
                }
            }
        }
        assert(unique_ids(due_ids(s, now))) by {
            if last.at <= now {
                let d = due_ids(s, now);
                let dr = due_ids(rest, now);
                assert(d == dr.push(last.task));
                assert forall|i: int, j: int| 0 <= i < j < d.len() implies d[i] != d[j] by {
                    if j < dr.len() {
                        assert(d[i] == dr[i] && d[j] == dr[j]);
                    } else {
                        assert(d[j] == last.task);
                        assert(d[i] == dr[i]);
                        assert(dr.contains(dr[i]));
                        assert(has_task(rest, dr[i]));
                        let k = choose|k: int| 0 <= k < rest.len() && rest[k].task == dr[i];
                        assert(s[k].task == dr[i]);
                        assert(s[s.len() - 1].task == last.task);
                    }
                }
            }
        }
        assert(unique_tasks(kept_wakes(s, now))) by {
            if last.at > now {
                let kw = kept_wakes(s, now);
                let kr = kept_wakes(rest, now);
                assert(kw == kr.push(last));
                assert forall|i: int, j: int| 0 <= i < j < kw.len() implies kw[i].task
                    != kw[j].task by {
                    if j < kr.len() {
                        assert(kw[i] == kr[i] && kw[j] == kr[j]);
                    } else {
                        assert(kw[j] == last);
                        assert(kw[i] == kr[i]);
                        assert(rest.contains(kr[i]));
                        let k = choose|k: int| 0 <= k < rest.len() && rest[k] == kr[i];
                        assert(s[k] == kr[i]);
                        assert(s[s.len() - 1] == last);
                    }
                }
            }
        }
    }
}

/// A task fired from a prefix is pending in that prefix.
proof fn lemma_due_ids_from(s: Seq<Wake>, now: u64)
    ensures
        forall|t: usize| #[trigger] due_ids(s, now).contains(t) ==> has_task(s, t),
    decreases s.len(),
{
    if s.len() > 0 {
        let rest = s.drop_last();
        lemma_due_ids_from(rest, now);
        assert forall|t: usize| #[trigger] due_ids(s, now).contains(t) implies has_task(s, t) by {
            if due_ids(rest, now).contains(t) {
                let k = choose|k: int| 0 <= k < rest.len() && rest[k].task == t;
                assert(s[k].task == t);
            } else {
                assert(s[s.len() - 1].task == t);
            }
        }
    }
}

/// Every kept wake was among the pending ones.
proof fn lemma_kept_from(s: Seq<Wake>, now: u64)
    ensures
        forall|i: int|
            0 <= i < kept_wakes(s, now).len() ==> s.contains(#[trigger] kept_wakes(s, now)[i]),
    decreases s.len(),
{
    if s.len() > 0 {
        let rest = s.drop_last();
        lemma_kept_from(rest, now);
        let kw = kept_wakes(s, now);
        assert forall|i: int| 0 <= i < kw.len() implies s.contains(kw[i]) by {
            if s.last().at <= now || i < kept_wakes(rest, now).len() {
                assert(kw[i] == kept_wakes(rest, now)[i]);
                assert(rest.contains(kw[i]));
                let k = choose|k: int| 0 <= k < rest.len() && rest[k] == kw[i];
                assert(s[k] == kw[i]);
            } else {
                assert(kw[i] == s.last());
                assert(s[s.len() - 1] == kw[i]);
            }
        }
    }
}

/// Wake correctness: a wake registered for tick `at` fires exactly once at
/// any service tick `now >= at` — the task appears once in the fired list and
/// its wake is gone afterwards — and a wake not yet due is never fired early.
pub proof fn lemma_wake_fires_exactly_once(s: Seq<Wake>, now: u64, k: int)
    requires
        unique_tasks(s),
        0 <= k < s.len(),
    ensures
        s[k].at <= now ==> due_ids(s, now).contains(s[k].task),
        s[k].at <= now ==> !has_task(kept_wakes(s, now), s[k].task),
        s[k].at <= now ==> unique_ids(due_ids(s, now)),
        s[k].at > now ==> !due_ids(s, now).contains(s[k].task),
        s[k].at > now ==> has_task(kept_wakes(s, now), s[k].task),
    decreases s.len(),
{
    lemma_service_parts(s, now);
    if s.len() > 0 {
        let rest = s.drop_last();
        assert(unique_tasks(rest)) by {
            assert forall|i: int, j: int| 0 <= i < j < rest.len() implies rest[i].task
                != rest[j].task by {
                assert(rest[i] == s[i]);
                assert(rest[j] == s[j]);
            }
        }
        if k < s.len() - 1 {
            lemma_wake_fires_exactly_once(rest, now, k);
            assert(rest[k] == s[k]);
            if s[k].at <= now {
                let d = due_ids(rest, now);
                assert(d.contains(s[k].task));
                let i = choose|i: int| 0 <= i < d.len() && d[i] == s[k].task;
                if s.last().at <= now {
                    assert(due_ids(s, now)[i] == s[k].task);
                }
            } else {
                assert(has_task(kept_wakes(rest, now), s[k].task));
                let i = choose|i: int|
                    0 <= i < kept_wakes(rest, now).len() && kept_wakes(rest, now)[i].task
                        == s[k].task;
                if s.last().at <= now {
                    assert(kept_wakes(s, now)[i].task == s[k].task);
                } else {
                    assert(kept_wakes(s, now)[i].task == s[k].task);
                }
                // not fired: the last wake is a different task or also kept
                if due_ids(s, now).contains(s[k].task) {
                    if s.last().at <= now {
                        let d = due_ids(s, now);
                        let j = choose|j: int| 0 <= j < d.len() && d[j] == s[k].task;
                        if j < due_ids(rest, now).len() {
                            assert(due_ids(rest, now).contains(s[k].task));
                            assert(false);
                        } else {
                            assert(s[k].task == s.last().task);
                            assert(s[s.len() - 1].task == s[k].task);
                            assert(false);
                        }
                    } else {
                        assert(due_ids(s, now) == due_ids(rest, now));
                        assert(false);
                    }
                }
            }
        } else {
            // k is the last wake
            assert(s[k] == s.last());
            if s.last().at <= now {
                let d = due_ids(s, now);
                assert(d == due_ids(rest, now).push(s.last().task));
                assert(d[d.len() - 1] == s[k].task);
            } else {
                let kw = kept_wakes(s, now);
                assert(kw == kept_wakes(rest, now).push(s.last()));
                assert(kw[kw.len() - 1].task == s[k].task);
                if due_ids(s, now).contains(s[k].task) {
                    assert(due_ids(s, now) == due_ids(rest, now));
                    lemma_due_ids_from(rest, now);
                    let j = choose|j: int| 0 <= j < rest.len() && rest[j].task == s[k].task;
                    assert(s[j].task == s[k].task);
                    assert(false);
                }
            }
        }
    }
}

} // verus!
