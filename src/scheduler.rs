//! The fetch orchestrator's bookkeeping: a bounded worker pool over the
//! manifest's artifacts. Artifacts are admitted in manifest order while fewer
//! than `max_concurrency` are in flight; each completion, success or failure,
//! is recorded at the artifact's own index and counted once.
use vstd::prelude::*;

use crate::fetch::FetchError;

verus! {

/// The state of one artifact during a run.
pub enum Slot {
    /// Not admitted yet.
    Pending,
    /// Admitted; its fetch has not reported back.
    InFlight,
    /// Finished, with its outcome.
    Done(Result<(), FetchError>),
}

/// Number of slots of `s` that satisfy `f`.
pub open spec fn count_slots(s: Seq<Slot>, f: spec_fn(Slot) -> bool) -> nat
    decreases s.len(),
{
    if s.len() == 0 {
        0
    } else {
        count_slots(s.drop_last(), f) + if f(s.last()) {
            1nat
        } else {
            0nat
        }
    }
}

pub open spec fn is_in_flight_slot(s: Slot) -> bool {
    s is InFlight
}

pub open spec fn is_done_slot(s: Slot) -> bool {
    s is Done
}

/// The abstract state of a run.
pub struct SchedulerView {
    /// Number of artifacts in the manifest.
    pub total: nat,
    /// Largest number of fetches in flight at once.
    pub max_concurrency: nat,
    /// Index of the next artifact to launch.
    pub next: nat,
    /// One slot per artifact, in manifest order.
    pub slots: Seq<Slot>,
}

impl SchedulerView {
    pub open spec fn initial(total: nat, max_concurrency: nat) -> SchedulerView {
        SchedulerView {
            total,
            max_concurrency,
            next: 0,
            slots: Seq::new(total, |i: int| Slot::Pending),
        }
    }

    /// Fetches in flight.
    pub open spec fn in_flight(self) -> nat {
        count_slots(self.slots, |s: Slot| is_in_flight_slot(s))
    }

    /// The aggregate completed counter: artifacts finished, either way.
    pub open spec fn completed(self) -> nat {
        count_slots(self.slots, |s: Slot| is_done_slot(s))
    }

    /// Artifacts before `next` have been admitted, those from `next` on have
    /// not, and the concurrency cap holds.
    pub open spec fn wf(self) -> bool {
        &&& self.slots.len() == self.total
        &&& self.max_concurrency > 0
        &&& self.next <= self.total
        &&& forall|i: int| 0 <= i < self.next ==> !(#[trigger] self.slots[i] is Pending)
        &&& forall|i: int| self.next <= i < self.total ==> #[trigger] self.slots[i] is Pending
        &&& self.in_flight() <= self.max_concurrency
    }

    /// A slot is free and an artifact waits for it.
    pub open spec fn can_launch(self) -> bool {
        self.next < self.total && self.in_flight() < self.max_concurrency
    }

    /// Admission of the next artifact in manifest order, if it can be admitted.
    pub open spec fn launch(self) -> SchedulerView {
        if self.can_launch() {
            SchedulerView {
                next: self.next + 1,
                slots: self.slots.update(self.next as int, Slot::InFlight),
                ..self
            }
        } else {
            self
        }
    }

    /// Recording the outcome of an artifact in flight.
    pub open spec fn complete(self, index: int, result: Result<(), FetchError>) -> SchedulerView {
        SchedulerView { slots: self.slots.update(index, Slot::Done(result)), ..self }
    }

    /// Every artifact has finished.
    pub open spec fn is_finished(self) -> bool {
        forall|i: int| 0 <= i < self.total ==> #[trigger] self.slots[i] is Done
    }

    /// The run's outcome: each artifact's result at its manifest index.
    pub open spec fn outcome(self) -> Seq<Result<(), FetchError>> {
        Seq::new(self.total, |i: int| self.slots[i]->Done_0)
    }
}

proof fn lemma_count_update(s: Seq<Slot>, f: spec_fn(Slot) -> bool, i: int, v: Slot)
    requires
        0 <= i < s.len(),
    ensures
        count_slots(s.update(i, v), f) as int == count_slots(s, f) as int - (if f(s[i]) {
            1int
        } else {
            0int
        }) + (if f(v) {
            1int
        } else {
            0int
        }),
    decreases s.len(),
{
    let u = s.update(i, v);
    if i == s.len() - 1 {
        assert(u.drop_last() =~= s.drop_last());
    } else {
        assert(u.drop_last() =~= s.drop_last().update(i, v));
        lemma_count_update(s.drop_last(), f, i, v);
    }
}

proof fn lemma_count_all(s: Seq<Slot>, f: spec_fn(Slot) -> bool)
    ensures
        count_slots(s, f) <= s.len(),
        count_slots(s, f) == s.len() <==> forall|i: int| 0 <= i < s.len() ==> f(#[trigger] s[i]),
    decreases s.len(),
{
    if s.len() > 0 {
        lemma_count_all(s.drop_last(), f);
        if count_slots(s, f) == s.len() {
            assert forall|i: int| 0 <= i < s.len() implies f(#[trigger] s[i]) by {
                if i < s.len() - 1 {
                    assert(s[i] == s.drop_last()[i]);
                }
            }
        }
        if forall|i: int| 0 <= i < s.len() ==> f(#[trigger] s[i]) {
            assert forall|i: int| 0 <= i < s.drop_last().len() implies f(
                #[trigger] s.drop_last()[i],
            ) by {
                assert(s.drop_last()[i] == s[i]);
            }
            assert(f(s[s.len() - 1]));
        }
    }
}

proof fn lemma_count_none(s: Seq<Slot>, f: spec_fn(Slot) -> bool)
    requires
        forall|i: int| 0 <= i < s.len() ==> !f(#[trigger] s[i]),
    ensures
        count_slots(s, f) == 0,
    decreases s.len(),
{
    if s.len() > 0 {
        assert forall|i: int| 0 <= i < s.drop_last().len() implies !f(
            #[trigger] s.drop_last()[i],
        ) by {
            assert(s.drop_last()[i] == s[i]);
        }
        lemma_count_none(s.drop_last(), f);
    }
}

/// Admission keeps the state well formed, never exceeds the concurrency cap,
/// and changes the counters as it should.
pub proof fn lemma_launch_preserves(v: SchedulerView)
    requires
        v.wf(),
    ensures
        v.launch().wf(),
        v.launch().in_flight() <= v.max_concurrency,
        v.can_launch() ==> v.launch().in_flight() == v.in_flight() + 1,
        v.launch().completed() == v.completed(),
{
    if v.can_launch() {
        lemma_count_update(v.slots, |s: Slot| is_in_flight_slot(s), v.next as int, Slot::InFlight);
        lemma_count_update(v.slots, |s: Slot| is_done_slot(s), v.next as int, Slot::InFlight);
        let w = v.launch();
        assert forall|i: int| 0 <= i < w.next implies !(#[trigger] w.slots[i] is Pending) by {
            if i < v.next {
                assert(w.slots[i] == v.slots[i]);
            }
        }
        assert forall|i: int| w.next <= i < w.total implies #[trigger] w.slots[i] is Pending by {
            assert(w.slots[i] == v.slots[i]);
        }
    }
}

/// Recording the outcome of an artifact in flight keeps the state well
/// formed, frees its slot, and adds exactly one to the completed counter.
pub proof fn lemma_complete_preserves(v: SchedulerView, index: int, result: Result<(), FetchError>)
    requires
        v.wf(),
        0 <= index < v.total,
        v.slots[index] is InFlight,
    ensures
        v.complete(index, result).wf(),
        v.complete(index, result).in_flight() + 1 == v.in_flight(),
        v.complete(index, result).completed() == v.completed() + 1,
{
    lemma_count_update(v.slots, |s: Slot| is_in_flight_slot(s), index, Slot::Done(result));
    lemma_count_update(v.slots, |s: Slot| is_done_slot(s), index, Slot::Done(result));
    let w = v.complete(index, result);
    assert forall|i: int| 0 <= i < w.next implies !(#[trigger] w.slots[i] is Pending) by {
        if i != index {
            assert(w.slots[i] == v.slots[i]);
        }
    }
    assert forall|i: int| w.next <= i < w.total implies #[trigger] w.slots[i] is Pending by {
        assert(w.slots[i] == v.slots[i]);
    }
}

/// The initial state is well formed, with nothing in flight or completed.
pub proof fn lemma_initial(total: nat, max_concurrency: nat)
    requires
        max_concurrency > 0,
    ensures
        SchedulerView::initial(total, max_concurrency).wf(),
        SchedulerView::initial(total, max_concurrency).in_flight() == 0,
        SchedulerView::initial(total, max_concurrency).completed() == 0,
{
    let v = SchedulerView::initial(total, max_concurrency);
    lemma_count_none(v.slots, |s: Slot| is_in_flight_slot(s));
    lemma_count_none(v.slots, |s: Slot| is_done_slot(s));
}

/// In every well-formed state, at most `max_concurrency` fetches are in flight.
pub proof fn lemma_cap_respected(v: SchedulerView)
    requires
        v.wf(),
    ensures
        v.in_flight() <= v.max_concurrency,
{
}

/// The completed counter equals the number of artifacts exactly when the run
/// has finished, whatever the mix of successes and failures.
pub proof fn lemma_counter_reaches_total(v: SchedulerView)
    requires
        v.wf(),
    ensures
        v.completed() <= v.total,
        v.completed() == v.total <==> v.is_finished(),
{
    lemma_count_all(v.slots, |s: Slot| is_done_slot(s));
}

/// A failed artifact leaves every other artifact's state as it was, and frees
/// its slot, so that the next pending artifact can be admitted.
pub proof fn lemma_failure_isolated(v: SchedulerView, index: int, e: FetchError)
    requires
        v.wf(),
        0 <= index < v.total,
        v.slots[index] is InFlight,
    ensures
        v.complete(index, Err(e)).wf(),
        forall|j: int|
            0 <= j < v.total && j != index ==> #[trigger] v.complete(index, Err(e)).slots[j]
                == v.slots[j],
        v.next < v.total ==> v.complete(index, Err(e)).can_launch(),
        v.next < v.total ==> v.complete(index, Err(e)).launch().slots[v.next as int]
            is InFlight,
{
    lemma_complete_preserves(v, index, Err(e));
}

/// Once a run has finished, its outcome holds exactly one entry per artifact,
/// and entry `i` is the result recorded for artifact `i`.
pub proof fn lemma_outcome_aligned(v: SchedulerView)
    requires
        v.wf(),
        v.is_finished(),
    ensures
        v.outcome().len() == v.total,
        forall|i: int| 0 <= i < v.total ==> #[trigger] v.slots[i] == Slot::Done(v.outcome()[i]),
{
}

/// The run's bookkeeping: which artifacts wait, which are in flight, and the
/// outcome of each finished one.
pub struct Scheduler {
    total: usize,
    max_concurrency: usize,
    next: usize,
    in_flight: usize,
    completed: usize,
    slots: Vec<Slot>,
}

impl View for Scheduler {
    type V = SchedulerView;

    closed spec fn view(&self) -> SchedulerView {
        SchedulerView {
            total: self.total as nat,
            max_concurrency: self.max_concurrency as nat,
            next: self.next as nat,
            slots: self.slots@,
        }
    }
}

impl Scheduler {
    /// The scheduler's own bookkeeping agrees with its abstract state, and
    /// that state is well formed.
    pub closed spec fn inv(&self) -> bool {
        &&& self@.wf()
        &&& self.in_flight as nat == self@.in_flight()
        &&& self.completed as nat == self@.completed()
    }

    /// A scheduler for `total` artifacts with at most `max_concurrency`
    /// fetches in flight; `None` for a cap of zero, under which no artifact
    /// could ever start.
    pub fn new(total: usize, max_concurrency: usize) -> (r: Option<Scheduler>)
        ensures
            r is None <==> max_concurrency == 0,
            r matches Some(s) ==> s.inv() && s@ == SchedulerView::initial(
                total as nat,
                max_concurrency as nat,
            ) && s@.wf() && s@.in_flight() == 0 && s@.completed() == 0,
    {
        if max_concurrency == 0 {
            return None;
        }
        let mut slots: Vec<Slot> = Vec::new();
        let mut i: usize = 0;
        while i < total
            invariant
                i <= total,
                slots@.len() == i,
                forall|k: int| 0 <= k < i ==> #[trigger] slots@[k] is Pending,
            decreases total - i,
        {
            slots.push(Slot::Pending);
            i = i + 1;
        }
        let s = Scheduler { total, max_concurrency, next: 0, in_flight: 0, completed: 0, slots };
        proof {
            assert(s@.slots =~= SchedulerView::initial(total as nat, max_concurrency as nat).slots);
            lemma_initial(total as nat, max_concurrency as nat);
        }
        Some(s)
    }

    /// Number of artifacts of the run.
    pub fn total(&self) -> (r: usize)
        ensures
            r == self@.total,
    {
        self.total
    }

    /// The aggregate completed counter.
    pub fn completed(&self) -> (r: usize)
        requires
            self.inv(),
        ensures
            r == self@.completed(),
    {
        self.completed
    }

    /// Number of fetches in flight.
    pub fn in_flight(&self) -> (r: usize)
        requires
            self.inv(),
        ensures
            r == self@.in_flight(),
            r <= self@.max_concurrency,
    {
        self.in_flight
    }

    /// Whether the artifact at `index` has been started and has not reported.
    pub fn is_in_flight(&self, index: usize) -> (r: bool)
        requires
            self.inv(),
        ensures
            r == (index < self@.total && self@.slots[index as int] is InFlight),
    {
        if index < self.slots.len() {
            match &self.slots[index] {
                Slot::InFlight => true,
                _ => false,
            }
        } else {
            false
        }
    }

    /// Whether every artifact has finished.
    pub fn is_finished(&self) -> (r: bool)
        requires
            self.inv(),
        ensures
            r == self@.is_finished(),
    {
        proof {
            lemma_counter_reaches_total(self@);
        }
        self.completed == self.total
    }

    /// Starts the next artifact in manifest order if a slot is free, and
    /// returns its index; `None` when all slots are taken or none waits.
    pub fn launch(&mut self) -> (r: Option<usize>)
        requires
            old(self).inv(),
        ensures
            final(self).inv(),
            final(self)@ == old(self)@.launch(),
            final(self)@.wf(),
            old(self)@.can_launch() ==> final(self)@.in_flight() == old(self)@.in_flight() + 1,
            final(self)@.completed() == old(self)@.completed(),
            r == if old(self)@.can_launch() {
                Some(old(self)@.next as usize)
            } else {
                None::<usize>
            },
    {
        proof {
            lemma_launch_preserves(self@);
        }
        if self.next < self.total && self.in_flight < self.max_concurrency {
            let i = self.next;
            self.slots.set(i, Slot::InFlight);
            self.next = i + 1;
            self.in_flight = self.in_flight + 1;
            Some(i)
        } else {
            None
        }
    }

    /// Starts artifacts in manifest order until the cap is reached or none
    /// waits, and returns their indices in order.
    pub fn launch_all(&mut self) -> (r: Vec<usize>)
        requires
            old(self).inv(),
        ensures
            final(self).inv(),
            !final(self)@.can_launch(),
            final(self)@.total == old(self)@.total,
            final(self)@.completed() == old(self)@.completed(),
            r@.len() == final(self)@.next - old(self)@.next,
            forall|k: int| 0 <= k < r@.len() ==> #[trigger] r@[k] == old(self)@.next + k,
            forall|j: int|
                0 <= j < old(self)@.next ==> #[trigger] final(self)@.slots[j] == old(self)@.slots[j],
            forall|j: int|
                old(self)@.next <= j < final(self)@.next ==> #[trigger] final(self)@.slots[j]
                    is InFlight,
    {
        let ghost start = self@;
        let mut started: Vec<usize> = Vec::new();
        loop
            invariant
                self.inv(),
                self@.total == start.total,
                self@.completed() == start.completed(),
                start.next <= self@.next,
                started@.len() == self@.next - start.next,
                forall|k: int| 0 <= k < started@.len() ==> #[trigger] started@[k] == start.next + k,
                forall|j: int| 0 <= j < start.next ==> #[trigger] self@.slots[j] == start.slots[j],
                forall|j: int| start.next <= j < self@.next ==> #[trigger] self@.slots[j] is InFlight,
            ensures
                !self@.can_launch(),
            decreases self@.total - self@.next,
        {
            let ghost before = self@;
            match self.launch() {
                Some(i) => {
                    proof {
                        lemma_launch_preserves(before);
                    }
                    started.push(i);
                },
                None => {
                    break ;
                },
            }
        }
        started
    }

    /// Records the outcome of an artifact in flight at its own index; the
    /// completed counter goes up by one and its slot is freed.
    pub fn complete(&mut self, index: usize, result: Result<(), FetchError>)
        requires
            old(self).inv(),
            index < old(self)@.total,
            old(self)@.slots[index as int] is InFlight,
        ensures
            final(self).inv(),
            final(self)@ == old(self)@.complete(index as int, result),
            final(self)@.wf(),
            final(self)@.in_flight() + 1 == old(self)@.in_flight(),
            final(self)@.completed() == old(self)@.completed() + 1,
    {
        proof {
            lemma_complete_preserves(self@, index as int, result);
            lemma_counter_reaches_total(self@);
            lemma_count_all(self@.slots, |s: Slot| is_in_flight_slot(s));
        }
        self.slots.set(index, Slot::Done(result));
        self.in_flight = self.in_flight - 1;
        self.completed = self.completed + 1;
    }

    /// The run's outcome once every artifact has finished: one result per
    /// artifact, at its manifest index.
    pub fn into_outcome(self) -> (r: Vec<Result<(), FetchError>>)
        requires
            self.inv(),
            self@.is_finished(),
        ensures
            r@.len() == self@.total,
            r@ == self@.outcome(),
    {
        let ghost v = self@;
        let mut slots = self.slots;
        let mut out: Vec<Result<(), FetchError>> = Vec::new();
        let n = slots.len();
        let mut i: usize = 0;
        while i < n
            invariant
                n == v.total,
                i <= n,
                slots@.len() == n,
                v.is_finished(),
                v.slots.len() == n,
                forall|k: int| i <= k < n ==> #[trigger] slots@[k] == v.slots[k],
                out@.len() == i,
                forall|k: int| 0 <= k < i ==> #[trigger] out@[k] == v.slots[k]->Done_0,
            decreases n - i,
        {
            let mut taken = Slot::Pending;
            slots.set_and_swap(i, &mut taken);
            assert(taken == v.slots[i as int]);
            match taken {
                Slot::Done(r) => {
                    out.push(r);
                },
                _ => {
                    assert(false);
                },
            }
            i = i + 1;
        }
        assert(out@ =~= v.outcome());
        out
    }
}

} // verus!
