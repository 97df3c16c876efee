//! The fetch engine's scheduler: which task to start next, how many are in
//! flight, and when a completion is reported. The caller performs the
//! transfers and hands back each outcome.

use vstd::prelude::*;

verus! {

/// How a task ended. A failed transfer is counted like any other and
/// never stops the batch.
#[derive(Clone, Copy, PartialEq, Eq, Structural)]
pub enum TaskOutcome {
    Fetched,
    Skipped,
    Failed,
}

/// What the scheduler tells the caller after a task has ended.
#[derive(Clone, Copy, PartialEq, Eq, Structural)]
pub struct Tick {
    /// Tasks ended so far, this one included.
    pub completed: u64,
    /// Tasks in the batch.
    pub total: u64,
    /// Whether this completion is to be reported to the observer.
    pub report: bool,
}

/// The state of a batch, abstractly.
pub struct BatchView {
    pub total: nat,
    pub limit: nat,
    pub every: nat,
    pub next: nat,
    pub in_flight: nat,
    pub fetched: nat,
    pub skipped: nat,
    pub failed: nat,
}

impl BatchView {
    /// Tasks that have ended, whatever their outcome.
    pub open spec fn completed(self) -> nat {
        self.fetched + self.skipped + self.failed
    }

    /// The scheduler's invariant: never more than `limit` transfers in
    /// flight, every started task either in flight or ended.
    pub open spec fn wf(self) -> bool {
        &&& self.limit >= 1
        &&& self.every >= 1
        &&& self.in_flight <= self.limit
        &&& self.next <= self.total
        &&& self.completed() + self.in_flight == self.next
        &&& self.total <= u64::MAX
    }

    /// Whether another task may start now.
    pub open spec fn can_start(self) -> bool {
        self.in_flight < self.limit && self.next < self.total
    }

    /// The state after a start request.
    pub open spec fn started(self) -> BatchView {
        if self.can_start() {
            BatchView { next: self.next + 1, in_flight: self.in_flight + 1, ..self }
        } else {
            self
        }
    }

    /// The state after a task in flight has ended with `o`.
    pub open spec fn ended(self, o: TaskOutcome) -> BatchView {
        let s = BatchView { in_flight: (self.in_flight - 1) as nat, ..self };
        match o {
            TaskOutcome::Fetched => BatchView { fetched: self.fetched + 1, ..s },
            TaskOutcome::Skipped => BatchView { skipped: self.skipped + 1, ..s },
            TaskOutcome::Failed => BatchView { failed: self.failed + 1, ..s },
        }
    }

    /// Every task has ended.
    pub open spec fn drained(self) -> bool {
        self.completed() == self.total
    }
}

/// Whether the `c`-th completion of `total` is reported: every `every`-th
/// one, and the last.
pub open spec fn reported(c: nat, total: nat, every: nat) -> bool {
    c % every == 0 || c == total
}

/// A fresh batch of `total` tasks.
pub open spec fn fresh(total: nat, limit: nat, every: nat) -> BatchView {
    BatchView { total, limit, every, next: 0, in_flight: 0, fetched: 0, skipped: 0, failed: 0 }
}

/// One step of a caller: ask for a task to start, or report one ended.
pub enum BatchStep {
    Start,
    End(TaskOutcome),
}

/// The state after a sequence of steps.
pub open spec fn run(v: BatchView, steps: Seq<BatchStep>) -> BatchView
    decreases steps.len(),
{
    if steps.len() == 0 {
        v
    } else {
        let p = run(v, steps.drop_last());
        match steps.last() {
            BatchStep::Start => p.started(),
            BatchStep::End(o) => p.ended(o),
        }
    }
}

/// Every `End` step ends a task that is in flight.
pub open spec fn run_valid(v: BatchView, steps: Seq<BatchStep>) -> bool
    decreases steps.len(),
{
    if steps.len() == 0 {
        true
    } else {
        run_valid(v, steps.drop_last()) && match steps.last() {
            BatchStep::Start => true,
            BatchStep::End(_) => run(v, steps.drop_last()).in_flight > 0,
        }
    }
}

/// How many steps of a run end a task with outcome `o`.
pub open spec fn count_ended(steps: Seq<BatchStep>, o: TaskOutcome) -> nat
    decreases steps.len(),
{
    if steps.len() == 0 {
        0
    } else {
        count_ended(steps.drop_last(), o) + if steps.last() == BatchStep::End(o) {
            1nat
        } else {
            0nat
        }
    }
}

/// Schedules a batch of tasks numbered `0 .. total`.
pub struct BatchScheduler {
    total: u64,
    limit: u64,
    every: u64,
    next: u64,
    in_flight: u64,
    fetched: u64,
    skipped: u64,
    failed: u64,
}

impl View for BatchScheduler {
    type V = BatchView;

    closed spec fn view(&self) -> BatchView {
        BatchView {
            total: self.total as nat,
            limit: self.limit as nat,
            every: self.every as nat,
            next: self.next as nat,
            in_flight: self.in_flight as nat,
            fetched: self.fetched as nat,
            skipped: self.skipped as nat,
            failed: self.failed as nat,
        }
    }
}

impl BatchScheduler {
    /// A batch of `total` tasks with at most `limit` in flight, reporting
    /// every `every`-th completion and the last.
    pub fn new(total: u64, limit: u64, every: u64) -> (r: BatchScheduler)
        requires
            limit >= 1,
            every >= 1,
        ensures
            r@ == fresh(total as nat, limit as nat, every as nat),
            r@.wf(),
    {
        BatchScheduler { total, limit, every, next: 0, in_flight: 0, fetched: 0, skipped: 0, failed: 0 }
    }

    /// Starts the next task if a slot is free and one is left; returns its
    /// number.
    pub fn start_next(&mut self) -> (r: Option<u64>)
        requires
            old(self)@.wf(),
        ensures
            final(self)@ == old(self)@.started(),
            final(self)@.wf(),
            r == (if old(self)@.can_start() {
                Some(old(self)@.next as u64)
            } else {
                None::<u64>
            }),
    {
        if self.in_flight < self.limit && self.next < self.total {
            let i = self.next;
            self.next = self.next + 1;
            self.in_flight = self.in_flight + 1;
            Some(i)
        } else {
            None
        }
    }

    /// Records that a task in flight has ended, whatever the outcome.
    pub fn end_task(&mut self, outcome: TaskOutcome) -> (r: Tick)
        requires
            old(self)@.wf(),
            old(self)@.in_flight > 0,
        ensures
            final(self)@ == old(self)@.ended(outcome),
            final(self)@.wf(),
            r.completed as nat == final(self)@.completed(),
            r.total as nat == final(self)@.total,
            r.report == reported(final(self)@.completed(), final(self)@.total, final(self)@.every),
    {
        self.in_flight = self.in_flight - 1;
        match outcome {
            TaskOutcome::Fetched => self.fetched = self.fetched + 1,
            TaskOutcome::Skipped => self.skipped = self.skipped + 1,
            TaskOutcome::Failed => self.failed = self.failed + 1,
        }
        let c = self.fetched + self.skipped + self.failed;
        Tick { completed: c, total: self.total, report: c % self.every == 0 || c == self.total }
    }

    /// Whether every task has ended.
    pub fn is_drained(&self) -> (r: bool)
        requires
            self@.wf(),
        ensures
            r == self@.drained(),
    {
        self.fetched + self.skipped + self.failed == self.total
    }

    /// Transfers in flight.
    pub fn in_flight(&self) -> (r: u64)
        ensures
            r as nat == self@.in_flight,
    {
        self.in_flight
    }

    /// Tasks that have ended.
    pub fn completed(&self) -> (r: u64)
        requires
            self@.wf(),
        ensures
            r as nat == self@.completed(),
    {
        self.fetched + self.skipped + self.failed
    }

    /// Tasks whose transfer failed.
    pub fn failed(&self) -> (r: u64)
        ensures
            r as nat == self@.failed,
    {
        self.failed
    }
}

/// Whatever the caller does, the scheduler never has more transfers in
/// flight than its limit.
pub proof fn lemma_in_flight_never_exceeds_limit(v: BatchView, steps: Seq<BatchStep>)
    requires
        v.wf(),
        run_valid(v, steps),
    ensures
        run(v, steps).wf(),
        run(v, steps).in_flight <= v.limit,
        run(v, steps).limit == v.limit,
        run(v, steps).total == v.total,
        run(v, steps).every == v.every,
    decreases steps.len(),
{
    if steps.len() > 0 {
        lemma_in_flight_never_exceeds_limit(v, steps.drop_last());
    }
}

/// Failures are absorbed: once a batch of `total` tasks has started all of
/// them and none is in flight, every task counts as completed, and the
/// failures are exactly the failed outcomes handed in.
pub proof fn lemma_failures_count_as_completed(total: nat, limit: nat, every: nat, steps: Seq<BatchStep>)
    requires
        limit >= 1,
        every >= 1,
        total <= u64::MAX,
        run_valid(fresh(total, limit, every), steps),
        run(fresh(total, limit, every), steps).next == total,
        run(fresh(total, limit, every), steps).in_flight == 0,
    ensures
        run(fresh(total, limit, every), steps).completed() == total,
        run(fresh(total, limit, every), steps).drained(),
        run(fresh(total, limit, every), steps).failed == count_ended(steps, TaskOutcome::Failed),
        reported(total, total, every),
{
    lemma_in_flight_never_exceeds_limit(fresh(total, limit, every), steps);
    lemma_run_counts(fresh(total, limit, every), steps);
}

proof fn lemma_run_counts(v: BatchView, steps: Seq<BatchStep>)
    requires
        v.wf(),
        run_valid(v, steps),
    ensures
        run(v, steps).failed == v.failed + count_ended(steps, TaskOutcome::Failed),
    decreases steps.len(),
{
    if steps.len() > 0 {
        lemma_run_counts(v, steps.drop_last());
        lemma_in_flight_never_exceeds_limit(v, steps.drop_last());
    }
}

} // verus!
