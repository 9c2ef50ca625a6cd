//! The wave scheduler: which batch to start next, and when to wait.
//!
//! Batches are started one by one, in order, without waiting for them. Once
//! as many are in flight as the concurrency allows, the scheduler asks for a
//! barrier: every batch in flight is waited for before the next one starts.
//! The scheduler itself neither starts nor waits. It says what to do next;
//! the caller does it and asks again.

use crate::partition::{
    batch, batch_count, batches, count_batches, lemma_batch_count_bounds,
    lemma_batch_count_le_total, lemma_batches_cover_range, unit_range,
};
use vstd::prelude::*;

verus! {

/// The progress counter is reported whenever it is a multiple of this.
pub const PROGRESS_INTERVAL: u64 = 10_000;

/// What the caller is asked to do next.
#[derive(Clone, Copy, Debug, PartialEq, Eq)]
pub enum Action {
    /// Start the batch with this index, without waiting for it.
    Spawn { batch: usize },
    /// Wait until every batch in flight has completed. If `progress` holds a
    /// count, report it once they have.
    Barrier { progress: Option<u64> },
    /// Every batch has been started and waited for.
    Finish,
}

/// The scheduler as the contracts see it.
pub struct SchedulerState {
    /// The number of units to process.
    pub total_count: nat,
    /// The number of units in a full batch.
    pub batch_size: nat,
    /// The number of batches that may be in flight at once.
    pub concurrency: nat,
    /// The number of batches started so far: batch `dispatched` is next.
    pub dispatched: nat,
    /// The number of batches that have been waited for.
    pub completed: nat,
    /// The progress counter: `batch_size * concurrency` for each full wave
    /// that has passed its barrier.
    pub processed: nat,
}

impl SchedulerState {
    /// The state before anything has been started.
    pub open spec fn initial(total_count: nat, batch_size: nat, concurrency: nat) -> Self {
        SchedulerState {
            total_count,
            batch_size,
            concurrency,
            dispatched: 0,
            completed: 0,
            processed: 0,
        }
    }

    /// The number of batches to run.
    pub open spec fn batch_count(self) -> nat {
        batch_count(self.total_count, self.batch_size)
    }

    /// The number of batches started and not yet waited for.
    pub open spec fn in_flight(self) -> nat {
        (self.dispatched - self.completed) as nat
    }

    /// The number of batches in a full wave. With a concurrency of zero a
    /// batch still has to start before it can be waited for, so each wave
    /// holds one batch.
    pub open spec fn wave_width(self) -> nat {
        if self.concurrency == 0 {
            1
        } else {
            self.concurrency
        }
    }

    /// The wave that a batch belongs to.
    pub open spec fn wave_of(self, batch: nat) -> nat {
        batch / self.wave_width()
    }

    /// Whether as many batches are in flight as a wave can hold.
    pub open spec fn wave_is_full(self) -> bool {
        self.in_flight() > 0 && self.in_flight() >= self.concurrency
    }

    /// What holds of every state that the scheduler reaches.
    pub open spec fn wf(self) -> bool {
        &&& self.total_count <= u32::MAX
        &&& 0 < self.batch_size <= usize::MAX
        &&& self.concurrency <= usize::MAX
        &&& self.completed <= self.dispatched <= self.batch_count()
        &&& self.in_flight() <= self.wave_width()
        &&& (self.completed % self.wave_width() == 0 || self.completed == self.batch_count())
        &&& self.processed == (self.completed / self.wave_width()) * (self.batch_size
            * self.concurrency)
    }

    /// The progress counter once the wave in flight has passed its barrier.
    pub open spec fn processed_after_wave(self) -> nat {
        self.processed + self.batch_size * self.concurrency
    }

    /// The action that the scheduler asks for in this state.
    pub open spec fn action(self) -> Action {
        if self.wave_is_full() {
            Action::Barrier {
                progress: if self.processed_after_wave() % (PROGRESS_INTERVAL as nat) == 0 {
                    Some(self.processed_after_wave() as u64)
                } else {
                    None
                },
            }
        } else if self.dispatched < self.batch_count() {
            Action::Spawn { batch: self.dispatched as usize }
        } else if self.in_flight() > 0 {
            Action::Barrier { progress: None }
        } else {
            Action::Finish
        }
    }

    /// The state once the caller has carried out `self.action()`.
    pub open spec fn next(self) -> Self {
        if self.wave_is_full() {
            SchedulerState {
                completed: self.dispatched,
                processed: self.processed_after_wave(),
                ..self
            }
        } else if self.dispatched < self.batch_count() {
            SchedulerState { dispatched: self.dispatched + 1, ..self }
        } else if self.in_flight() > 0 {
            SchedulerState { completed: self.dispatched, ..self }
        } else {
            self
        }
    }

    /// The state after `n` actions have been carried out.
    pub open spec fn after(self, n: nat) -> Self
        decreases n,
    {
        if n == 0 {
            self
        } else {
            self.after((n - 1) as nat).next()
        }
    }

    /// The batches that the first `n` actions start, in the order in which
    /// they are started.
    pub open spec fn started(self, n: nat) -> Seq<nat>
        decreases n,
    {
        if n == 0 {
            Seq::empty()
        } else {
            let before = self.after((n - 1) as nat);
            match before.action() {
                Action::Spawn { batch } => self.started((n - 1) as nat).push(batch as nat),
                _ => self.started((n - 1) as nat),
            }
        }
    }

    /// A bound on the number of actions before `Finish`: it falls with each
    /// one, and is zero exactly where the scheduler is finished.
    pub open spec fn pending(self) -> nat {
        (2 * (self.batch_count() - self.dispatched) + self.in_flight()) as nat
    }
}

/// Adding `extra` to a multiple of `width` stays in the same block of
/// `width` while `extra < width`, and reaches the next multiple with
/// `extra == width`.
proof fn lemma_block_step(base: nat, width: nat, extra: nat)
    requires
        width > 0,
        base % width == 0,
        extra <= width,
    ensures
        extra < width ==> (base + extra) / width == base / width,
        extra == width ==> (base + extra) % width == 0 && (base + extra) / width == base / width
            + 1,
{
    let q = (base / width) as int;
    vstd::arithmetic::div_mod::lemma_fundamental_div_mod(base as int, width as int);
    assert(q >= 0) by (nonlinear_arith)
        requires
            base == width * q,
            width > 0,
            base >= 0,
    ;
    if extra < width {
        assert(base + extra == q * width + extra) by (nonlinear_arith)
            requires
                base == width * q,
        ;
        vstd::arithmetic::div_mod::lemma_fundamental_div_mod_converse(
            (base + extra) as int,
            width as int,
            q,
            extra as int,
        );
    } else {
        assert(base + extra == (q + 1) * width + 0) by (nonlinear_arith)
            requires
                base == width * q,
                extra == width,
        ;
        vstd::arithmetic::div_mod::lemma_fundamental_div_mod_converse(
            (base + extra) as int,
            width as int,
            q + 1,
            0,
        );
    }
}

/// Each action keeps the state well formed and brings the end nearer.
pub proof fn lemma_next_wf(s: SchedulerState)
    requires
        s.wf(),
    ensures
        s.next().wf(),
        s.action() is Finish <==> s.pending() == 0,
        s.action() is Finish ==> s.next() == s,
        !(s.action() is Finish) ==> s.next().pending() < s.pending(),
        s.next().total_count == s.total_count,
        s.next().batch_size == s.batch_size,
        s.next().concurrency == s.concurrency,
{
    let w = s.wave_width();
    let t = s.next();
    if s.wave_is_full() {
        assert(s.in_flight() == w);
        lemma_block_step(s.completed, w, w);
        let q = s.completed / w;
        let unit = s.batch_size * s.concurrency;
        assert(t.completed / w == q + 1);
        assert(q * unit + unit == (q + 1) * unit) by (nonlinear_arith);
    } else if s.dispatched < s.batch_count() {
    } else if s.in_flight() > 0 {
        lemma_block_step(s.completed, w, s.in_flight());
    } else {
    }
}

/// The progress counter never passes the number of units that the batches
/// could hold, which fits in 64 bits.
pub proof fn lemma_processed_bound(s: SchedulerState)
    requires
        s.wf(),
    ensures
        s.processed <= s.batch_count() * s.batch_size,
        s.batch_count() * s.batch_size <= u64::MAX,
{
    let n = s.batch_count();
    let b = s.batch_size;
    let c = s.concurrency;
    let w = s.wave_width();
    let q = s.completed / w;
    lemma_batch_count_bounds(s.total_count, b, n);
    assert(n * b <= u64::MAX) by (nonlinear_arith)
        requires
            n > 0 ==> (n - 1) * b < s.total_count,
            s.total_count <= u32::MAX,
            0 < b <= usize::MAX,
            usize::MAX <= u64::MAX,
            n >= 0,
    {
        if n >= 2 {
            assert((n - 1) * b >= b);
            assert(n * b == (n - 1) * b + b);
        } else if n == 1 {
            assert(n * b == b);
        } else {
            assert(n * b == 0);
        }
    }
    vstd::arithmetic::div_mod::lemma_fundamental_div_mod(s.completed as int, w as int);
    vstd::arithmetic::div_mod::lemma_mod_bound(s.completed as int, w as int);
    assert(s.processed <= n * b) by (nonlinear_arith)
        requires
            s.processed == q * (b * c),
            c == 0 || c == w,
            s.completed == w * q + s.completed % w,
            0 <= s.completed % w,
            s.completed <= n,
            b > 0,
            q >= 0,
            w > 0,
    {
        if c != 0 {
            assert(w * q <= n);
            assert(q * (b * c) == (w * q) * b);
            assert((w * q) * b <= n * b);
        } else {
            assert(q * (b * c) == 0);
            assert(n * b >= 0);
        }
    }
}

/// Every state that the scheduler reaches from the start is well formed.
pub proof fn lemma_run_wf(total_count: nat, batch_size: nat, concurrency: nat, n: nat)
    requires
        total_count <= u32::MAX,
        0 < batch_size <= usize::MAX,
        concurrency <= usize::MAX,
    ensures
        SchedulerState::initial(total_count, batch_size, concurrency).after(n).wf(),
        SchedulerState::initial(total_count, batch_size, concurrency).after(n).total_count
            == total_count,
        SchedulerState::initial(total_count, batch_size, concurrency).after(n).batch_size
            == batch_size,
        SchedulerState::initial(total_count, batch_size, concurrency).after(n).concurrency
            == concurrency,
    decreases n,
{
    let start = SchedulerState::initial(total_count, batch_size, concurrency);
    if n == 0 {
        assert(0nat % start.wave_width() == 0) by (nonlinear_arith)
            requires
                start.wave_width() > 0,
        ;
        assert(0nat / start.wave_width() == 0) by (nonlinear_arith)
            requires
                start.wave_width() > 0,
        ;
        assert(0 * (batch_size * concurrency) == 0) by (nonlinear_arith);
    } else {
        lemma_run_wf(total_count, batch_size, concurrency, (n - 1) as nat);
        lemma_next_wf(start.after((n - 1) as nat));
    }
}

/// With a concurrency of at least one, no more batches than that are in
/// flight, whatever number of actions has been carried out.
pub proof fn lemma_in_flight_bounded(
    total_count: nat,
    batch_size: nat,
    concurrency: nat,
    n: nat,
)
    requires
        total_count <= u32::MAX,
        0 < batch_size <= usize::MAX,
        1 <= concurrency <= usize::MAX,
    ensures
        SchedulerState::initial(total_count, batch_size, concurrency).after(n).in_flight()
            <= concurrency,
{
    lemma_run_wf(total_count, batch_size, concurrency, n);
}

/// The barrier between waves. Where a well-formed state asks for batch `i`
/// to be started, every batch of an earlier wave has been waited for, and
/// the batches in flight are of the wave of `i`.
pub proof fn lemma_barrier(s: SchedulerState, j: nat)
    requires
        s.wf(),
        s.action() is Spawn,
    ensures
        s.action() == (Action::Spawn { batch: s.dispatched as usize }),
        s.wave_of(j) < s.wave_of(s.dispatched) ==> j < s.completed,
        s.completed <= j < s.dispatched ==> s.wave_of(j) == s.wave_of(s.dispatched),
{
    let w = s.wave_width();
    assert(s.in_flight() < w);
    assert(s.completed % w == 0);
    lemma_block_step(s.completed, w, s.in_flight());
    if s.completed <= j < s.dispatched {
        lemma_block_step(s.completed, w, (j - s.completed) as nat);
    }
    if j >= s.completed {
        vstd::arithmetic::div_mod::lemma_div_is_ordered(s.completed as int, j as int, w as int);
    }
}

/// The barrier between waves, at any instant of a run: when the scheduler
/// asks for a batch to be started, every batch of an earlier wave has been
/// waited for.
pub proof fn lemma_wave_barrier(
    total_count: nat,
    batch_size: nat,
    concurrency: nat,
    n: nat,
    j: nat,
)
    requires
        total_count <= u32::MAX,
        0 < batch_size <= usize::MAX,
        concurrency <= usize::MAX,
        SchedulerState::initial(total_count, batch_size, concurrency).after(n).action() is Spawn,
    ensures
        ({
            let s = SchedulerState::initial(total_count, batch_size, concurrency).after(n);
            s.wave_of(j) < s.wave_of(s.dispatched) ==> j < s.completed
        }),
{
    lemma_run_wf(total_count, batch_size, concurrency, n);
    lemma_barrier(SchedulerState::initial(total_count, batch_size, concurrency).after(n), j);
}

/// Once `pending()` actions have been carried out, the run is over: every
/// batch has been started, every batch has been waited for, and `Finish` is
/// all that the scheduler asks from then on.
pub proof fn lemma_run_finishes(s: SchedulerState, n: nat)
    requires
        s.wf(),
        n >= s.pending(),
    ensures
        s.after(n).action() is Finish,
        s.after(n).dispatched == s.batch_count(),
        s.after(n).completed == s.batch_count(),
{
    lemma_run_pending(s, n);
    lemma_next_wf(s.after(n));
}

/// A run starts the batches in order, each one once: the batches that the
/// first `n` actions start are `0, 1, ..` up to the number started.
pub proof fn lemma_started_in_order(
    total_count: nat,
    batch_size: nat,
    concurrency: nat,
    n: nat,
)
    requires
        total_count <= u32::MAX,
        0 < batch_size <= usize::MAX,
        concurrency <= usize::MAX,
    ensures
        ({
            let start = SchedulerState::initial(total_count, batch_size, concurrency);
            start.started(n) == Seq::new(start.after(n).dispatched, |i: int| i as nat)
        }),
    decreases n,
{
    let start = SchedulerState::initial(total_count, batch_size, concurrency);
    if n == 0 {
        assert(start.started(0) =~= Seq::new(0, |i: int| i as nat));
    } else {
        let m = (n - 1) as nat;
        lemma_started_in_order(total_count, batch_size, concurrency, m);
        lemma_run_wf(total_count, batch_size, concurrency, m);
        lemma_batch_count_le_total(total_count, batch_size);
        assert(start.started(n) =~= Seq::new(start.after(n).dispatched, |i: int| i as nat));
    }
}

/// A whole run hands out every unit once, in order: the batches that it
/// starts, put end to end, are the units `0 .. total_count`.
pub proof fn lemma_run_covers_units(
    total_count: nat,
    batch_size: nat,
    concurrency: nat,
    n: nat,
)
    requires
        total_count <= u32::MAX,
        0 < batch_size <= usize::MAX,
        concurrency <= usize::MAX,
        n >= SchedulerState::initial(total_count, batch_size, concurrency).pending(),
    ensures
        SchedulerState::initial(total_count, batch_size, concurrency).started(n).map_values(
            |k: nat| batch(total_count, batch_size, k),
        ).flatten() == unit_range(total_count),
{
    let start = SchedulerState::initial(total_count, batch_size, concurrency);
    lemma_run_wf(total_count, batch_size, concurrency, 0);
    lemma_run_finishes(start, n);
    lemma_started_in_order(total_count, batch_size, concurrency, n);
    lemma_batches_cover_range(total_count, batch_size);
    assert(start.started(n).map_values(|k: nat| batch(total_count, batch_size, k)) =~= batches(
        total_count,
        batch_size,
    ));
}

/// After `n` actions the bound on what is left has fallen by `n`, or to
/// zero.
proof fn lemma_run_pending(s: SchedulerState, n: nat)
    requires
        s.wf(),
    ensures
        s.after(n).wf(),
        s.after(n).batch_count() == s.batch_count(),
        s.after(n).pending() + n <= s.pending() || s.after(n).pending() == 0,
    decreases n,
{
    if n > 0 {
        lemma_run_pending(s, (n - 1) as nat);
        lemma_next_wf(s.after((n - 1) as nat));
    }
}

/// The scheduler of one run.
pub struct Scheduler {
    total_count: u32,
    batch_size: usize,
    concurrency: usize,
    batch_count: usize,
    dispatched: usize,
    completed: usize,
    processed: u64,
}

impl View for Scheduler {
    type V = SchedulerState;

    closed spec fn view(&self) -> SchedulerState {
        SchedulerState {
            total_count: self.total_count as nat,
            batch_size: self.batch_size as nat,
            concurrency: self.concurrency as nat,
            dispatched: self.dispatched as nat,
            completed: self.completed as nat,
            processed: self.processed as nat,
        }
    }
}

impl Scheduler {
    /// Whether the scheduler is in a state that a run can reach.
    pub closed spec fn wf(&self) -> bool {
        &&& self@.wf()
        &&& self.batch_count == self@.batch_count()
    }

    /// What `wf` says of the view.
    pub proof fn lemma_wf(&self)
        requires
            self.wf(),
        ensures
            self@.wf(),
    {
    }

    /// The scheduler for `total_count` units in batches of `batch_size`, at
    /// most `concurrency` of them in flight: nothing started yet.
    pub fn new(total_count: u32, batch_size: usize, concurrency: usize) -> (s: Scheduler)
        requires
            batch_size > 0,
        ensures
            s.wf(),
            s@ == SchedulerState::initial(
                total_count as nat,
                batch_size as nat,
                concurrency as nat,
            ),
    {
        let batch_count: usize = count_batches(total_count, batch_size);
        proof {
            lemma_run_wf(total_count as nat, batch_size as nat, concurrency as nat, 0);
        }
        Scheduler {
            total_count,
            batch_size,
            concurrency,
            batch_count,
            dispatched: 0,
            completed: 0,
            processed: 0,
        }
    }

    /// The number of batches of the run.
    pub fn batch_count(&self) -> (n: usize)
        requires
            self.wf(),
        ensures
            n == self@.batch_count(),
    {
        self.batch_count
    }

    /// The number of batches that may be in flight at once.
    pub fn concurrency(&self) -> (n: usize)
        ensures
            n == self@.concurrency,
    {
        self.concurrency
    }

    /// The number of batches started so far.
    pub fn dispatched(&self) -> (n: usize)
        ensures
            n == self@.dispatched,
    {
        self.dispatched
    }

    /// The number of batches that have been waited for.
    pub fn completed(&self) -> (n: usize)
        ensures
            n == self@.completed,
    {
        self.completed
    }

    /// The number of batches started and not yet waited for.
    pub fn in_flight(&self) -> (n: usize)
        requires
            self.wf(),
        ensures
            n == self@.in_flight(),
    {
        self.dispatched - self.completed
    }

    /// The progress counter.
    pub fn processed(&self) -> (n: u64)
        ensures
            n == self@.processed,
    {
        self.processed
    }

    /// Says what to do next, and moves on to the state in which it has been
    /// done. The caller carries the action out before asking again.
    pub fn step(&mut self) -> (action: Action)
        requires
            old(self).wf(),
        ensures
            final(self).wf(),
            action == old(self)@.action(),
            final(self)@ == old(self)@.next(),
            !(action is Finish) ==> final(self)@.pending() < old(self)@.pending(),
    {
        proof {
            lemma_next_wf(self@);
            lemma_processed_bound(self@.next());
        }
        let in_flight: usize = self.dispatched - self.completed;
        if in_flight > 0 && in_flight >= self.concurrency {
            assert(self.batch_size * self.concurrency <= u64::MAX) by (nonlinear_arith)
                requires
                    self@.processed + self.batch_size * self.concurrency <= u64::MAX,
                    self@.processed >= 0,
            ;
            let wave_units: u64 = (self.batch_size as u64) * (self.concurrency as u64);
            let processed: u64 = self.processed + wave_units;
            self.completed = self.dispatched;
            self.processed = processed;
            Action::Barrier {
                progress: if processed % PROGRESS_INTERVAL == 0 {
                    Some(processed)
                } else {
                    None
                },
            }
        } else if self.dispatched < self.batch_count {
            let batch: usize = self.dispatched;
            self.dispatched = batch + 1;
            Action::Spawn { batch }
        } else if in_flight > 0 {
            self.completed = self.dispatched;
            Action::Barrier { progress: None }
        } else {
            Action::Finish
        }
    }
}

} // verus!
