//! The handling of one unit: a random delay, and now and then a failure
//! that is noted and changes nothing else.
//!
//! What is random is drawn here; the waiting and the printing are the
//! caller's.

use crate::report::{failure_notice, failure_text};
use rand::rngs::ThreadRng;
use rand::Rng;
use vstd::prelude::*;

verus! {

/// The shortest delay of a unit, in microseconds.
pub const MIN_DELAY_MICROS: u64 = 30;

/// The longest delay of a unit, in microseconds.
pub const MAX_DELAY_MICROS: u64 = 120;

/// Of `FAILURE_ODDS_OUT_OF` units, this many fail on average.
pub const FAILURE_ODDS: u32 = 1;

/// See `FAILURE_ODDS`.
pub const FAILURE_ODDS_OUT_OF: u32 = 1_000;

/// rand's handle to the random number generator of the current thread.
/// Nothing is known of its state.
#[verifier::external_type_specification]
#[verifier::external_body]
pub struct ExThreadRng(rand::rngs::ThreadRng);

/// `rand::thread_rng`: the handle to the generator of the current thread.
/// Nothing is claimed of it. rand panics where the system cannot seed the
/// generator or refuses the handler that rand registers for a fork; no
/// argument decides either.
pub assume_specification[ rand::thread_rng ]() -> (rng: rand::rngs::ThreadRng);

/// `Rng::gen_range` of rand on an inclusive range of `u64`. Trusted: that
/// the value drawn lies in the range. rand panics on an empty range, which
/// `requires` leaves out. A draw also panics where the generator is due for
/// a new seed and the system gives none; no argument decides that.
#[verifier::external_body]
fn gen_range_inclusive(rng: &mut ThreadRng, low: u64, high: u64) -> (value: u64)
    requires
        low <= high,
    ensures
        low <= value <= high,
{
    rng.gen_range(low..=high)
}

/// `Rng::gen_ratio` of rand: `true` with a chance of `numerator` in
/// `denominator`. Trusted: that a chance of zero never hits and a chance of
/// one always does. rand panics on a zero denominator and on a numerator
/// above the denominator, which `requires` leaves out. A draw also panics
/// where the generator is due for a new seed and the system gives none; no
/// argument decides that.
#[verifier::external_body]
fn gen_ratio(rng: &mut ThreadRng, numerator: u32, denominator: u32) -> (hit: bool)
    requires
        0 < denominator,
        numerator <= denominator,
    ensures
        numerator == 0 ==> !hit,
        numerator == denominator ==> hit,
{
    rng.gen_ratio(numerator, denominator)
}

/// How one unit is processed.
#[derive(Clone, Copy, Debug, PartialEq, Eq)]
pub struct UnitRun {
    /// The unit.
    pub unit: u32,
    /// The time to wait before the unit is done, in microseconds.
    pub delay_micros: u64,
    /// Whether a failure is noted once the wait is over.
    pub failed: bool,
}

impl UnitRun {
    /// Whether the delay is one that a unit can have.
    pub open spec fn wf(self) -> bool {
        MIN_DELAY_MICROS <= self.delay_micros <= MAX_DELAY_MICROS
    }

    /// The notice to print after the wait: one for a failed unit, none
    /// otherwise. A failure stops nothing.
    pub fn notice(&self) -> (text: Option<String>)
        ensures
            self.failed <==> text is Some,
            self.failed ==> text->0@ == failure_text(self.unit as nat),
    {
        if self.failed {
            Some(failure_notice(self.unit))
        } else {
            None
        }
    }
}

/// Draws how `unit` is processed: a delay between `MIN_DELAY_MICROS` and
/// `MAX_DELAY_MICROS`, and a failure with a chance of `FAILURE_ODDS` in
/// `FAILURE_ODDS_OUT_OF`.
pub fn process_unit(rng: &mut ThreadRng, unit: u32) -> (run: UnitRun)
    ensures
        run.unit == unit,
        run.wf(),
{
    let delay_micros: u64 = gen_range_inclusive(rng, MIN_DELAY_MICROS, MAX_DELAY_MICROS);
    let failed = gen_ratio(rng, FAILURE_ODDS, FAILURE_ODDS_OUT_OF);
    UnitRun { unit, delay_micros, failed }
}

/// Draws how the units of a batch are processed, one after the other in
/// the order of the batch, with one generator for the whole batch.
pub fn process_batch(batch: &Vec<u32>) -> (runs: Vec<UnitRun>)
    ensures
        runs.len() == batch.len(),
        forall|i: int| 0 <= i < runs.len() ==> (#[trigger] runs[i]).unit == batch[i],
        forall|i: int| 0 <= i < runs.len() ==> (#[trigger] runs[i]).wf(),
{
    let mut rng = rand::thread_rng();
    let mut runs: Vec<UnitRun> = Vec::new();
    let mut i: usize = 0;
    while i < batch.len()
        invariant
            i <= batch.len(),
            runs.len() == i,
            forall|k: int| 0 <= k < i ==> (#[trigger] runs[k]).unit == batch[k],
            forall|k: int| 0 <= k < i ==> (#[trigger] runs[k]).wf(),
        decreases batch.len() - i,
    {
        let run = process_unit(&mut rng, batch[i]);
        runs.push(run);
        i = i + 1;
    }
    runs
}

} // verus!
