//! Roll sources: the one used for real rolls, a fast generator seeded per roll
//! with a shared flag that a timer raises when the time for the roll is up;
//! and one that replays given values.

use vstd::prelude::*;
use crate::evaluate::RollSource;
use rand::distributions::Uniform;
use rand::{Rng, SeedableRng};
use rand_xoshiro::Xoshiro256PlusPlus;
use std::sync::atomic::{AtomicBool, Ordering};
use std::sync::Arc;

verus! {

#[verifier::external_type_specification]
#[verifier::external_body]
pub struct ExXoshiro256PlusPlus(Xoshiro256PlusPlus);

/// Relies on rand_xoshiro's `Xoshiro256PlusPlus::from_seed`: a generator whose
/// output is fixed by the seed.
#[verifier::external_body]
fn generator_from_seed(seed: [u8; 32]) -> Xoshiro256PlusPlus {
    Xoshiro256PlusPlus::from_seed(seed)
}

/// Relies on rand's `Uniform::new_inclusive` and `Rng::sample`: a value between
/// the bounds, both included (`new_inclusive` panics when `low > high`).
#[verifier::external_body]
fn sample_inclusive(rng: &mut Xoshiro256PlusPlus, low: i64, high: i64) -> (r: i64)
    requires
        low <= high,
    ensures
        low <= r <= high,
{
    rng.sample(Uniform::new_inclusive(low, high))
}

/// A seeded generator and a timeout flag.
pub struct SeededRolls {
    rng: Xoshiro256PlusPlus,
    stop: Arc<AtomicBool>,
    stopped: bool,
    history: Ghost<Seq<i64>>,
    checked: Ghost<Seq<nat>>,
}

impl SeededRolls {
    /// A source that draws from a generator seeded with `seed`, and stops once
    /// `stop` is set.
    pub fn new(seed: [u8; 32], stop: Arc<AtomicBool>) -> (r: SeededRolls)
        ensures
            r.drawn() == Seq::<i64>::empty(),
            !r.expired(),
            r.checks() == Seq::<nat>::empty(),
    {
        SeededRolls {
            rng: generator_from_seed(seed),
            stop,
            stopped: false,
            history: Ghost(Seq::empty()),
            checked: Ghost(Seq::empty()),
        }
    }
}

impl RollSource for SeededRolls {
    closed spec fn drawn(&self) -> Seq<i64> {
        self.history@
    }

    closed spec fn expired(&self) -> bool {
        self.stopped
    }

    closed spec fn checks(&self) -> Seq<nat> {
        self.checked@
    }

    fn timed_out(&mut self) -> (r: bool) {
        if !self.stopped {
            self.stopped = self.stop.load(Ordering::Relaxed);
        }
        self.checked = Ghost(self.checked@.push(self.history@.len()));
        self.stopped
    }

    fn draw(&mut self, low: i64, high: i64) -> (r: i64) {
        let r = sample_inclusive(&mut self.rng, low, high);
        self.history = Ghost(self.history@.push(r));
        r
    }
}

/// Hands out given values in order, each brought into the range asked for,
/// and the low end of the range once they run out; it never times out. It
/// reproduces a roll from the values it drew.
pub struct ReplayRolls {
    values: Vec<i64>,
    next: usize,
    history: Ghost<Seq<i64>>,
    checked: Ghost<Seq<nat>>,
}

impl ReplayRolls {
    pub fn new(values: Vec<i64>) -> (r: ReplayRolls)
        ensures
            r.drawn() == Seq::<i64>::empty(),
            !r.expired(),
            r.remaining() == values@,
            r.checks() == Seq::<nat>::empty(),
    {
        ReplayRolls { values, next: 0, history: Ghost(Seq::empty()), checked: Ghost(Seq::empty()) }
    }

    /// The values still to be handed out.
    pub closed spec fn remaining(&self) -> Seq<i64> {
        self.values@.skip(self.next as int)
    }
}

impl RollSource for ReplayRolls {
    closed spec fn drawn(&self) -> Seq<i64> {
        self.history@
    }

    open spec fn expired(&self) -> bool {
        false
    }

    closed spec fn checks(&self) -> Seq<nat> {
        self.checked@
    }

    fn timed_out(&mut self) -> (r: bool) {
        self.checked = Ghost(self.checked@.push(self.history@.len()));
        false
    }

    fn draw(&mut self, low: i64, high: i64) -> (r: i64) {
        let r = if self.next < self.values.len() {
            let v = self.values[self.next];
            self.next = self.next + 1;
            if v < low {
                low
            } else if v > high {
                high
            } else {
                v
            }
        } else {
            low
        };
        self.history = Ghost(self.history@.push(r));
        r
    }
}

} // verus!
