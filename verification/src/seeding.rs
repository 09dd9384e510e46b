//! Random seeding: the occupancy probability and the random source.

use rand::rngs::ThreadRng;
use rand::Rng;
use vstd::prelude::*;

use crate::lattice::{all_alive, all_dead, is_cube};

verus! {

/// The handle of `rand` to the calling thread's random number generator.
/// Nothing is known of its state.
#[verifier::external_type_specification]
#[verifier::external_body]
pub struct ExThreadRng(rand::rngs::ThreadRng);

/// `rand::thread_rng`: hands out the calling thread's generator, which the
/// operating system seeds on first use. Nothing is claimed of the handle. The
/// call panics where the operating system has no entropy to seed it with, which
/// no precondition can rule out.
pub assume_specification[ rand::thread_rng ]() -> (rng: ThreadRng);

/// `rand::Rng::gen_ratio` on the thread's generator: one Bernoulli trial that
/// succeeds with probability `numerator / denominator`. The call panics on a
/// zero denominator and on a numerator above the denominator, so both are
/// required away. Believed of its result, as its documentation promises: a zero
/// numerator always gives `false`, a numerator equal to the denominator always
/// gives `true`. Of any other ratio nothing is claimed.
#[verifier::external_body]
pub(crate) fn gen_ratio(rng: &mut ThreadRng, numerator: u32, denominator: u32) -> (outcome: bool)
    requires
        denominator > 0,
        numerator <= denominator,
    ensures
        numerator == 0 ==> !outcome,
        numerator == denominator ==> outcome,
{
    rng.gen_ratio(numerator, denominator)
}

/// The probability `numerator / denominator` that a cell is alive after
/// seeding.
#[derive(Clone, Copy, PartialEq, Eq, Structural, Debug)]
pub struct Probability {
    pub numerator: u32,
    pub denominator: u32,
}

impl Probability {
    /// The ratio is a number from 0 to 1.
    pub open spec fn in_unit_interval(self) -> bool {
        self.denominator > 0 && self.numerator <= self.denominator
    }

    /// The cells seeded with this probability are all dead.
    pub open spec fn is_never(self) -> bool {
        self.numerator == 0
    }

    /// The cells seeded with this probability are all alive.
    pub open spec fn is_always(self) -> bool {
        self.numerator == self.denominator
    }

    /// The ratio `numerator / denominator`, whether or not it is a
    /// probability.
    pub fn new(numerator: u32, denominator: u32) -> (p: Probability)
        ensures
            p.numerator == numerator,
            p.denominator == denominator,
    {
        Probability { numerator, denominator }
    }

    /// Whether the ratio is a number from 0 to 1.
    pub fn is_valid(&self) -> (valid: bool)
        ensures
            valid == self.in_unit_interval(),
    {
        self.denominator > 0 && self.numerator <= self.denominator
    }
}

/// What is known of a lattice of side `n` seeded with `prob`: its shape, and
/// its cells where the probability leaves nothing to chance.
pub open spec fn seeded(cells: Seq<Seq<Seq<bool>>>, n: nat, prob: Probability) -> bool {
    &&& is_cube(cells, n)
    &&& prob.is_never() ==> all_dead(cells)
    &&& prob.is_always() ==> all_alive(cells, n)
}

} // verus!
