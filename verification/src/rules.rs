//! The rules that decide a cell's next state.

use vstd::prelude::*;

verus! {

/// The rules a lattice can evolve under.
#[derive(Clone, Copy, PartialEq, Eq, Structural, PartialOrd, Debug)]
pub enum RuleSet {
    Balanced,
    Dense,
    Sparse,
    Chaotic,
    NoDeath,
}

impl RuleSet {
    /// Whether a live cell with `count` live neighbours stays alive.
    pub open spec fn survives(self, count: nat) -> bool {
        match self {
            RuleSet::Balanced => 5 <= count <= 7,
            RuleSet::Sparse => 3 <= count <= 5,
            RuleSet::Dense => 4 <= count <= 9,
            RuleSet::Chaotic => 5 <= count <= 8,
            RuleSet::NoDeath => true,
        }
    }

    /// Whether a dead cell with `count` live neighbours comes alive.
    pub open spec fn births(self, count: nat) -> bool {
        match self {
            RuleSet::Balanced | RuleSet::Dense | RuleSet::Chaotic => count == 5 || count == 6,
            RuleSet::Sparse | RuleSet::NoDeath => count == 5,
        }
    }

    /// The next state of a cell that is `alive` now and has `count` live
    /// neighbours.
    pub open spec fn decides(self, alive: bool, count: nat) -> bool {
        if alive {
            self.survives(count)
        } else {
            self.births(count)
        }
    }

    /// Decides the next state of a cell under this rule.
    pub fn next_alive(self, alive: bool, count: usize) -> (next: bool)
        ensures
            next == self.decides(alive, count as nat),
    {
        match self {
            RuleSet::Balanced => balanced(alive, count),
            RuleSet::Sparse => sparse(alive, count),
            RuleSet::Dense => dense(alive, count),
            RuleSet::Chaotic => chaotic(alive, count),
            RuleSet::NoDeath => no_death(alive, count),
        }
    }
}

/// Survival on 5 to 7 live neighbours, birth on 5 or 6.
pub fn balanced(alive: bool, count: usize) -> (next: bool)
    ensures
        next == RuleSet::Balanced.decides(alive, count as nat),
{
    if alive {
        count >= 5 && count <= 7
    } else {
        count == 6 || count == 5
    }
}

/// Survival on 3 to 5 live neighbours, birth on exactly 5.
pub fn sparse(alive: bool, count: usize) -> (next: bool)
    ensures
        next == RuleSet::Sparse.decides(alive, count as nat),
{
    if alive {
        count >= 3 && count <= 5
    } else {
        count == 5
    }
}

/// Survival on 4 to 9 live neighbours, birth on 5 or 6.
pub fn dense(alive: bool, count: usize) -> (next: bool)
    ensures
        next == RuleSet::Dense.decides(alive, count as nat),
{
    if alive {
        count >= 4 && count <= 9
    } else {
        count == 6 || count == 5
    }
}

/// Survival on 5 to 8 live neighbours, birth on 5 or 6.
pub fn chaotic(alive: bool, count: usize) -> (next: bool)
    ensures
        next == RuleSet::Chaotic.decides(alive, count as nat),
{
    if alive {
        count >= 5 && count <= 8
    } else {
        count == 6 || count == 5
    }
}

/// A live cell never dies; a dead one comes alive on exactly 5 live
/// neighbours.
pub fn no_death(alive: bool, count: usize) -> (next: bool)
    ensures
        next == RuleSet::NoDeath.decides(alive, count as nat),
{
    if alive {
        true
    } else {
        count == 5
    }
}

} // verus!
