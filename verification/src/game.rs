//! The automaton: a lattice, the rule it evolves under, and its generation
//! counter.

use rand::rngs::ThreadRng;
use vstd::prelude::*;

use crate::evolution::{decided_before, lemma_decided_all, next_cells};
use crate::lattice::{cells_of, dead_grid, is_cube, lemma_with_cell, set_cell};
use crate::neighbors::{count_live_neighbors, live_neighbors, neighbor_positions};
pub use crate::rules::RuleSet;
use crate::seeding::{gen_ratio, seeded};
pub use crate::seeding::Probability;

verus! {

/// The smallest side a lattice is built with.
pub const MIN_CELL_COUNT: usize = 16;

/// Why an automaton could not be seeded.
#[derive(Clone, Copy, PartialEq, Eq, Structural, Debug)]
pub enum GameError {
    /// The occupancy probability is no number from 0 to 1.
    InvalidProbability,
}

/// A three-dimensional cellular automaton.
pub struct Game {
    /// The cells, indexed `grid[x][y][z]`.
    pub grid: Vec<Vec<Vec<bool>>>,
    /// How many generations have passed since seeding.
    pub generation: usize,
    /// True from seeding until the first generation has passed.
    pub first_disp: bool,
    /// The side of the lattice.
    pub cell_count: usize,
    /// The probability that a cell is alive after seeding.
    pub prob: Probability,
    /// The rule that decides each generation.
    pub rule: RuleSet,
}

/// The mathematical value of a [`Game`].
pub struct GameView {
    pub cells: Seq<Seq<Seq<bool>>>,
    pub generation: nat,
    pub first_disp: bool,
    pub cell_count: nat,
    pub prob: Probability,
    pub rule: RuleSet,
}

impl GameView {
    /// The lattice is a cube of side `cell_count`.
    pub open spec fn wf(self) -> bool {
        is_cube(self.cells, self.cell_count)
    }

    /// The automaton one generation later.
    pub open spec fn step(self) -> GameView {
        GameView {
            cells: next_cells(self.cells, self.rule),
            generation: self.generation + 1,
            first_disp: false,
            cell_count: self.cell_count,
            prob: self.prob,
            rule: self.rule,
        }
    }

    /// The automaton `k` generations later.
    pub open spec fn steps(self, k: nat) -> GameView
        decreases k,
    {
        if k == 0 {
            self
        } else {
            self.steps((k - 1) as nat).step()
        }
    }

    /// What holds of an automaton of side `n` right after seeding with
    /// `prob`.
    pub open spec fn fresh(self, n: nat, prob: Probability, rule: RuleSet) -> bool {
        &&& seeded(self.cells, n, prob)
        &&& self.generation == 0
        &&& self.first_disp
        &&& self.cell_count == n
        &&& self.prob == prob
        &&& self.rule == rule
    }
}

impl View for Game {
    type V = GameView;

    open spec fn view(&self) -> GameView {
        GameView {
            cells: cells_of(self.grid),
            generation: self.generation as nat,
            first_disp: self.first_disp,
            cell_count: self.cell_count as nat,
            prob: self.prob,
            rule: self.rule,
        }
    }
}

/// The side of the lattice built for a requested `size`.
pub open spec fn side_for(size: usize) -> usize {
    if size < MIN_CELL_COUNT {
        MIN_CELL_COUNT
    } else {
        size
    }
}

impl Game {
    /// A freshly seeded automaton of side `size`, or of side 16 where `size`
    /// is smaller. Fails exactly where `prob` is no number from 0 to 1.
    pub fn new(size: usize, prob: Probability, rule: RuleSet) -> (made: Result<Game, GameError>)
        ensures
            match made {
                Ok(game) => prob.in_unit_interval() && game@.fresh(side_for(size) as nat, prob, rule),
                Err(e) => !prob.in_unit_interval() && e == GameError::InvalidProbability,
            },
    {
        if !prob.is_valid() {
            return Err(GameError::InvalidProbability);
        }
        let cell_count: usize = if size < MIN_CELL_COUNT {
            MIN_CELL_COUNT
        } else {
            size
        };
        let grid = Game::randomize(prob, cell_count);
        Ok(Game { grid, generation: 0, first_disp: true, cell_count, prob, rule })
    }

    /// A lattice of side `cell_count` in which every cell is alive with
    /// probability `prob`, each by a trial of its own on the thread's random
    /// generator. The probability must be a number from 0 to 1: with 0 no cell
    /// is alive, with 1 every cell is.
    pub fn randomize(prob: Probability, cell_count: usize) -> (grid: Vec<Vec<Vec<bool>>>)
        requires
            prob.in_unit_interval(),
        ensures
            seeded(cells_of(grid), cell_count as nat, prob),
    {
        let n = cell_count;
        let mut rng: ThreadRng = rand::thread_rng();
        let mut grid: Vec<Vec<Vec<bool>>> = Vec::new();
        let mut x: usize = 0;
        while x < n
            invariant
                x <= n,
                prob.in_unit_interval(),
                grid@.len() == x,
                forall|i: int| 0 <= i < x ==> (#[trigger] grid@[i])@.len() == n,
                forall|i: int, j: int| 0 <= i < x && 0 <= j < n ==> (#[trigger] grid@[i]@[j])@.len() == n,
                forall|i: int, j: int, k: int|
                    0 <= i < x && 0 <= j < n && 0 <= k < n ==> (prob.is_never() ==> !(#[trigger] grid@[i]@[j]@[k]))
                        && (prob.is_always() ==> grid@[i]@[j]@[k]),
            decreases n - x,
        {
            let mut plane: Vec<Vec<bool>> = Vec::new();
            let mut y: usize = 0;
            while y < n
                invariant
                    y <= n,
                    prob.in_unit_interval(),
                    plane@.len() == y,
                    forall|j: int| 0 <= j < y ==> (#[trigger] plane@[j])@.len() == n,
                    forall|j: int, k: int|
                        0 <= j < y && 0 <= k < n ==> (prob.is_never() ==> !(#[trigger] plane@[j]@[k])) && (
                        prob.is_always() ==> plane@[j]@[k]),
                decreases n - y,
            {
                let mut row: Vec<bool> = Vec::new();
                let mut z: usize = 0;
                while z < n
                    invariant
                        z <= n,
                        prob.in_unit_interval(),
                        row@.len() == z,
                        forall|k: int|
                            0 <= k < z ==> (prob.is_never() ==> !(#[trigger] row@[k])) && (prob.is_always()
                                ==> row@[k]),
                    decreases n - z,
                {
                    let outcome = gen_ratio(&mut rng, prob.numerator, prob.denominator);
                    row.push(outcome);
                    z += 1;
                }
                plane.push(row);
                y += 1;
            }
            grid.push(plane);
            x += 1;
        }
        grid
    }

    /// Seeds the lattice anew and starts counting generations from 0. Where
    /// the stored probability is no number from 0 to 1, fails and changes
    /// nothing.
    pub fn reset(&mut self) -> (done: Result<(), GameError>)
        ensures
            match done {
                Ok(_) => old(self).prob.in_unit_interval() && final(self)@.fresh(
                    old(self).cell_count as nat,
                    old(self).prob,
                    old(self).rule,
                ),
                Err(e) => !old(self).prob.in_unit_interval() && e == GameError::InvalidProbability
                    && *final(self) == *old(self),
            },
    {
        if !self.prob.is_valid() {
            return Err(GameError::InvalidProbability);
        }
        let grid = Game::randomize(self.prob, self.cell_count);
        self.grid = grid;
        self.generation = 0;
        self.first_disp = true;
        Ok(())
    }

    /// Advances the automaton by one generation: every cell is decided by the
    /// rule from its state and its live neighbours in the lattice as it was
    /// before the call.
    pub fn advance_state(&mut self)
        requires
            old(self)@.wf(),
            old(self).generation < usize::MAX,
        ensures
            final(self)@ == old(self)@.step(),
            final(self)@.wf(),
    {
        let n = self.cell_count;
        let ghost before = cells_of(self.grid);
        let mut new_grid = dead_grid(n);
        let mut x: usize = 0;
        while x < n
            invariant
                x <= n,
                n == self.cell_count,
                before == cells_of(self.grid),
                is_cube(before, n as nat),
                decided_before(cells_of(new_grid), before, self.rule, x as int, 0, 0),
            decreases n - x,
        {
            let mut y: usize = 0;
            while y < n
                invariant
                    x < n,
                    y <= n,
                    n == self.cell_count,
                    before == cells_of(self.grid),
                    is_cube(before, n as nat),
                    decided_before(cells_of(new_grid), before, self.rule, x as int, y as int, 0),
                decreases n - y,
            {
                let mut z: usize = 0;
                while z < n
                    invariant
                        x < n,
                        y < n,
                        z <= n,
                        n == self.cell_count,
                        before == cells_of(self.grid),
                        is_cube(before, n as nat),
                        decided_before(
                            cells_of(new_grid),
                            before,
                            self.rule,
                            x as int,
                            y as int,
                            z as int,
                        ),
                    decreases n - z,
                {
                    let count = count_live_neighbors(&self.grid, x, y, z);
                    let next = self.rule.next_alive(self.grid[x][y][z], count);
                    proof {
                        lemma_with_cell(cells_of(new_grid), x as int, y as int, z as int, next);
                    }
                    set_cell(&mut new_grid, x, y, z, next);
                    z += 1;
                }
                y += 1;
            }
            x += 1;
        }
        proof {
            lemma_decided_all(cells_of(new_grid), before, self.rule);
        }
        self.grid = new_grid;
        self.generation += 1;
        self.first_disp = false;
    }

    /// The number of live cells among the neighbours of `(x, y, z)`: the up
    /// to 26 cells of the lattice that differ from it by at most one on each
    /// axis. Neighbours that would lie outside the lattice do not exist and
    /// are not looked at.
    pub fn count_neighbors(&mut self, x: usize, y: usize, z: usize) -> (count: usize)
        requires
            old(self)@.wf(),
        ensures
            *final(self) == *old(self),
            count == live_neighbors(old(self)@.cells, x as int, y as int, z as int),
            count <= neighbor_positions(old(self)@.cell_count, x as int, y as int, z as int),
    {
        count_live_neighbors(&self.grid, x, y, z)
    }
}

} // verus!
