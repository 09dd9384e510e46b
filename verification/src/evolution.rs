//! One generation of the lattice, and what holds of an automaton over its
//! generations.

use vstd::prelude::*;

use crate::game::GameView;
use crate::lattice::{alive, all_dead, is_cube};
use crate::neighbors::{live_in_block, live_neighbors};
use crate::rules::RuleSet;

verus! {

/// The lattice after one generation under `rule`: every cell decided from its
/// state and its live neighbours in `cells`.
pub open spec fn next_cells(cells: Seq<Seq<Seq<bool>>>, rule: RuleSet) -> Seq<Seq<Seq<bool>>> {
    Seq::new(
        cells.len(),
        |x: int|
            Seq::new(
                cells.len(),
                |y: int|
                    Seq::new(
                        cells.len(),
                        |z: int| rule.decides(alive(cells, x, y, z), live_neighbors(cells, x, y, z)),
                    ),
            ),
    )
}

/// `next` is a cube of the side of `cells` in which every cell that a sweep
/// in the order of `x`, then `y`, then `z` reaches before `(x, y, z)` holds
/// what `rule` decides for it from `cells`.
pub open spec fn decided_before(
    next: Seq<Seq<Seq<bool>>>,
    cells: Seq<Seq<Seq<bool>>>,
    rule: RuleSet,
    x: int,
    y: int,
    z: int,
) -> bool {
    &&& is_cube(next, cells.len())
    &&& forall|i: int, j: int, k: int|
        0 <= i < cells.len() && 0 <= j < cells.len() && 0 <= k < cells.len()
            && (i < x || (i == x && (j < y || (j == y && k < z))))
            ==> #[trigger] alive(next, i, j, k)
                == rule.decides(alive(cells, i, j, k), live_neighbors(cells, i, j, k))
}

/// A lattice in which the sweep has reached the end holds the next
/// generation.
pub proof fn lemma_decided_all(next: Seq<Seq<Seq<bool>>>, cells: Seq<Seq<Seq<bool>>>, rule: RuleSet)
    requires
        decided_before(next, cells, rule, cells.len() as int, 0, 0),
    ensures
        next == next_cells(cells, rule),
{
    let n = cells.len() as int;
    let expected = next_cells(cells, rule);
    assert forall|i: int, j: int, k: int| 0 <= i < n && 0 <= j < n && 0 <= k < n implies
        (#[trigger] next[i][j][k]) == expected[i][j][k] by {
        assert(alive(next, i, j, k) == next[i][j][k]);
    }
    assert(next =~~= expected);
}

/// One generation keeps the shape of the lattice: the next lattice is a cube
/// of the same side.
pub proof fn lemma_step_keeps_shape(cells: Seq<Seq<Seq<bool>>>, rule: RuleSet)
    ensures
        is_cube(next_cells(cells, rule), cells.len()),
{
}

/// A cell of the next generation is alive exactly where the rule decides so
/// from the cell's state and its live neighbours in this generation.
pub proof fn lemma_next_cell(cells: Seq<Seq<Seq<bool>>>, rule: RuleSet, x: int, y: int, z: int)
    requires
        0 <= x < cells.len(),
        0 <= y < cells.len(),
        0 <= z < cells.len(),
    ensures
        alive(next_cells(cells, rule), x, y, z) == rule.decides(
            alive(cells, x, y, z),
            live_neighbors(cells, x, y, z),
        ),
{
}

/// Under every rule a lattice without a live cell, of any size, has none in
/// the next generation either: no rule lets a cell be born with no live
/// neighbour.
pub proof fn lemma_dead_stays_dead(cells: Seq<Seq<Seq<bool>>>, rule: RuleSet)
    requires
        all_dead(cells),
    ensures
        all_dead(next_cells(cells, rule)),
{
    assert forall|x: int, y: int, z: int| !alive(next_cells(cells, rule), x, y, z) by {
        if 0 <= x < cells.len() && 0 <= y < cells.len() && 0 <= z < cells.len() {
            reveal(live_in_block);
            assert(live_neighbors(cells, x, y, z) == 0);
            assert(!rule.decides(false, 0));
        }
    }
}

/// An automaton without a live cell has none after any number of
/// generations.
pub proof fn lemma_dead_forever(game: GameView, k: nat)
    requires
        all_dead(game.cells),
    ensures
        all_dead(game.steps(k).cells),
    decreases k,
{
    if k > 0 {
        lemma_dead_forever(game, (k - 1) as nat);
        lemma_dead_stays_dead(game.steps((k - 1) as nat).cells, game.rule);
        lemma_steps_keep_settings(game, (k - 1) as nat);
    }
}

/// After `k` generations the counter has grown by exactly `k`, and the
/// automaton is no longer in its initial state once a generation has passed.
/// Side, probability and rule never change.
pub proof fn lemma_steps_keep_settings(game: GameView, k: nat)
    ensures
        game.steps(k).generation == game.generation + k,
        game.steps(k).first_disp == (k == 0 && game.first_disp),
        game.steps(k).cell_count == game.cell_count,
        game.steps(k).prob == game.prob,
        game.steps(k).rule == game.rule,
        game.wf() ==> game.steps(k).wf(),
    decreases k,
{
    if k > 0 {
        lemma_steps_keep_settings(game, (k - 1) as nat);
        lemma_step_keeps_shape(game.steps((k - 1) as nat).cells, game.rule);
    }
}

/// Counted from seeding, the generation counter is the number of generations
/// that have passed.
pub proof fn lemma_generation_counts_steps(game: GameView, k: nat)
    requires
        game.generation == 0,
    ensures
        game.steps(k).generation == k,
{
    lemma_steps_keep_settings(game, k);
}

/// Under the rule without death a live cell is alive in every later
/// generation, whatever its neighbours do.
pub proof fn lemma_no_death_is_monotonic(game: GameView, k: nat, x: int, y: int, z: int)
    requires
        game.wf(),
        game.rule == RuleSet::NoDeath,
        alive(game.cells, x, y, z),
    ensures
        alive(game.steps(k).cells, x, y, z),
    decreases k,
{
    if k > 0 {
        let before = game.steps((k - 1) as nat);
        lemma_no_death_is_monotonic(game, (k - 1) as nat, x, y, z);
        lemma_steps_keep_settings(game, (k - 1) as nat);
        lemma_next_cell(before.cells, before.rule, x, y, z);
    }
}

/// The next generation depends on the lattice and the rule alone: two
/// automata that agree on both agree on their lattices after every number of
/// generations.
pub proof fn lemma_evolution_is_deterministic(a: GameView, b: GameView, k: nat)
    requires
        a.cells == b.cells,
        a.rule == b.rule,
    ensures
        a.steps(k).cells == b.steps(k).cells,
    decreases k,
{
    if k > 0 {
        lemma_evolution_is_deterministic(a, b, (k - 1) as nat);
        lemma_steps_keep_settings(a, (k - 1) as nat);
        lemma_steps_keep_settings(b, (k - 1) as nat);
    }
}

} // verus!
