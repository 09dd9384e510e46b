//! The cubic lattice: its mathematical model and the executable functions that
//! build and change one.

use vstd::prelude::*;

verus! {

/// The cells of a nested vector, as nested sequences.
pub open spec fn cells_of(grid: Vec<Vec<Vec<bool>>>) -> Seq<Seq<Seq<bool>>> {
    Seq::new(grid@.len(), |x: int| Seq::new(grid@[x]@.len(), |y: int| grid@[x]@[y]@))
}

/// `cells` has `n` planes of `n` rows of `n` cells.
pub open spec fn is_cube(cells: Seq<Seq<Seq<bool>>>, n: nat) -> bool {
    &&& cells.len() == n
    &&& forall|x: int| 0 <= x < n ==> (#[trigger] cells[x]).len() == n
    &&& forall|x: int, y: int| 0 <= x < n && 0 <= y < n ==> (#[trigger] cells[x][y]).len() == n
}

/// `(x, y, z)` is a position of the lattice.
pub open spec fn in_lattice(cells: Seq<Seq<Seq<bool>>>, x: int, y: int, z: int) -> bool {
    &&& 0 <= x < cells.len()
    &&& 0 <= y < cells[x].len()
    &&& 0 <= z < cells[x][y].len()
}

/// The cell at `(x, y, z)` exists and is alive. A position outside the lattice
/// holds no live cell: the lattice has hard edges.
pub open spec fn alive(cells: Seq<Seq<Seq<bool>>>, x: int, y: int, z: int) -> bool {
    &&& 0 <= x < cells.len()
    &&& 0 <= y < cells[x].len()
    &&& 0 <= z < cells[x][y].len()
    &&& cells[x][y][z]
}

/// No cell of `cells` is alive.
pub open spec fn all_dead(cells: Seq<Seq<Seq<bool>>>) -> bool {
    forall|x: int, y: int, z: int| !alive(cells, x, y, z)
}

/// Every position of the cube of side `n` holds a live cell in `cells`.
pub open spec fn all_alive(cells: Seq<Seq<Seq<bool>>>, n: nat) -> bool {
    forall|x: int, y: int, z: int|
        0 <= x < n && 0 <= y < n && 0 <= z < n ==> alive(cells, x, y, z)
}

/// The cells of a cube of side `n`, all of them alive.
pub open spec fn full_cube(n: nat) -> Seq<Seq<Seq<bool>>> {
    Seq::new(n, |x: int| Seq::new(n, |y: int| Seq::new(n, |z: int| true)))
}

/// `cells` with the cell at `(x, y, z)` replaced by `value`.
pub open spec fn with_cell(
    cells: Seq<Seq<Seq<bool>>>,
    x: int,
    y: int,
    z: int,
    value: bool,
) -> Seq<Seq<Seq<bool>>> {
    cells.update(x, cells[x].update(y, cells[x][y].update(z, value)))
}

/// Replacing one cell keeps the shape of the lattice and the state of every
/// other cell.
pub proof fn lemma_with_cell(cells: Seq<Seq<Seq<bool>>>, x: int, y: int, z: int, value: bool)
    requires
        in_lattice(cells, x, y, z),
    ensures
        forall|n: nat| #[trigger] is_cube(cells, n) ==> is_cube(with_cell(cells, x, y, z, value), n),
        forall|i: int, j: int, k: int| #[trigger]
            alive(with_cell(cells, x, y, z, value), i, j, k) == if i == x && j == y && k == z {
                value
            } else {
                alive(cells, i, j, k)
            },
{
    let after = with_cell(cells, x, y, z, value);
    assert forall|n: nat| #[trigger] is_cube(cells, n) implies is_cube(after, n) by {
        assert forall|i: int, j: int| 0 <= i < n && 0 <= j < n implies
            (#[trigger] after[i][j]).len() == n by {
            assert(cells[i][j].len() == n);
        }
    }
}

/// A lattice of side `n` with every cell dead.
pub fn dead_grid(n: usize) -> (grid: Vec<Vec<Vec<bool>>>)
    ensures
        is_cube(cells_of(grid), n as nat),
        all_dead(cells_of(grid)),
{
    let mut grid: Vec<Vec<Vec<bool>>> = Vec::new();
    let mut x: usize = 0;
    while x < n
        invariant
            x <= n,
            grid@.len() == x,
            forall|i: int| 0 <= i < x ==> (#[trigger] grid@[i])@.len() == n,
            forall|i: int, j: int| 0 <= i < x && 0 <= j < n ==> (#[trigger] grid@[i]@[j])@.len() == n,
            forall|i: int, j: int, k: int|
                0 <= i < x && 0 <= j < n && 0 <= k < n ==> !(#[trigger] grid@[i]@[j]@[k]),
        decreases n - x,
    {
        let mut plane: Vec<Vec<bool>> = Vec::new();
        let mut y: usize = 0;
        while y < n
            invariant
                y <= n,
                plane@.len() == y,
                forall|j: int| 0 <= j < y ==> (#[trigger] plane@[j])@.len() == n,
                forall|j: int, k: int| 0 <= j < y && 0 <= k < n ==> !(#[trigger] plane@[j]@[k]),
            decreases n - y,
        {
            let mut row: Vec<bool> = Vec::new();
            let mut z: usize = 0;
            while z < n
                invariant
                    z <= n,
                    row@.len() == z,
                    forall|k: int| 0 <= k < z ==> !(#[trigger] row@[k]),
                decreases n - z,
            {
                row.push(false);
                z += 1;
            }
            plane.push(row);
            y += 1;
        }
        grid.push(plane);
        x += 1;
    }
    grid
}

/// Writes `value` into the cell at `(x, y, z)` and leaves every other cell as
/// it was.
pub fn set_cell(grid: &mut Vec<Vec<Vec<bool>>>, x: usize, y: usize, z: usize, value: bool)
    requires
        in_lattice(cells_of(*old(grid)), x as int, y as int, z as int),
    ensures
        cells_of(*final(grid)) == with_cell(cells_of(*old(grid)), x as int, y as int, z as int, value),
{
    grid[x][y][z] = value;
    proof {
        assert(cells_of(*grid) =~~= with_cell(
            cells_of(*old(grid)),
            x as int,
            y as int,
            z as int,
            value,
        ));
    }
}

/// The place of the cell `(x, y, z)` of a lattice of side `n` in a flat
/// buffer that holds the lattice plane by plane and row by row.
pub fn linear_index(x: usize, y: usize, z: usize, n: usize) -> (index: usize)
    requires
        x < n,
        y < n,
        z < n,
        n * n * n <= usize::MAX,
    ensures
        index == x * n * n + y * n + z,
        index < n * n * n,
{
    proof {
        assert(x * n * n + y * n + z < n * n * n && x * n <= x * n * n) by (nonlinear_arith)
            requires
                x < n,
                y < n,
                z < n,
        ;
    }
    x * n * n + y * n + z
}

} // verus!
