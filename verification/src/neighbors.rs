//! The neighbourhood of a cell: the up to 26 cells around it, and how many of
//! them are alive.

use vstd::prelude::*;

use crate::lattice::{alive, cells_of, full_cube, is_cube};

verus! {

/// 1 if the cell at `(x, y, z)` is alive, else 0.
pub open spec fn live(cells: Seq<Seq<Seq<bool>>>, x: int, y: int, z: int) -> nat {
    if alive(cells, x, y, z) {
        1
    } else {
        0
    }
}

/// The live cells among the three from `(x-1, y, z)` to `(x+1, y, z)`.
pub open spec fn live_in_row(cells: Seq<Seq<Seq<bool>>>, x: int, y: int, z: int) -> nat {
    live(cells, x - 1, y, z) + live(cells, x, y, z) + live(cells, x + 1, y, z)
}

/// The live cells among the nine around `(x, y, z)` that share its `z`.
pub open spec fn live_in_plane(cells: Seq<Seq<Seq<bool>>>, x: int, y: int, z: int) -> nat {
    live_in_row(cells, x, y - 1, z) + live_in_row(cells, x, y, z) + live_in_row(cells, x, y + 1, z)
}

/// The live cells among the 27 of the block centred on `(x, y, z)`.
#[verifier::opaque]
pub open spec fn live_in_block(cells: Seq<Seq<Seq<bool>>>, x: int, y: int, z: int) -> nat {
    live_in_plane(cells, x, y, z - 1) + live_in_plane(cells, x, y, z) + live_in_plane(
        cells,
        x,
        y,
        z + 1,
    )
}

/// The live cells among the up to 26 neighbours of `(x, y, z)`: those of the
/// block around it, without the cell itself.
pub open spec fn live_neighbors(cells: Seq<Seq<Seq<bool>>>, x: int, y: int, z: int) -> nat {
    (live_in_block(cells, x, y, z) - live(cells, x, y, z)) as nat
}

/// The number of neighbour positions of `(x, y, z)` that lie inside a cube of
/// side `n`: the neighbours that `(x, y, z)` has where every cell is alive.
pub open spec fn neighbor_positions(n: nat, x: int, y: int, z: int) -> nat {
    live_neighbors(full_cube(n), x, y, z)
}

/// On how many of its three axes `(x, y, z)` lies on the first or the last
/// coordinate of a cube of side `n`.
pub open spec fn boundary_axes(n: nat, x: int, y: int, z: int) -> nat {
    (if x == 0 || x == n - 1 { 1nat } else { 0 })
        + (if y == 0 || y == n - 1 { 1nat } else { 0 })
        + (if z == 0 || z == n - 1 { 1nat } else { 0 })
}

/// A lattice of side `n` has no more live neighbours of `(x, y, z)` than there
/// are neighbour positions inside it, and those are at most 26.
pub proof fn lemma_live_within(cells: Seq<Seq<Seq<bool>>>, n: nat, x: int, y: int, z: int)
    requires
        is_cube(cells, n),
    ensures
        live_neighbors(cells, x, y, z) <= neighbor_positions(n, x, y, z),
        neighbor_positions(n, x, y, z) <= 26,
{
    reveal(live_in_block);
    let full = full_cube(n);
    assert forall|a: int, b: int, c: int| #[trigger] live(cells, a, b, c) <= live(full, a, b, c) by {
        if alive(cells, a, b, c) {
            assert(full[a][b][c]);
        }
    }
}

/// How many neighbour positions a cell of the lattice has. A cell away from
/// every face has all 26. A cell on a face has at most 17, one on an edge at
/// most 11, one in a corner at most 7: exactly so many in a lattice of side 2
/// or more.
pub proof fn lemma_neighbor_positions(n: nat, x: int, y: int, z: int)
    requires
        0 <= x < n,
        0 <= y < n,
        0 <= z < n,
    ensures
        boundary_axes(n, x, y, z) == 0 ==> neighbor_positions(n, x, y, z) == 26,
        boundary_axes(n, x, y, z) == 1 ==> neighbor_positions(n, x, y, z) == 17,
        boundary_axes(n, x, y, z) == 2 ==> neighbor_positions(n, x, y, z) <= 11,
        boundary_axes(n, x, y, z) == 3 ==> neighbor_positions(n, x, y, z) <= 7,
        n >= 2 && boundary_axes(n, x, y, z) == 2 ==> neighbor_positions(n, x, y, z) == 11,
        n >= 2 && boundary_axes(n, x, y, z) == 3 ==> neighbor_positions(n, x, y, z) == 7,
{
    reveal(live_in_block);
    let full = full_cube(n);
    assert forall|a: int, b: int, c: int| #[trigger]
        alive(full, a, b, c) == (0 <= a < n && 0 <= b < n && 0 <= c < n) by {
        if 0 <= a < n && 0 <= b < n && 0 <= c < n {
            assert(full[a][b][c]);
        }
    }
}

/// The position `c + d` on one axis of a lattice of side `n`, where there is
/// one.
pub fn neighbor_coordinate(c: usize, d: isize, n: usize) -> (r: Option<usize>)
    requires
        -1 <= d <= 1,
    ensures
        r.is_some() <==> 0 <= c + d < n,
        r.is_some() ==> r.unwrap() == c + d,
{
    if d < 0 {
        if c > 0 && c - 1 < n {
            Some(c - 1)
        } else {
            None
        }
    } else if d == 0 {
        if c < n {
            Some(c)
        } else {
            None
        }
    } else {
        if c < n && c + 1 < n {
            Some(c + 1)
        } else {
            None
        }
    }
}

/// The live cells among the first `k` of the three cells of a row.
#[verifier::opaque]
spec fn row_prefix(cells: Seq<Seq<Seq<bool>>>, x: int, y: int, z: int, k: int) -> nat {
    (if k > 0 { live(cells, x - 1, y, z) } else { 0 })
        + (if k > 1 { live(cells, x, y, z) } else { 0 })
        + (if k > 2 { live(cells, x + 1, y, z) } else { 0 })
}

/// The live cells in the first `k` of the three rows of a plane.
#[verifier::opaque]
spec fn plane_prefix(cells: Seq<Seq<Seq<bool>>>, x: int, y: int, z: int, k: int) -> nat {
    (if k > 0 { live_in_row(cells, x, y - 1, z) } else { 0 })
        + (if k > 1 { live_in_row(cells, x, y, z) } else { 0 })
        + (if k > 2 { live_in_row(cells, x, y + 1, z) } else { 0 })
}

/// The live cells in the first `k` of the three planes of a block.
#[verifier::opaque]
spec fn block_prefix(cells: Seq<Seq<Seq<bool>>>, x: int, y: int, z: int, k: int) -> nat {
    (if k > 0 { live_in_plane(cells, x, y, z - 1) } else { 0 })
        + (if k > 1 { live_in_plane(cells, x, y, z) } else { 0 })
        + (if k > 2 { live_in_plane(cells, x, y, z + 1) } else { 0 })
}

/// How the count along a row grows cell by cell.
proof fn lemma_row_prefix(cells: Seq<Seq<Seq<bool>>>, x: int, y: int, z: int, k: int)
    requires
        0 <= k < 3,
    ensures
        row_prefix(cells, x, y, z, 0) == 0,
        row_prefix(cells, x, y, z, k + 1) == row_prefix(cells, x, y, z, k) + live(
            cells,
            x + k - 1,
            y,
            z,
        ),
        row_prefix(cells, x, y, z, 3) == live_in_row(cells, x, y, z),
{
    reveal(row_prefix);
}

/// How the count over a plane grows row by row.
proof fn lemma_plane_prefix(cells: Seq<Seq<Seq<bool>>>, x: int, y: int, z: int, k: int)
    requires
        0 <= k < 3,
    ensures
        plane_prefix(cells, x, y, z, 0) == 0,
        plane_prefix(cells, x, y, z, k + 1) == plane_prefix(cells, x, y, z, k) + row_prefix(
            cells,
            x,
            y + k - 1,
            z,
            3,
        ),
        plane_prefix(cells, x, y, z, 3) == live_in_plane(cells, x, y, z),
{
    reveal(plane_prefix);
    lemma_row_prefix(cells, x, y + k - 1, z, 0);
}

/// How the count over a block grows plane by plane.
proof fn lemma_block_prefix(cells: Seq<Seq<Seq<bool>>>, x: int, y: int, z: int, k: int)
    requires
        0 <= k < 3,
    ensures
        block_prefix(cells, x, y, z, 0) == 0,
        block_prefix(cells, x, y, z, k + 1) == block_prefix(cells, x, y, z, k) + plane_prefix(
            cells,
            x,
            y,
            z + k - 1,
            3,
        ),
        block_prefix(cells, x, y, z, 3) == live_in_block(cells, x, y, z),
{
    reveal(block_prefix);
    reveal(live_in_block);
    lemma_plane_prefix(cells, x, y, z + k - 1, 0);
}

/// Counts the live cells among the neighbours of `(x, y, z)`: the up to 26
/// cells of the lattice that differ from it by at most one on each axis. A
/// neighbour position outside the lattice is skipped, never read.
pub fn count_live_neighbors(grid: &Vec<Vec<Vec<bool>>>, x: usize, y: usize, z: usize) -> (count: usize)
    requires
        is_cube(cells_of(*grid), grid@.len() as nat),
    ensures
        count == live_neighbors(cells_of(*grid), x as int, y as int, z as int),
        count <= neighbor_positions(grid@.len() as nat, x as int, y as int, z as int),
        count <= 26,
{
    let n = grid.len();
    let ghost cells = cells_of(*grid);
    let ghost centre = live(cells, x as int, y as int, z as int);
    let mut count: usize = 0;
    let mut dz: isize = -1;
    proof {
        lemma_block_prefix(cells, x as int, y as int, z as int, 0);
    }
    while dz <= 1
        invariant
            -1 <= dz <= 2,
            n == grid@.len(),
            cells == cells_of(*grid),
            centre == live(cells, x as int, y as int, z as int),
            is_cube(cells, n as nat),
            count + (if dz > 0 { centre } else { 0 }) == block_prefix(
                cells,
                x as int,
                y as int,
                z as int,
                dz + 1,
            ),
            count <= 9 * (dz + 1),
        decreases 2 - dz,
    {
        let ghost planes = block_prefix(cells, x as int, y as int, z as int, dz + 1);
        let mut dy: isize = -1;
        proof {
            lemma_plane_prefix(cells, x as int, y as int, z + dz, 0);
        }
        while dy <= 1
            invariant
                -1 <= dz <= 1,
                -1 <= dy <= 2,
                n == grid@.len(),
                cells == cells_of(*grid),
                centre == live(cells, x as int, y as int, z as int),
                is_cube(cells, n as nat),
                count + (if dz > 0 || (dz == 0 && dy > 0) { centre } else { 0 }) == planes
                    + plane_prefix(cells, x as int, y as int, z + dz, dy + 1),
                count <= 9 * (dz + 1) + 3 * (dy + 1),
            decreases 2 - dy,
        {
            let ghost rows = planes + plane_prefix(cells, x as int, y as int, z + dz, dy + 1);
            let mut dx: isize = -1;
            proof {
                lemma_row_prefix(cells, x as int, y + dy, z + dz, 0);
            }
            while dx <= 1
                invariant
                    -1 <= dz <= 1,
                    -1 <= dy <= 1,
                    -1 <= dx <= 2,
                    n == grid@.len(),
                    cells == cells_of(*grid),
                    centre == live(cells, x as int, y as int, z as int),
                    is_cube(cells, n as nat),
                    count + (if dz > 0 || (dz == 0 && (dy > 0 || (dy == 0 && dx > 0))) {
                        centre
                    } else {
                        0
                    }) == rows + row_prefix(cells, x as int, y + dy, z + dz, dx + 1),
                    count <= 9 * (dz + 1) + 3 * (dy + 1) + (dx + 1),
                decreases 2 - dx,
            {
                proof {
                    lemma_row_prefix(cells, x as int, y + dy, z + dz, dx + 1);
                }
                if !(dx == 0 && dy == 0 && dz == 0) {
                    match (
                        neighbor_coordinate(x, dx, n),
                        neighbor_coordinate(y, dy, n),
                        neighbor_coordinate(z, dz, n),
                    ) {
                        (Some(nx), Some(ny), Some(nz)) => {
                            if grid[nx][ny][nz] {
                                count += 1;
                            }
                        },
                        _ => {},
                    }
                }
                dx += 1;
            }
            proof {
                lemma_plane_prefix(cells, x as int, y as int, z + dz, dy + 1);
            }
            dy += 1;
        }
        proof {
            lemma_block_prefix(cells, x as int, y as int, z as int, dz + 1);
        }
        dz += 1;
    }
    proof {
        lemma_live_within(cells, n as nat, x as int, y as int, z as int);
    }
    count
}

} // verus!
