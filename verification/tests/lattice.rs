use life3d::lattice::{dead_grid, linear_index, set_cell};

#[test]
fn dead_grid_is_a_cube_of_dead_cells() {
    let grid = dead_grid(5);
    assert_eq!(grid.len(), 5);
    for plane in &grid {
        assert_eq!(plane.len(), 5);
        for row in plane {
            assert_eq!(row, &vec![false; 5]);
        }
    }
    assert!(dead_grid(0).is_empty());
}

#[test]
fn set_cell_changes_one_cell_only() {
    let mut grid = dead_grid(4);
    set_cell(&mut grid, 1, 2, 3, true);
    for x in 0..4 {
        for y in 0..4 {
            for z in 0..4 {
                assert_eq!(grid[x][y][z], (x, y, z) == (1, 2, 3));
            }
        }
    }
    set_cell(&mut grid, 1, 2, 3, false);
    assert_eq!(grid, dead_grid(4));
}

#[test]
fn linear_index_walks_the_lattice_in_order() {
    assert_eq!(linear_index(0, 0, 0, 16), 0);
    assert_eq!(linear_index(0, 0, 1, 16), 1);
    assert_eq!(linear_index(0, 1, 0, 16), 16);
    assert_eq!(linear_index(1, 0, 0, 16), 256);
    assert_eq!(linear_index(1, 2, 3, 16), 291);
    assert_eq!(linear_index(15, 15, 15, 16), 4095);
    let mut expected = 0;
    for x in 0..4 {
        for y in 0..4 {
            for z in 0..4 {
                assert_eq!(linear_index(x, y, z, 4), expected);
                expected += 1;
            }
        }
    }
}
