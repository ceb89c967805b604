use game_of_life::grid::{count_neighbours, Grid};

fn live_cells(g: &Grid) -> Vec<(usize, usize)> {
    let mut out = Vec::new();
    for y in 0..g.size() {
        for x in 0..g.size() {
            if g.get(x, y) {
                out.push((x, y));
            }
        }
    }
    out
}

fn grid_with(n: usize, cells: &[(usize, usize)]) -> Grid {
    let mut g = Grid::new(n);
    for &(x, y) in cells {
        g.set(x, y, true);
    }
    g
}

#[test]
fn new_grid_is_all_dead() {
    let g = Grid::new(5);
    assert_eq!(g.size(), 5);
    assert!(live_cells(&g).is_empty());
}

#[test]
fn set_then_get() {
    let mut g = Grid::new(4);
    g.set(3, 1, true);
    assert!(g.get(3, 1));
    assert!(!g.get(1, 3));
    g.set(3, 1, false);
    assert!(!g.get(3, 1));
}

#[test]
fn set_twice_same_as_once() {
    let mut once = Grid::new(4);
    once.set(2, 2, true);
    let mut twice = Grid::new(4);
    twice.set(2, 2, true);
    twice.set(2, 2, true);
    assert!(twice.get(2, 2));
    assert_eq!(live_cells(&once), live_cells(&twice));
}

#[test]
fn clear_kills_every_cell() {
    let mut g = grid_with(3, &[(0, 0), (1, 2), (2, 2)]);
    g.clear();
    assert!(live_cells(&g).is_empty());
}

#[test]
fn neighbours_in_the_middle() {
    let g = grid_with(5, &[(1, 1), (2, 1), (3, 1), (1, 2), (3, 2), (1, 3), (2, 3), (3, 3), (2, 2)]);
    assert_eq!(count_neighbours(&g, 2, 2), 8);
    assert_eq!(count_neighbours(&g, 0, 0), 1);
    assert_eq!(count_neighbours(&g, 4, 4), 1);
    assert_eq!(count_neighbours(&g, 0, 2), 3);
}

#[test]
fn neighbours_beyond_the_edge_do_not_count() {
    let g = grid_with(3, &[(0, 0), (1, 0), (0, 1), (1, 1), (2, 2)]);
    assert_eq!(count_neighbours(&g, 0, 0), 3);
    assert_eq!(count_neighbours(&g, 2, 0), 2);
    assert_eq!(count_neighbours(&g, 2, 2), 1);
}

#[test]
fn lone_corner_cell_dies() {
    let mut g = grid_with(6, &[(0, 0)]);
    g.step();
    assert!(!g.get(0, 0));
    assert!(live_cells(&g).is_empty());
}

#[test]
fn birth_with_exactly_three() {
    let mut g = grid_with(4, &[(0, 0), (2, 0), (0, 2)]);
    g.step();
    assert!(g.get(1, 1));
}

#[test]
fn overcrowded_cell_dies() {
    let mut g = grid_with(3, &[(1, 1), (0, 0), (2, 0), (0, 2), (2, 2)]);
    g.step();
    assert!(!g.get(1, 1));
}

#[test]
fn blinker_period_two() {
    let start = vec![(1, 2), (2, 2), (3, 2)];
    let mut g = grid_with(5, &start);
    g.step();
    assert_eq!(live_cells(&g), vec![(2, 1), (2, 2), (2, 3)]);
    g.step();
    assert_eq!(live_cells(&g), start);
}

#[test]
fn block_stays_still() {
    let start = vec![(0, 0), (1, 0), (0, 1), (1, 1)];
    let mut g = grid_with(4, &start);
    for _ in 0..10 {
        g.step();
        assert_eq!(live_cells(&g), start);
    }
}

#[test]
fn glider_moves_after_four_steps() {
    let start = [(3, 2), (4, 3), (2, 4), (3, 4), (4, 4)];
    let mut g = grid_with(10, &start);
    for _ in 0..4 {
        g.step();
    }
    let mut moved: Vec<(usize, usize)> = start.iter().map(|&(x, y)| (x + 1, y + 1)).collect();
    moved.sort_by_key(|&(x, y)| (y, x));
    assert_eq!(live_cells(&g), moved);
}
