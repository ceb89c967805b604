use vstd::prelude::*;

verus! {

/// The rule of life for one cell: a dead cell with exactly three live
/// neighbours is born, a live cell with two or three live neighbours survives,
/// and every other cell is dead in the next generation.
pub open spec fn next_alive(alive: bool, count: nat) -> bool {
    if alive {
        2 <= count <= 3
    } else {
        count == 3
    }
}

/// A board is a sequence of rows, all as long as there are rows.
pub open spec fn is_square(m: Seq<Seq<bool>>) -> bool {
    forall|y: int| 0 <= y < m.len() ==> #[trigger] m[y].len() == m.len()
}

/// The board with `n` rows of `n` dead cells.
pub open spec fn dead_board(n: nat) -> Seq<Seq<bool>> {
    Seq::new(n, |y: int| Seq::new(n, |x: int| false))
}

/// Whether (x, y) lies on the board and holds a live cell; a position off the
/// board is never alive.
pub open spec fn live(m: Seq<Seq<bool>>, x: int, y: int) -> bool {
    0 <= y < m.len() && 0 <= x < m[y].len() && m[y][x]
}

/// One for a live cell at (x, y), zero otherwise.
pub open spec fn live_count(m: Seq<Seq<bool>>, x: int, y: int) -> nat {
    if live(m, x, y) {
        1
    } else {
        0
    }
}

/// The number of live cells among the eight cells around (x, y).
pub open spec fn neighbour_count(m: Seq<Seq<bool>>, x: int, y: int) -> nat {
    live_count(m, x - 1, y - 1) + live_count(m, x, y - 1) + live_count(m, x + 1, y - 1)
        + live_count(m, x - 1, y) + live_count(m, x + 1, y)
        + live_count(m, x - 1, y + 1) + live_count(m, x, y + 1) + live_count(m, x + 1, y + 1)
}

/// The state of (x, y) in the generation after `m`.
pub open spec fn next_cell(m: Seq<Seq<bool>>, x: int, y: int) -> bool {
    next_alive(live(m, x, y), neighbour_count(m, x, y))
}

/// The generation after `m`, every cell computed from `m` alone.
pub open spec fn next_generation(m: Seq<Seq<bool>>) -> Seq<Seq<bool>> {
    Seq::new(m.len(), |y: int| Seq::new(m.len(), |x: int| next_cell(m, x, y)))
}

/// The board `k` generations after `m`.
pub open spec fn generations(m: Seq<Seq<bool>>, k: nat) -> Seq<Seq<bool>>
    decreases k,
{
    if k == 0 {
        m
    } else {
        next_generation(generations(m, (k - 1) as nat))
    }
}

/// `m` with the cell at (x, y) overwritten by `alive`.
pub open spec fn with_cell(m: Seq<Seq<bool>>, x: int, y: int, alive: bool) -> Seq<Seq<bool>> {
    m.update(y, m[y].update(x, alive))
}

} // verus!
