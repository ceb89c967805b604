use vstd::prelude::*;

use crate::model::{dead_board, is_square, live, neighbour_count, next_cell, next_generation, with_cell};
use vstd::arithmetic::div_mod::lemma_fundamental_div_mod_converse;

verus! {

/// A square board of `n` by `n` cells, held row after row in one buffer:
/// the cell at (x, y) is `cells[y * n + x]`.
pub struct Grid {
    n: usize,
    cells: Vec<bool>,
}

/// Where (x, y) sits in the buffer of a board of side `n`.
proof fn lemma_index(n: int, x: int, y: int)
    requires
        0 <= x < n,
        0 <= y < n,
    ensures
        0 <= y * n + x < n * n,
        (y * n + x) / n == y,
        (y * n + x) % n == x,
{
    assert(0 <= y * n + x < n * n) by (nonlinear_arith)
        requires
            0 <= x < n,
            0 <= y < n,
    ;
    lemma_fundamental_div_mod_converse(y * n + x, n, y, x);
}

/// A buffer of `len` dead cells.
fn dead_cells(len: usize) -> (r: Vec<bool>)
    ensures
        r@ == Seq::new(len as nat, |i: int| false),
{
    let mut r: Vec<bool> = Vec::new();
    let mut i: usize = 0;
    while i < len
        invariant
            i <= len,
            r@ == Seq::new(i as nat, |j: int| false),
        decreases len - i,
    {
        r.push(false);
        i += 1;
        assert(r@ =~= Seq::new(i as nat, |j: int| false));
    }
    r
}

impl View for Grid {
    type V = Seq<Seq<bool>>;

    closed spec fn view(&self) -> Seq<Seq<bool>> {
        Seq::new(
            self.n as nat,
            |y: int| Seq::new(self.n as nat, |x: int| self.cells@[y * self.n + x]),
        )
    }
}

impl Grid {
    /// The buffer holds exactly `n * n` cells, and `n` is not zero.
    pub closed spec fn wf(&self) -> bool {
        self.n > 0 && self.cells.len() == self.n * self.n
    }

    /// A valid grid is a square, non-empty board.
    pub proof fn lemma_wf_square(&self)
        requires
            self.wf(),
        ensures
            self@.len() > 0,
            is_square(self@),
    {
    }

    /// A board of `n` by `n` dead cells.
    pub fn new(n: usize) -> (g: Grid)
        requires
            n > 0,
            n * n <= usize::MAX,
        ensures
            g.wf(),
            g@ == dead_board(n as nat),
    {
        let g = Grid { n, cells: dead_cells(n * n) };
        proof {
            assert forall|yy: int, xx: int| 0 <= yy < n && 0 <= xx < n implies
                #[trigger] g@[yy][xx] == false by {
                lemma_index(n as int, xx, yy);
            }
            assert(g@ =~~= dead_board(n as nat));
        }
        g
    }

    /// The length of a side of the board.
    pub fn size(&self) -> (r: usize)
        ensures
            r == self@.len(),
    {
        self.n
    }

    /// Whether the cell at (x, y) is alive.
    pub fn get(&self, x: usize, y: usize) -> (r: bool)
        requires
            self.wf(),
            x < self@.len(),
            y < self@.len(),
        ensures
            r == self@[y as int][x as int],
    {
        proof {
            lemma_index(self.n as int, x as int, y as int);
        }
        self.cells[y * self.n + x]
    }

    /// Overwrites the cell at (x, y); setting a cell to the state it has
    /// changes nothing.
    pub fn set(&mut self, x: usize, y: usize, alive: bool)
        requires
            old(self).wf(),
            x < old(self)@.len(),
            y < old(self)@.len(),
        ensures
            final(self).wf(),
            final(self)@ == with_cell(old(self)@, x as int, y as int, alive),
    {
        proof {
            lemma_index(self.n as int, x as int, y as int);
        }
        let i = y * self.n + x;
        self.cells.set(i, alive);
        proof {
            let m = with_cell(old(self)@, x as int, y as int, alive);
            assert forall|yy: int, xx: int| 0 <= yy < self.n && 0 <= xx < self.n implies
                #[trigger] self@[yy][xx] == m[yy][xx] by {
                lemma_index(self.n as int, xx, yy);
                if yy * self.n + xx == i {
                    lemma_index(self.n as int, x as int, y as int);
                }
            }
            assert(self@ =~~= m);
        }
    }

    /// Makes every cell dead.
    pub fn clear(&mut self)
        requires
            old(self).wf(),
        ensures
            final(self).wf(),
            final(self)@ == dead_board(old(self)@.len()),
    {
        self.cells = dead_cells(self.n * self.n);
        proof {
            assert forall|yy: int, xx: int| 0 <= yy < self.n && 0 <= xx < self.n implies
                #[trigger] self@[yy][xx] == false by {
                lemma_index(self.n as int, xx, yy);
            }
            assert(self@ =~~= dead_board(self.n as nat));
        }
    }

    /// Whether the cell at (x + dx, y + dy) lies on the board and is alive.
    fn live_neighbour(&self, x: usize, y: usize, dx: i8, dy: i8) -> (r: bool)
        requires
            self.wf(),
            x < self@.len(),
            y < self@.len(),
            -1 <= dx <= 1,
            -1 <= dy <= 1,
        ensures
            r == live(self@, x + dx, y + dy),
    {
        let n = self.n;
        if (dx < 0 && x == 0) || (dx > 0 && x + 1 >= n) || (dy < 0 && y == 0) || (dy > 0 && y
            + 1 >= n) {
            false
        } else {
            let nx: usize = if dx < 0 {
                x - 1
            } else if dx > 0 {
                x + 1
            } else {
                x
            };
            let ny: usize = if dy < 0 {
                y - 1
            } else if dy > 0 {
                y + 1
            } else {
                y
            };
            self.get(nx, ny)
        }
    }

    /// The cells of the next generation, in buffer order.
    fn next_cells(&self) -> (r: Vec<bool>)
        requires
            self.wf(),
        ensures
            r.len() == self.n * self.n,
            forall|i: int|
                0 <= i < r.len() ==> r@[i] == next_cell(self@, i % self.n as int, i / self.n as int),
    {
        let n = self.n;
        let mut next: Vec<bool> = Vec::new();
        let mut y: usize = 0;
        while y < n
            invariant
                self.wf(),
                n == self.n,
                y <= n,
                next.len() == y * n,
                forall|i: int|
                    0 <= i < next.len() ==> next@[i] == next_cell(self@, i % n as int, i / n as int),
            decreases n - y,
        {
            let mut x: usize = 0;
            while x < n
                invariant
                    self.wf(),
                    n == self.n,
                    x <= n,
                    y < n,
                    next.len() == y * n + x,
                    forall|i: int|
                        0 <= i < next.len() ==> next@[i] == next_cell(
                            self@,
                            i % n as int,
                            i / n as int,
                        ),
                decreases n - x,
            {
                proof {
                    lemma_index(n as int, x as int, y as int);
                }
                let alive = self.get(x, y);
                let count = count_neighbours(self, x, y);
                let born = if alive {
                    2 <= count && count <= 3
                } else {
                    count == 3
                };
                next.push(born);
                x += 1;
            }
            assert(y * n + n == (y + 1) * n) by (nonlinear_arith);
            y += 1;
        }
        next
    }

    /// Replaces the board by its next generation, every cell computed from
    /// the board as it was before the call.
    pub fn step(&mut self)
        requires
            old(self).wf(),
        ensures
            final(self).wf(),
            final(self)@ == next_generation(old(self)@),
    {
        let next = self.next_cells();
        let ghost before = self@;
        self.cells = next;
        proof {
            assert forall|yy: int, xx: int| 0 <= yy < self.n && 0 <= xx < self.n implies
                #[trigger] self@[yy][xx] == next_generation(before)[yy][xx] by {
                lemma_index(self.n as int, xx, yy);
            }
            assert(self@ =~~= next_generation(before));
        }
    }
}

/// The number of live cells among the eight around (x, y); cells beyond the
/// edge of the board are absent and do not count.
pub fn count_neighbours(grid: &Grid, x: usize, y: usize) -> (r: u8)
    requires
        grid.wf(),
        x < grid@.len(),
        y < grid@.len(),
    ensures
        r as nat == neighbour_count(grid@, x as int, y as int),
{
    let mut count: u8 = 0;
    if grid.live_neighbour(x, y, -1, -1) {
        count += 1;
    }
    if grid.live_neighbour(x, y, 0, -1) {
        count += 1;
    }
    if grid.live_neighbour(x, y, 1, -1) {
        count += 1;
    }
    if grid.live_neighbour(x, y, -1, 0) {
        count += 1;
    }
    if grid.live_neighbour(x, y, 1, 0) {
        count += 1;
    }
    if grid.live_neighbour(x, y, -1, 1) {
        count += 1;
    }
    if grid.live_neighbour(x, y, 0, 1) {
        count += 1;
    }
    if grid.live_neighbour(x, y, 1, 1) {
        count += 1;
    }
    count
}

} // verus!
