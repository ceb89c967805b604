use vstd::prelude::*;

use crate::model::{dead_board, generations, is_square, live, next_alive, next_generation, with_cell};

verus! {

/// The board `m` holds exactly the live cells that `p` picks out, and `p`
/// picks out no position off the board.
pub open spec fn shows(m: Seq<Seq<bool>>, p: spec_fn(int, int) -> bool) -> bool {
    &&& is_square(m)
    &&& forall|x: int, y: int| 0 <= x < m.len() && 0 <= y < m.len() ==> #[trigger] m[y][x] == p(x, y)
    &&& forall|x: int, y: int| #[trigger] p(x, y) ==> 0 <= x < m.len() && 0 <= y < m.len()
}

/// One when `p` picks out (x, y), zero otherwise.
pub open spec fn picked(p: spec_fn(int, int) -> bool, x: int, y: int) -> nat {
    if p(x, y) {
        1
    } else {
        0
    }
}

/// How many of the eight positions around (x, y) `p` picks out.
pub open spec fn picked_around(p: spec_fn(int, int) -> bool, x: int, y: int) -> nat {
    picked(p, x - 1, y - 1) + picked(p, x, y - 1) + picked(p, x + 1, y - 1) + picked(p, x - 1, y)
        + picked(p, x + 1, y) + picked(p, x - 1, y + 1) + picked(p, x, y + 1) + picked(p, x + 1, y + 1)
}

/// `q` is what the rule of life makes of `p` on an unbounded plane.
pub open spec fn evolves_to(p: spec_fn(int, int) -> bool, q: spec_fn(int, int) -> bool) -> bool {
    forall|x: int, y: int| #[trigger] q(x, y) == next_alive(p(x, y), picked_around(p, x, y))
}

/// A pattern that stays on the board evolves on it as on an unbounded plane.
proof fn lemma_next_shows(m: Seq<Seq<bool>>, p: spec_fn(int, int) -> bool, q: spec_fn(int, int) -> bool)
    requires
        shows(m, p),
        evolves_to(p, q),
        forall|x: int, y: int| #[trigger] q(x, y) ==> 0 <= x < m.len() && 0 <= y < m.len(),
    ensures
        shows(next_generation(m), q),
{
    let next = next_generation(m);
    assert forall|x: int, y: int| #[trigger] live(m, x, y) == p(x, y) by {
        if 0 <= x < m.len() && 0 <= y < m.len() {
            assert(m[y][x] == p(x, y));
        }
    }
    assert forall|x: int, y: int| 0 <= x < next.len() && 0 <= y < next.len() implies #[trigger] next[y][x]
        == q(x, y) by {
        assert(q(x, y) == next_alive(p(x, y), picked_around(p, x, y)));
    }
}

/// Two boards of one size that show the same pattern are equal.
proof fn lemma_shows_unique(a: Seq<Seq<bool>>, b: Seq<Seq<bool>>, p: spec_fn(int, int) -> bool)
    requires
        shows(a, p),
        shows(b, p),
        a.len() == b.len(),
    ensures
        a == b,
{
    assert forall|y: int| 0 <= y < a.len() implies #[trigger] a[y] == b[y] by {
        assert forall|x: int| 0 <= x < a.len() implies a[y][x] == b[y][x] by {
            assert(a[y][x] == p(x, y));
            assert(b[y][x] == p(x, y));
        }
        assert(a[y] =~= b[y]);
    }
    assert(a =~= b);
}

/// The cells of a glider in each of its four phases, relative to the corner
/// (x, y) of the box it starts in; the fifth phase is the first one moved
/// one cell right and one cell down.
pub open spec fn glider_phase(k: int, x: int, y: int) -> bool {
    if k == 0 {
        (x == 1 && y == 0) || (x == 2 && y == 1) || (x == 0 && y == 2) || (x == 1 && y == 2) || (x
            == 2 && y == 2)
    } else if k == 1 {
        (x == 0 && y == 1) || (x == 2 && y == 1) || (x == 1 && y == 2) || (x == 2 && y == 2) || (x
            == 1 && y == 3)
    } else if k == 2 {
        (x == 2 && y == 1) || (x == 0 && y == 2) || (x == 2 && y == 2) || (x == 1 && y == 3) || (x
            == 2 && y == 3)
    } else {
        (x == 1 && y == 1) || (x == 2 && y == 2) || (x == 3 && y == 2) || (x == 1 && y == 3) || (x
            == 2 && y == 3)
    }
}

/// A glider whose starting box has its corner at (px, py), in phase `k`.
pub open spec fn glider_at(k: int, px: int, py: int) -> spec_fn(int, int) -> bool {
    |x: int, y: int| glider_phase(k, x - px, y - py)
}

proof fn lemma_glider_phase_0(px: int, py: int)
    ensures
        evolves_to(glider_at(0, px, py), glider_at(1, px, py)),
{
    assert forall|x: int, y: int| #[trigger] glider_at(1, px, py)(x, y) == next_alive(
        glider_at(0, px, py)(x, y),
        picked_around(glider_at(0, px, py), x, y),
    ) by {}
}

proof fn lemma_glider_phase_1(px: int, py: int)
    ensures
        evolves_to(glider_at(1, px, py), glider_at(2, px, py)),
{
    assert forall|x: int, y: int| #[trigger] glider_at(2, px, py)(x, y) == next_alive(
        glider_at(1, px, py)(x, y),
        picked_around(glider_at(1, px, py), x, y),
    ) by {}
}

proof fn lemma_glider_phase_2(px: int, py: int)
    ensures
        evolves_to(glider_at(2, px, py), glider_at(3, px, py)),
{
    assert forall|x: int, y: int| #[trigger] glider_at(3, px, py)(x, y) == next_alive(
        glider_at(2, px, py)(x, y),
        picked_around(glider_at(2, px, py), x, y),
    ) by {}
}

proof fn lemma_glider_phase_3(px: int, py: int)
    ensures
        evolves_to(glider_at(3, px, py), glider_at(0, px + 1, py + 1)),
{
    assert forall|x: int, y: int| #[trigger] glider_at(0, px + 1, py + 1)(x, y) == next_alive(
        glider_at(3, px, py)(x, y),
        picked_around(glider_at(3, px, py), x, y),
    ) by {}
}

/// A glider that starts away from the edges of the board comes back in its
/// own shape after four generations, moved one cell right and one cell down.
pub proof fn glider_moves_diagonally(m: Seq<Seq<bool>>, px: int, py: int)
    requires
        shows(m, glider_at(0, px, py)),
        0 <= px,
        0 <= py,
        px + 4 <= m.len(),
        py + 4 <= m.len(),
    ensures
        shows(generations(m, 4), glider_at(0, px + 1, py + 1)),
{
    let g1 = generations(m, 1);
    let g2 = generations(m, 2);
    let g3 = generations(m, 3);
    assert(generations(m, 0) == m);
    assert(g1 == next_generation(m));
    assert(g2 == next_generation(g1));
    assert(g3 == next_generation(g2));
    assert(generations(m, 4) == next_generation(g3));
    lemma_glider_phase_0(px, py);
    lemma_glider_phase_1(px, py);
    lemma_glider_phase_2(px, py);
    lemma_glider_phase_3(px, py);
    lemma_next_shows(m, glider_at(0, px, py), glider_at(1, px, py));
    lemma_next_shows(g1, glider_at(1, px, py), glider_at(2, px, py));
    lemma_next_shows(g2, glider_at(2, px, py), glider_at(3, px, py));
    lemma_next_shows(g3, glider_at(3, px, py), glider_at(0, px + 1, py + 1));
}

/// Three live cells in a row, starting at (px, py), lying flat.
pub open spec fn blinker_flat(px: int, py: int) -> spec_fn(int, int) -> bool {
    |x: int, y: int| y == py && px <= x <= px + 2
}

/// Three live cells in a column through the middle of the flat blinker.
pub open spec fn blinker_upright(px: int, py: int) -> spec_fn(int, int) -> bool {
    |x: int, y: int| x == px + 1 && py - 1 <= y <= py + 1
}

proof fn lemma_blinker_turns(px: int, py: int)
    ensures
        evolves_to(blinker_flat(px, py), blinker_upright(px, py)),
        evolves_to(blinker_upright(px, py), blinker_flat(px, py)),
{
    assert forall|x: int, y: int| #[trigger] blinker_upright(px, py)(x, y) == next_alive(
        blinker_flat(px, py)(x, y),
        picked_around(blinker_flat(px, py), x, y),
    ) by {}
    assert forall|x: int, y: int| #[trigger] blinker_flat(px, py)(x, y) == next_alive(
        blinker_upright(px, py)(x, y),
        picked_around(blinker_upright(px, py), x, y),
    ) by {}
}

/// A flat line of three cells, with room on the board to stand upright,
/// stands upright after one generation and is back as it was after two.
pub proof fn blinker_has_period_two(m: Seq<Seq<bool>>, px: int, py: int)
    requires
        shows(m, blinker_flat(px, py)),
        0 <= px,
        px + 3 <= m.len(),
        1 <= py,
        py + 2 <= m.len(),
    ensures
        shows(generations(m, 1), blinker_upright(px, py)),
        generations(m, 2) == m,
{
    let g1 = generations(m, 1);
    assert(generations(m, 0) == m);
    assert(g1 == next_generation(m));
    assert(generations(m, 2) == next_generation(g1));
    lemma_blinker_turns(px, py);
    lemma_next_shows(m, blinker_flat(px, py), blinker_upright(px, py));
    lemma_next_shows(g1, blinker_upright(px, py), blinker_flat(px, py));
    lemma_shows_unique(generations(m, 2), m, blinker_flat(px, py));
}

/// A two by two square of live cells with its corner at (px, py).
pub open spec fn block_at(px: int, py: int) -> spec_fn(int, int) -> bool {
    |x: int, y: int| px <= x <= px + 1 && py <= y <= py + 1
}

proof fn lemma_block_steady(px: int, py: int)
    ensures
        evolves_to(block_at(px, py), block_at(px, py)),
{
    assert forall|x: int, y: int| #[trigger] block_at(px, py)(x, y) == next_alive(
        block_at(px, py)(x, y),
        picked_around(block_at(px, py), x, y),
    ) by {}
}

/// A two by two block anywhere on the board, edges and corners included, is
/// left as it is by any number of generations.
pub proof fn block_is_still(m: Seq<Seq<bool>>, px: int, py: int, k: nat)
    requires
        shows(m, block_at(px, py)),
        0 <= px,
        px + 2 <= m.len(),
        0 <= py,
        py + 2 <= m.len(),
    ensures
        generations(m, k) == m,
    decreases k,
{
    if k > 0 {
        block_is_still(m, px, py, (k - 1) as nat);
        lemma_block_steady(px, py);
        lemma_next_shows(m, block_at(px, py), block_at(px, py));
        lemma_shows_unique(next_generation(m), m, block_at(px, py));
    }
}

/// A single live cell in the corner at (0, 0) dies in the next generation,
/// and the board is then empty.
pub proof fn lone_corner_cell_dies(m: Seq<Seq<bool>>)
    requires
        shows(m, |x: int, y: int| x == 0 && y == 0),
    ensures
        next_generation(m) == dead_board(m.len()),
        !next_generation(m)[0][0],
{
    let corner = |x: int, y: int| x == 0 && y == 0;
    let nothing = |x: int, y: int| false;
    assert(evolves_to(corner, nothing)) by {
        assert forall|x: int, y: int| #[trigger] nothing(x, y) == next_alive(
            corner(x, y),
            picked_around(corner, x, y),
        ) by {}
    }
    assert(corner(0, 0));
    lemma_next_shows(m, corner, nothing);
    let dead = dead_board(m.len());
    assert(shows(dead, nothing));
    lemma_shows_unique(next_generation(m), dead, nothing);
}

/// Writing a cell twice with the same state leaves the board as writing it
/// once does.
pub proof fn set_twice_is_set_once(m: Seq<Seq<bool>>, x: int, y: int, alive: bool)
    requires
        is_square(m),
        0 <= x < m.len(),
        0 <= y < m.len(),
    ensures
        with_cell(with_cell(m, x, y, alive), x, y, alive) == with_cell(m, x, y, alive),
{
    let once = with_cell(m, x, y, alive);
    assert(once[y].update(x, alive) =~= once[y]);
    assert(once.update(y, once[y]) =~= once);
}

} // verus!
