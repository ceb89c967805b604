use vstd::prelude::*;

use crate::clock::{ClockError, ClockView, SimulationClock};
use crate::grid::Grid;
use crate::model::{dead_board, generations, with_cell};
use vstd::arithmetic::div_mod::lemma_fundamental_div_mod_converse;

verus! {

/// What the pointer does to the cells it passes over. Paint and erase exclude
/// each other: one is taken up only while the other is not active.
#[derive(Debug, Clone, Copy, PartialEq, Eq, Structural)]
pub enum EditMode {
    Idle,
    Paint,
    Erase,
}

impl EditMode {
    /// The paint signal is pressed: painting starts unless erasing is active.
    pub fn press_paint(self) -> (r: EditMode)
        ensures
            r == (if self == EditMode::Erase {
                EditMode::Erase
            } else {
                EditMode::Paint
            }),
    {
        match self {
            EditMode::Erase => EditMode::Erase,
            _ => EditMode::Paint,
        }
    }

    /// The paint signal is released: painting stops, any other mode stays.
    pub fn release_paint(self) -> (r: EditMode)
        ensures
            r == (if self == EditMode::Paint {
                EditMode::Idle
            } else {
                self
            }),
    {
        match self {
            EditMode::Paint => EditMode::Idle,
            _ => self,
        }
    }

    /// The erase signal is pressed: erasing starts unless painting is active,
    /// in which case painting stays the mode.
    pub fn press_erase(self) -> (r: EditMode)
        ensures
            r == (if self == EditMode::Paint {
                EditMode::Paint
            } else {
                EditMode::Erase
            }),
    {
        match self {
            EditMode::Paint => EditMode::Paint,
            _ => EditMode::Erase,
        }
    }

    /// The erase signal is released: erasing stops, any other mode stays.
    pub fn release_erase(self) -> (r: EditMode)
        ensures
            r == (if self == EditMode::Erase {
                EditMode::Idle
            } else {
                self
            }),
    {
        match self {
            EditMode::Erase => EditMode::Idle,
            _ => self,
        }
    }
}

/// The cell that a pointer coordinate falls in, for cells `extent` pixels
/// wide on a board of side `n`; none when the coordinate is off the board.
pub open spec fn cell_of(p: int, extent: int, n: int) -> Option<int> {
    if p >= 0 && p / extent < n {
        Some(p / extent)
    } else {
        None
    }
}

/// Everything a controller holds: the board, the clock, whether it is paused,
/// and its settings (intervals in nanoseconds, the cell's extent in pixels).
pub ghost struct ControllerView {
    pub board: Seq<Seq<bool>>,
    pub clock: ClockView,
    pub paused: bool,
    pub normal_interval: nat,
    pub fast_interval: nat,
    pub cell_extent: nat,
}

/// Drives a board: applies edits at once, feeds frame time to the clock while
/// running, and advances one generation for each interval that has passed.
pub struct Controller {
    grid: Grid,
    clock: SimulationClock,
    paused: bool,
    normal_interval: u64,
    fast_interval: u64,
    cell_extent: u64,
}

impl View for Controller {
    type V = ControllerView;

    closed spec fn view(&self) -> ControllerView {
        ControllerView {
            board: self.grid@,
            clock: self.clock@,
            paused: self.paused,
            normal_interval: self.normal_interval as nat,
            fast_interval: self.fast_interval as nat,
            cell_extent: self.cell_extent as nat,
        }
    }
}

impl Controller {
    pub closed spec fn wf(&self) -> bool {
        &&& self.grid.wf()
        &&& self.clock.wf()
        &&& self.normal_interval > 0
        &&& self.fast_interval > 0
        &&& self.cell_extent > 0
    }

    /// A running controller over an `n` by `n` board of dead cells, at the
    /// normal interval with nothing gathered; refused when either interval
    /// is zero.
    pub fn new(n: usize, cell_extent: u64, normal_interval: u64, fast_interval: u64) -> (r: Result<
        Controller,
        ClockError,
    >)
        requires
            n > 0,
            n * n <= usize::MAX,
            cell_extent > 0,
        ensures
            (normal_interval == 0 || fast_interval == 0) <==> r is Err,
            r is Err ==> r == Err::<Controller, ClockError>(ClockError::NonPositiveInterval),
            r matches Ok(c) ==> c.wf() && c@ == (ControllerView {
                board: dead_board(n as nat),
                clock: ClockView { interval: normal_interval as nat, elapsed: 0 },
                paused: false,
                normal_interval: normal_interval as nat,
                fast_interval: fast_interval as nat,
                cell_extent: cell_extent as nat,
            }),
    {
        if fast_interval == 0 {
            return Err(ClockError::NonPositiveInterval);
        }
        match SimulationClock::new(normal_interval) {
            Err(e) => Err(e),
            Ok(clock) => Ok(
                Controller {
                    grid: Grid::new(n),
                    clock,
                    paused: false,
                    normal_interval,
                    fast_interval,
                    cell_extent,
                },
            ),
        }
    }

    /// The board, for reading.
    pub fn grid(&self) -> (r: &Grid)
        requires
            self.wf(),
        ensures
            r.wf(),
            r@ == self@.board,
    {
        &self.grid
    }

    /// The clock, for reading.
    pub fn clock(&self) -> (r: &SimulationClock)
        ensures
            r@ == self@.clock,
    {
        &self.clock
    }

    /// Whether the simulation is paused.
    pub fn is_paused(&self) -> (r: bool)
        ensures
            r == self@.paused,
    {
        self.paused
    }

    /// Pauses a running simulation or resumes a paused one; nothing else
    /// changes, so resuming finds the clock as it was left.
    pub fn toggle_pause(&mut self)
        requires
            old(self).wf(),
        ensures
            final(self).wf(),
            final(self)@ == (ControllerView { paused: !old(self)@.paused, ..old(self)@ }),
    {
        self.paused = !self.paused;
    }

    /// Makes every cell dead, paused or not.
    pub fn clear(&mut self)
        requires
            old(self).wf(),
        ensures
            final(self).wf(),
            final(self)@ == (ControllerView {
                board: dead_board(old(self)@.board.len()),
                ..old(self)@
            }),
    {
        self.grid.clear();
    }

    /// Switches the clock to the fast interval, or back to the normal one,
    /// keeping the time gathered.
    pub fn set_fast(&mut self, fast: bool)
        requires
            old(self).wf(),
        ensures
            final(self).wf(),
            final(self)@ == (ControllerView {
                clock: ClockView {
                    interval: if fast {
                        old(self)@.fast_interval
                    } else {
                        old(self)@.normal_interval
                    },
                    elapsed: old(self)@.clock.elapsed,
                },
                ..old(self)@
            }),
    {
        let interval = if fast {
            self.fast_interval
        } else {
            self.normal_interval
        };
        let _ = self.clock.set_interval(interval);
    }

    /// Applies the edit mode at pixel (px, py): when a mode is active and the
    /// pixel falls in a cell of the board, that cell is made alive by painting
    /// or dead by erasing. Returns whether a cell was written.
    pub fn apply_edit(&mut self, px: i64, py: i64, mode: EditMode) -> (applied: bool)
        requires
            old(self).wf(),
        ensures
            final(self).wf(),
            applied == (mode != EditMode::Idle && cell_of(
                px as int,
                old(self)@.cell_extent as int,
                old(self)@.board.len() as int,
            ) is Some && cell_of(
                py as int,
                old(self)@.cell_extent as int,
                old(self)@.board.len() as int,
            ) is Some),
            final(self)@ == (if applied {
                ControllerView {
                    board: with_cell(
                        old(self)@.board,
                        px as int / old(self)@.cell_extent as int,
                        py as int / old(self)@.cell_extent as int,
                        mode == EditMode::Paint,
                    ),
                    ..old(self)@
                }
            } else {
                old(self)@
            }),
    {
        if mode == EditMode::Idle || px < 0 || py < 0 {
            return false;
        }
        let n = self.grid.size();
        let cx = px as u64 / self.cell_extent;
        let cy = py as u64 / self.cell_extent;
        if cx >= n as u64 || cy >= n as u64 {
            return false;
        }
        self.grid.set(cx as usize, cy as usize, mode == EditMode::Paint);
        true
    }

    /// Feeds `delta` nanoseconds of frame time. While running, the clock
    /// gathers it and one generation is advanced for every whole interval
    /// gathered, the remainder carried over; returns how many. While paused,
    /// nothing changes: no generation is advanced and no time is gathered.
    pub fn tick(&mut self, delta: u64) -> (steps: u64)
        requires
            old(self).wf(),
            !old(self)@.paused ==> old(self)@.clock.elapsed + delta <= u64::MAX,
        ensures
            final(self).wf(),
            final(self)@.board.len() == old(self)@.board.len(),
            old(self)@.paused ==> steps == 0 && final(self)@ == old(self)@,
            !old(self)@.paused ==> {
                let total = old(self)@.clock.elapsed + delta;
                let interval = old(self)@.clock.interval;
                &&& steps == total / interval as int
                &&& final(self)@ == (ControllerView {
                    board: generations(old(self)@.board, steps as nat),
                    clock: ClockView { interval, elapsed: (total % interval as int) as nat },
                    ..old(self)@
                })
            },
    {
        if self.paused {
            return 0;
        }
        self.clock.advance(delta);
        let ghost start = self.grid@;
        let ghost total = self.clock@.elapsed as int;
        let ghost interval = self.clock@.interval as int;
        let mut steps: u64 = 0;
        loop
            invariant_except_break
                self.wf(),
                self.grid@.len() == start.len(),
                self.clock@.interval == interval,
                self.clock@.elapsed + steps * interval == total,
                self.grid@ == generations(start, steps as nat),
                total <= u64::MAX,
                interval > 0,
                self.paused == old(self).paused,
                self.normal_interval == old(self).normal_interval,
                self.fast_interval == old(self).fast_interval,
                self.cell_extent == old(self).cell_extent,
            ensures
                self.wf(),
                self.grid@.len() == start.len(),
                self.clock@.interval == interval,
                self.clock@.elapsed + steps * interval == total,
                self.clock@.elapsed < interval,
                self.grid@ == generations(start, steps as nat),
                self.paused == old(self).paused,
                self.normal_interval == old(self).normal_interval,
                self.fast_interval == old(self).fast_interval,
                self.cell_extent == old(self).cell_extent,
            decreases self.clock@.elapsed,
        {
            let ghost before = self.clock@.elapsed as int;
            if !self.clock.consume_due_step() {
                break;
            }
            self.grid.step();
            assert((steps + 1) * interval <= total) by (nonlinear_arith)
                requires
                    before + steps * interval == total,
                    before >= interval,
            ;
            assert((steps + 1) * interval == steps * interval + interval) by (nonlinear_arith);
            assert(steps + 1 <= (steps + 1) * interval) by (nonlinear_arith)
                requires
                    interval > 0,
                    steps >= 0,
            ;
            steps = steps + 1;
        }
        proof {
            lemma_fundamental_div_mod_converse(
                total,
                interval,
                steps as int,
                self.clock@.elapsed as int,
            );
        }
        steps
    }
}

} // verus!
