//! Core of a real-time grid snake simulation: continuous-to-discrete cell
//! mapping, per-tick trace reconstruction, body following, collision and
//! food placement, and score/speed progression.
//!
//! Continuous quantities are fixed-point integers: lengths in subunits
//! (one cell edge is `cell_size` subunits), speeds in thousandths of a
//! cell edge per second, time in milliseconds.

use vstd::prelude::*;

pub mod apples;
pub mod grid;
pub mod playground;
pub mod score;
pub mod snake;

use crate::grid::Grid;
use crate::snake::{Position, MAX_SPEED_MILLI};

verus! {

/// Startup configuration, consumed when the grid and the snake are built.
pub struct Config {
    /// Cell count per axis; an even count is silently bumped to the next
    /// odd one so the grid is symmetric about the origin.
    pub n_vertical_cells: u32,
    pub n_horizontal_cells: u32,
    pub initial_bodylength: u32,
    /// Initial speed in thousandths of a cell edge per second.
    pub initial_speed_milli: u64,
    pub n_elements_per_apple: u32,
    pub score_increment: u32,
}

impl Config {
    pub open spec fn wf(self) -> bool {
        &&& 2 <= self.n_vertical_cells <= 2_000_000
        &&& 2 <= self.n_horizontal_cells <= 2_000_000
        &&& 1 <= self.initial_bodylength <= 1_000_000
        &&& self.initial_speed_milli <= MAX_SPEED_MILLI
        &&& self.n_elements_per_apple <= 1_000_000
        &&& 1 <= self.score_increment <= 1_000
    }
}

impl Default for Config {
    fn default() -> (c: Config)
        ensures
            c == (Config {
                n_vertical_cells: 25,
                n_horizontal_cells: 45,
                initial_bodylength: 3,
                initial_speed_milli: 10_000,
                n_elements_per_apple: 1,
                score_increment: 1,
            }),
            c.wf(),
    {
        Config {
            n_vertical_cells: 25,
            n_horizontal_cells: 45,
            initial_bodylength: 3,
            initial_speed_milli: 10_000,
            n_elements_per_apple: 1,
            score_increment: 1,
        }
    }
}

/// After a game-over, the head's continuous position is reset to the
/// origin cell; body, score and speed are left untouched.
pub fn game_over_teleport_to_center(grid: &Grid, pos: &mut Position)
    requires
        grid.wf(),
    ensures
        final(pos).x == 0,
        final(pos).y == 0,
{
    proof {
        vstd::arithmetic::div_mod::lemma_basic_div(
            grid.cell_size as int / 2,
            grid.cell_size as int,
        );
    }
    let cell = grid.get_cell_from_position(0, 0);
    proof {
        assert(0 * grid.cell_size as int == 0) by (nonlinear_arith);
    }
    pos.x = cell.pos_x;
    pos.y = cell.pos_y;
}

} // verus!
