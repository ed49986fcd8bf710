//! The playing field boundary: wall collision against the head's
//! continuous position.

use vstd::prelude::*;

use crate::grid::{round_idx, Grid, MAX_POS_INDEX};
use crate::snake::Position;

verus! {

/// The run ends when the cell under the head's continuous position is not
/// strictly inside the walls.
pub fn snake_hits_wall(grid: &Grid, pos: &Position) -> (over: bool)
    requires
        grid.wf(),
        -(MAX_POS_INDEX * grid.cell_size) <= pos.x as int <= MAX_POS_INDEX * grid.cell_size,
        -(MAX_POS_INDEX * grid.cell_size) <= pos.y as int <= MAX_POS_INDEX * grid.cell_size,
    ensures
        over == !grid.spec_inside(
            round_idx(pos.x as int, grid.cell_size as int),
            round_idx(pos.y as int, grid.cell_size as int),
        ),
{
    let cell = grid.get_cell_from_position(pos.x, pos.y);
    !grid.is_inside_walls(cell.idx_x, cell.idx_y)
}

} // verus!
