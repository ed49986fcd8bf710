//! The single food item: initial placement, the per-tick eaten decision,
//! and relocation by rejection sampling over the cells the snake holds.

use vstd::prelude::*;

use rand::Rng;

use crate::grid::{same_cell, Cell, Grid};
use crate::snake::{trace_contains, trace_hits, Body, MoveEvent};

verus! {

/// Relies on rand::Rng::gen_range on rand::thread_rng: a value drawn
/// uniformly from the half-open range, which must not be empty.
#[verifier::external_body]
fn random_index_in(lo: i32, hi: i32) -> (r: i32)
    requires
        lo < hi,
    ensures
        lo <= r < hi,
{
    rand::thread_rng().gen_range(lo..hi)
}

/// Place the first apple: a random cell with non-negative indices below
/// the grid's half-extent.
pub fn spawn_apple(grid: &Grid) -> (c: Cell)
    requires
        grid.wf(),
    ensures
        0 <= c.idx_x < grid.max_idx_x,
        0 <= c.idx_y < grid.max_idx_y,
        c.canonical(*grid),
{
    let idx_x = random_index_in(0, grid.max_idx_x);
    let idx_y = random_index_in(0, grid.max_idx_y);
    grid.get_cell_from_index(idx_x, idx_y)
}

/// The per-tick food decision: eaten exactly when the head stands on the
/// apple's cell or the apple's cell lies on this tick's trace; at most
/// one such event per tick.
pub fn apple_eaten(ev: &MoveEvent, head_cell: &Cell, apple_cell: &Cell) -> (eaten: bool)
    ensures
        eaten == (same_cell(*head_cell, *apple_cell) || trace_hits(ev.0@, *apple_cell)),
{
    if *head_cell == *apple_cell {
        return true;
    }
    trace_contains(&ev.0, apple_cell)
}

/// Collect the cells the snake currently holds — every body segment,
/// then the head — the cells the relocated food must avoid.
pub fn find_free_cells(head_cell: &Cell, body: &Vec<(Cell, Body)>) -> (cells: Vec<Cell>)
    ensures
        cells@ == body@.map_values(|s: (Cell, Body)| s.0).push(*head_cell),
{
    let mut cells: Vec<Cell> = Vec::new();
    let mut i: usize = 0;
    while i < body.len()
        invariant
            0 <= i <= body@.len(),
            cells@.len() == i,
            forall|k: int| 0 <= k < i ==> #[trigger] cells@[k] == body@[k].0,
        decreases body@.len() - i,
    {
        cells.push(body[i].0);
        i = i + 1;
    }
    cells.push(*head_cell);
    proof {
        assert(cells@ =~= body@.map_values(|s: (Cell, Body)| s.0).push(*head_cell));
    }
    cells
}

/// Move the food to a cell drawn uniformly from the full grid extent,
/// wall ring included, that no snake cell occupies, redrawing on every
/// rejected draw.
/// Termination is probabilistic, so the redraw loop carries an
/// inexhaustible-in-practice draw budget; the result says whether the
/// food was placed, and on placement the new cell avoids every snake
/// cell.
pub fn relocate_apple(grid: &Grid, snake_cells: &Vec<Cell>, apple_cell: &mut Cell) -> (placed:
    bool)
    requires
        grid.wf(),
    ensures
        placed ==> -grid.max_idx_x <= final(apple_cell).idx_x <= grid.max_idx_x,
        placed ==> -grid.max_idx_y <= final(apple_cell).idx_y <= grid.max_idx_y,
        placed ==> final(apple_cell).canonical(*grid),
        placed ==> forall|i: int|
            0 <= i < snake_cells@.len() ==> !same_cell(
                *final(apple_cell),
                #[trigger] snake_cells@[i],
            ),
        !placed ==> *final(apple_cell) == *old(apple_cell),
{
    let mut draws_left: u64 = u64::MAX;
    let mut placed = false;
    while !placed && draws_left > 0
        invariant
            grid.wf(),
            placed ==> -grid.max_idx_x <= apple_cell.idx_x <= grid.max_idx_x,
            placed ==> -grid.max_idx_y <= apple_cell.idx_y <= grid.max_idx_y,
            placed ==> apple_cell.canonical(*grid),
            placed ==> forall|i: int|
                0 <= i < snake_cells@.len() ==> !same_cell(
                    *apple_cell,
                    #[trigger] snake_cells@[i],
                ),
            !placed ==> *apple_cell == *old(apple_cell),
        decreases draws_left,
    {
        draws_left = draws_left - 1;
        let idx_x = random_index_in(-grid.max_idx_x, grid.max_idx_x + 1);
        let idx_y = random_index_in(-grid.max_idx_y, grid.max_idx_y + 1);
        let candidate = grid.get_cell_from_index(idx_x, idx_y);

        let mut free = true;
        let mut i: usize = 0;
        while i < snake_cells.len()
            invariant
                0 <= i <= snake_cells@.len(),
                free == (forall|k: int|
                    0 <= k < i ==> !same_cell(candidate, #[trigger] snake_cells@[k])),
            decreases snake_cells@.len() - i,
        {
            if candidate == snake_cells[i] {
                free = false;
            }
            i = i + 1;
        }

        if free {
            apple_cell.set(&candidate);
            placed = true;
        }
    }
    placed
}

} // verus!
