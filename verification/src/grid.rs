//! The playing field: a bounded grid of discrete cells, symmetric about the
//! origin, together with the conversion between continuous coordinates and
//! cell indices.

use vstd::prelude::*;
use vstd::arithmetic::div_mod::{
    lemma_basic_div, lemma_hoist_over_denominator, lemma_multiply_divide_lt,
};
use vstd::std_specs::cmp::PartialEqSpec;

verus! {

/// Largest admissible half-extent of the grid, in cells.
pub const MAX_GRID_INDEX: i32 = 1_000_000;

/// Largest admissible edge length of one cell, in subunits.
pub const MAX_CELL_SIZE: i64 = 1_000_000_000;

/// Largest cell index (in absolute value) that position-to-cell conversion
/// may produce; keeps all coordinate arithmetic inside `i64`.
pub const MAX_POS_INDEX: i64 = 2_000_000_000;

/// The grid: cells are indexed from `-max_idx` to `+max_idx` on each axis;
/// the ring at `±max_idx` is wall, the strict inside is playable.
pub struct Grid {
    pub max_idx_x: i32,
    pub max_idx_y: i32,
    /// Edge length of one cell in subunits (the continuous resolution).
    pub cell_size: i64,
}

/// One grid cell. Identity is the index pair alone; the continuous
/// coordinates are a cached projection (`idx * cell_size`).
#[derive(Clone, Copy)]
pub struct Cell {
    pub pos_x: i64,
    pub pos_y: i64,
    pub idx_x: i32,
    pub idx_y: i32,
}

/// Cell identity: the index pair and nothing else.
pub open spec fn same_cell(a: Cell, b: Cell) -> bool {
    a.idx_x == b.idx_x && a.idx_y == b.idx_y
}

/// Both indices stay within the range that position-to-cell conversion can
/// produce, so coordinate arithmetic on the cell cannot overflow.
pub open spec fn cell_idx_bounded(c: Cell) -> bool {
    &&& -MAX_POS_INDEX <= c.idx_x as int <= MAX_POS_INDEX
    &&& -MAX_POS_INDEX <= c.idx_y as int <= MAX_POS_INDEX
}

impl PartialEq for Cell {
    fn eq(&self, other: &Self) -> bool {
        self.idx_x == other.idx_x && self.idx_y == other.idx_y
    }
}

impl vstd::std_specs::cmp::PartialEqSpecImpl for Cell {
    open spec fn obeys_eq_spec() -> bool {
        true
    }

    open spec fn eq_spec(&self, other: &Cell) -> bool {
        same_cell(*self, *other)
    }
}

/// Two cells with the same indices compare equal no matter what their
/// cached continuous coordinates hold.
pub proof fn lemma_cell_equality_is_index_only(a: Cell, b: Cell)
    requires
        a.idx_x == b.idx_x,
        a.idx_y == b.idx_y,
    ensures
        a.eq_spec(&b),
        b.eq_spec(&a),
{
}

/// Nearest integer to `pos / size`, halves rounded away from zero.
pub open spec fn round_idx(pos: int, size: int) -> int
    recommends
        1 <= size,
{
    if pos >= 0 {
        (pos + size / 2) / size
    } else {
        -((-pos + size / 2) / size)
    }
}

impl Cell {
    /// The cached continuous coordinates agree with the indices.
    pub open spec fn canonical(self, g: Grid) -> bool {
        self.pos_x == self.idx_x * g.cell_size && self.pos_y == self.idx_y * g.cell_size
    }

    /// Copy every field of `other` into `self`.
    pub fn set(&mut self, other: &Cell)
        ensures
            *final(self) == *other,
    {
        self.pos_x = other.pos_x;
        self.pos_y = other.pos_y;
        self.idx_x = other.idx_x;
        self.idx_y = other.idx_y;
    }
}

impl Grid {
    pub open spec fn wf(self) -> bool {
        &&& 1 <= self.max_idx_x <= MAX_GRID_INDEX
        &&& 1 <= self.max_idx_y <= MAX_GRID_INDEX
        &&& 1 <= self.cell_size <= MAX_CELL_SIZE
    }

    /// The inside-the-walls test as a predicate over indices.
    pub open spec fn spec_inside(self, ix: int, iy: int) -> bool {
        -self.max_idx_x < ix < self.max_idx_x && -self.max_idx_y < iy < self.max_idx_y
    }

    pub fn is_inside_walls(&self, idx_x: i32, idx_y: i32) -> (r: bool)
        requires
            self.wf(),
        ensures
            r == self.spec_inside(idx_x as int, idx_y as int),
    {
        idx_x > -self.max_idx_x && idx_x < self.max_idx_x && idx_y > -self.max_idx_y && idx_y
            < self.max_idx_y
    }

    pub fn get_cell_from_index(&self, idx_x: i32, idx_y: i32) -> (c: Cell)
        requires
            self.wf(),
            -MAX_POS_INDEX <= idx_x as int <= MAX_POS_INDEX,
            -MAX_POS_INDEX <= idx_y as int <= MAX_POS_INDEX,
        ensures
            c.idx_x == idx_x,
            c.idx_y == idx_y,
            c.canonical(*self),
    {
        proof {
            lemma_abs_mul_bound(idx_x as int, self.cell_size as int);
            lemma_abs_mul_bound(idx_y as int, self.cell_size as int);
        }
        let pos_x: i64 = (idx_x as i64) * self.cell_size;
        let pos_y: i64 = (idx_y as i64) * self.cell_size;
        Cell { pos_x, pos_y, idx_x, idx_y }
    }

    pub fn get_cell_from_position(&self, pos_x: i64, pos_y: i64) -> (c: Cell)
        requires
            self.wf(),
            -(MAX_POS_INDEX * self.cell_size) <= pos_x as int <= MAX_POS_INDEX * self.cell_size,
            -(MAX_POS_INDEX * self.cell_size) <= pos_y as int <= MAX_POS_INDEX * self.cell_size,
        ensures
            c.idx_x as int == round_idx(pos_x as int, self.cell_size as int),
            c.idx_y as int == round_idx(pos_y as int, self.cell_size as int),
            cell_idx_bounded(c),
            c.canonical(*self),
    {
        let ix: i32 = self.round_one(pos_x);
        let iy: i32 = self.round_one(pos_y);
        self.get_cell_from_index(ix, iy)
    }

    /// Round one coordinate to its nearest cell index, halves away from zero.
    fn round_one(&self, pos: i64) -> (ix: i32)
        requires
            self.wf(),
            -(MAX_POS_INDEX * self.cell_size) <= pos as int <= MAX_POS_INDEX * self.cell_size,
        ensures
            ix as int == round_idx(pos as int, self.cell_size as int),
            -MAX_POS_INDEX <= ix as int <= MAX_POS_INDEX,
    {
        let size: u64 = self.cell_size as u64;
        let half: u64 = size / 2;
        let mag: u64 = if pos >= 0 {
            pos as u64
        } else {
            proof {
                lemma_abs_mul_bound(MAX_POS_INDEX as int, self.cell_size as int);
            }
            (-pos) as u64
        };
        proof {
            lemma_abs_mul_bound(MAX_POS_INDEX as int, self.cell_size as int);
            lemma_round_magnitude_bound(mag as int, self.cell_size as int, MAX_POS_INDEX as int);
        }
        let q: u64 = (mag + half) / size;
        if pos >= 0 {
            q as i32
        } else {
            -(q as i32)
        }
    }
}

/// For `|i| <= MAX_POS_INDEX` and `1 <= s <= MAX_CELL_SIZE` the product
/// `i * s` stays within `MAX_POS_INDEX * MAX_CELL_SIZE`.
proof fn lemma_abs_mul_bound(i: int, s: int)
    requires
        -MAX_POS_INDEX <= i <= MAX_POS_INDEX,
        1 <= s <= MAX_CELL_SIZE,
    ensures
        -(MAX_POS_INDEX * MAX_CELL_SIZE) <= i * s <= MAX_POS_INDEX * MAX_CELL_SIZE,
        -(MAX_POS_INDEX * s) <= i * s <= MAX_POS_INDEX * s,
{
    assert(-(2_000_000_000 * s) <= i * s <= 2_000_000_000 * s && 2_000_000_000 * s <= 2_000_000_000
        * 1_000_000_000) by (nonlinear_arith)
        requires
            -2_000_000_000 <= i <= 2_000_000_000,
            1 <= s <= 1_000_000_000,
    ;
}

/// A magnitude of at most `m * s` rounds to an index of at most `m`.
proof fn lemma_round_magnitude_bound(mag: int, s: int, m: int)
    requires
        1 <= s,
        1 <= m,
        0 <= mag <= m * s,
    ensures
        0 <= (mag + s / 2) / s <= m,
{
    assert(mag + s / 2 < s * (m + 1)) by (nonlinear_arith)
        requires
            1 <= s,
            mag <= m * s,
    ;
    lemma_multiply_divide_lt(mag + s / 2, s, m + 1);
    vstd::arithmetic::div_mod::lemma_div_pos_is_pos(mag + s / 2, s);
}

/// Converting the canonical coordinate of an index back to an index is the
/// identity: `round_idx(i * s, s) == i`.
pub proof fn lemma_round_idx_of_canonical(i: int, s: int)
    requires
        1 <= s,
    ensures
        round_idx(i * s, s) == i,
{
    lemma_basic_div(s / 2, s);
    if i >= 0 {
        assert(i * s >= 0) by (nonlinear_arith)
            requires
                i >= 0,
                s >= 1,
        ;
        lemma_hoist_over_denominator(s / 2, i, s as nat);
        assert((s / 2 + i * s) / s == i);
        assert(i * s + s / 2 == s / 2 + i * s);
    } else {
        assert(i * s < 0) by (nonlinear_arith)
            requires
                i < 0,
                s >= 1,
        ;
        assert(-(i * s) == (-i) * s) by (nonlinear_arith);
        lemma_hoist_over_denominator(s / 2, -i, s as nat);
        assert((s / 2 + (-i) * s) / s == -i);
    }
}

/// Deriving a cell index from a position and re-deriving it from that
/// cell's canonical coordinates gives the same index: index derivation is
/// idempotent.
pub proof fn lemma_index_derivation_idempotent(g: Grid, x: int, y: int)
    requires
        g.wf(),
        -(MAX_POS_INDEX * g.cell_size) <= x <= MAX_POS_INDEX * g.cell_size,
        -(MAX_POS_INDEX * g.cell_size) <= y <= MAX_POS_INDEX * g.cell_size,
    ensures
        round_idx(round_idx(x, g.cell_size as int) * g.cell_size, g.cell_size as int) == round_idx(
            x,
            g.cell_size as int,
        ),
        round_idx(round_idx(y, g.cell_size as int) * g.cell_size, g.cell_size as int) == round_idx(
            y,
            g.cell_size as int,
        ),
{
    lemma_round_idx_of_canonical(round_idx(x, g.cell_size as int), g.cell_size as int);
    lemma_round_idx_of_canonical(round_idx(y, g.cell_size as int), g.cell_size as int);
}


/// An even cell count is bumped to the next odd one, so the grid is
/// symmetric about the origin.
pub open spec fn bump_odd(n: int) -> int {
    if n % 2 == 0 {
        n + 1
    } else {
        n
    }
}

/// Number of wall cells: both full-height columns plus both rows without
/// their corners.
pub open spec fn wall_count(g: Grid) -> int {
    4 * g.max_idx_x + 4 * g.max_idx_y
}

/// The x index of the `j`-th wall cell, in enumeration order: the column
/// at `-max_idx_x` bottom to top, the column at `+max_idx_x`, then the
/// rows at `-max_idx_y` and `+max_idx_y` left to right without corners.
pub open spec fn wall_idx_x(g: Grid, j: int) -> int {
    let h = 2 * g.max_idx_y + 1;
    let w = 2 * g.max_idx_x - 1;
    if j < h {
        -g.max_idx_x as int
    } else if j < 2 * h {
        g.max_idx_x as int
    } else if j < 2 * h + w {
        -g.max_idx_x + 1 + (j - 2 * h)
    } else {
        -g.max_idx_x + 1 + (j - 2 * h - w)
    }
}

/// The y index of the `j`-th wall cell.
pub open spec fn wall_idx_y(g: Grid, j: int) -> int {
    let h = 2 * g.max_idx_y + 1;
    let w = 2 * g.max_idx_x - 1;
    if j < h {
        -g.max_idx_y + j
    } else if j < 2 * h {
        -g.max_idx_y + (j - h)
    } else if j < 2 * h + w {
        -g.max_idx_y as int
    } else {
        g.max_idx_y as int
    }
}

impl Grid {
    /// Build the grid from continuous screen dimensions (in subunits) and
    /// requested cell counts; even counts are bumped to the next odd
    /// value, the cell edge is the smaller per-axis resolution.
    pub fn new(screen_width: i64, screen_height: i64, n_cells_x: u32, n_cells_y: u32) -> (g: Grid)
        requires
            2 <= n_cells_x <= 2_000_000,
            2 <= n_cells_y <= 2_000_000,
            n_cells_x as int + 1 <= screen_width <= MAX_CELL_SIZE,
            n_cells_y as int + 1 <= screen_height <= MAX_CELL_SIZE,
        ensures
            g.max_idx_x as int == (bump_odd(n_cells_x as int) - 1) / 2,
            g.max_idx_y as int == (bump_odd(n_cells_y as int) - 1) / 2,
            g.cell_size as int == (if screen_height as int / bump_odd(n_cells_y as int)
                <= screen_width as int / bump_odd(n_cells_x as int) {
                screen_height as int / bump_odd(n_cells_y as int)
            } else {
                screen_width as int / bump_odd(n_cells_x as int)
            }),
            g.wf(),
    {
        let nx: u32 = if n_cells_x % 2 == 0 {
            n_cells_x + 1
        } else {
            n_cells_x
        };
        let ny: u32 = if n_cells_y % 2 == 0 {
            n_cells_y + 1
        } else {
            n_cells_y
        };
        let res_x: u64 = (screen_width as u64) / (nx as u64);
        let res_y: u64 = (screen_height as u64) / (ny as u64);
        let res: u64 = if res_y <= res_x {
            res_y
        } else {
            res_x
        };
        proof {
            lemma_div_at_least_one(screen_width as int, nx as int);
            lemma_div_at_least_one(screen_height as int, ny as int);
            vstd::arithmetic::div_mod::lemma_div_nonincreasing(screen_width as int, nx as int);
            vstd::arithmetic::div_mod::lemma_div_nonincreasing(screen_height as int, ny as int);
        }
        let max_idx_x: u32 = (nx - 1) / 2;
        let max_idx_y: u32 = (ny - 1) / 2;
        Grid {
            max_idx_x: max_idx_x as i32,
            max_idx_y: max_idx_y as i32,
            cell_size: res as i64,
        }
    }

    /// Enumerate the full perimeter ring at `±max_idx_x` and `±max_idx_y`
    /// without duplicating the corners.
    pub fn get_wall(&self) -> (wall: Vec<Cell>)
        requires
            self.wf(),
        ensures
            wall@.len() == wall_count(*self),
            forall|j: int|
                0 <= j < wall@.len() ==> {
                    &&& (#[trigger] wall@[j]).idx_x as int == wall_idx_x(*self, j)
                    &&& wall@[j].idx_y as int == wall_idx_y(*self, j)
                    &&& wall@[j].canonical(*self)
                },
    {
        let mx: i32 = self.max_idx_x;
        let my: i32 = self.max_idx_y;
        let ghost h: int = 2 * my + 1;
        let ghost w: int = 2 * mx - 1;
        let mut wall: Vec<Cell> = Vec::new();

        let mut iy: i32 = -my;
        while iy <= my
            invariant
                self.wf(),
                mx == self.max_idx_x,
                my == self.max_idx_y,
                h == 2 * my + 1,
                -my <= iy <= my + 1,
                wall@.len() == iy + my,
                forall|j: int|
                    0 <= j < wall@.len() ==> {
                        &&& (#[trigger] wall@[j]).idx_x as int == wall_idx_x(*self, j)
                        &&& wall@[j].idx_y as int == wall_idx_y(*self, j)
                        &&& wall@[j].canonical(*self)
                    },
            decreases my + 1 - iy,
        {
            wall.push(self.get_cell_from_index(-mx, iy));
            iy = iy + 1;
        }

        let mut iy: i32 = -my;
        while iy <= my
            invariant
                self.wf(),
                mx == self.max_idx_x,
                my == self.max_idx_y,
                h == 2 * my + 1,
                -my <= iy <= my + 1,
                wall@.len() == h + iy + my,
                forall|j: int|
                    0 <= j < wall@.len() ==> {
                        &&& (#[trigger] wall@[j]).idx_x as int == wall_idx_x(*self, j)
                        &&& wall@[j].idx_y as int == wall_idx_y(*self, j)
                        &&& wall@[j].canonical(*self)
                    },
            decreases my + 1 - iy,
        {
            wall.push(self.get_cell_from_index(mx, iy));
            iy = iy + 1;
        }

        let mut ix: i32 = -mx + 1;
        while ix < mx
            invariant
                self.wf(),
                mx == self.max_idx_x,
                my == self.max_idx_y,
                h == 2 * my + 1,
                w == 2 * mx - 1,
                -mx + 1 <= ix <= mx,
                wall@.len() == 2 * h + (ix + mx - 1),
                forall|j: int|
                    0 <= j < wall@.len() ==> {
                        &&& (#[trigger] wall@[j]).idx_x as int == wall_idx_x(*self, j)
                        &&& wall@[j].idx_y as int == wall_idx_y(*self, j)
                        &&& wall@[j].canonical(*self)
                    },
            decreases mx - ix,
        {
            wall.push(self.get_cell_from_index(ix, -my));
            ix = ix + 1;
        }

        let mut ix: i32 = -mx + 1;
        while ix < mx
            invariant
                self.wf(),
                mx == self.max_idx_x,
                my == self.max_idx_y,
                h == 2 * my + 1,
                w == 2 * mx - 1,
                -mx + 1 <= ix <= mx,
                wall@.len() == 2 * h + w + (ix + mx - 1),
                forall|j: int|
                    0 <= j < wall@.len() ==> {
                        &&& (#[trigger] wall@[j]).idx_x as int == wall_idx_x(*self, j)
                        &&& wall@[j].idx_y as int == wall_idx_y(*self, j)
                        &&& wall@[j].canonical(*self)
                    },
            decreases mx - ix,
        {
            wall.push(self.get_cell_from_index(ix, my));
            ix = ix + 1;
        }

        wall
    }
}

/// A positive integer divided by a positive integer no larger than it is
/// at least one.
proof fn lemma_div_at_least_one(x: int, d: int)
    requires
        1 <= d <= x,
    ensures
        x / d >= 1,
{
    vstd::arithmetic::div_mod::lemma_div_by_self(d);
    vstd::arithmetic::div_mod::lemma_div_is_ordered(d, x, d);
}


/// A cell index pair lies on the wall ring: on the boundary of the grid
/// extent on at least one axis, within it on both.
pub open spec fn on_perimeter(g: Grid, x: int, y: int) -> bool {
    &&& -g.max_idx_x <= x <= g.max_idx_x
    &&& -g.max_idx_y <= y <= g.max_idx_y
    &&& (x == -g.max_idx_x || x == g.max_idx_x || y == -g.max_idx_y || y == g.max_idx_y)
}

/// The wall enumeration is exactly the perimeter ring: every enumerated
/// index pair lies on the ring, no pair repeats (the corners in
/// particular appear once), and every ring pair appears.
pub proof fn lemma_wall_is_perimeter(g: Grid)
    requires
        g.wf(),
    ensures
        forall|j: int|
            0 <= j < wall_count(g) ==> on_perimeter(
                g,
                #[trigger] wall_idx_x(g, j),
                #[trigger] wall_idx_y(g, j),
            ),
        forall|i: int, j: int|
            0 <= i < j < wall_count(g) ==> !(#[trigger] wall_idx_x(g, i) == #[trigger] wall_idx_x(
                g,
                j,
            ) && wall_idx_y(g, i) == wall_idx_y(g, j)),
        forall|x: int, y: int|
            #[trigger] on_perimeter(g, x, y) ==> exists|j: int|
                0 <= j < wall_count(g) && #[trigger] wall_idx_x(g, j) == x && wall_idx_y(g, j)
                    == y,
{
    let mx = g.max_idx_x as int;
    let my = g.max_idx_y as int;
    let h = 2 * my + 1;
    let w = 2 * mx - 1;
    assert forall|x: int, y: int| #[trigger] on_perimeter(g, x, y) implies exists|j: int|
        0 <= j < wall_count(g) && #[trigger] wall_idx_x(g, j) == x && wall_idx_y(g, j) == y by {
        if x == -mx {
            let j = y + my;
            assert(0 <= j < wall_count(g) && wall_idx_x(g, j) == x && wall_idx_y(g, j) == y);
        } else if x == mx {
            let j = h + y + my;
            assert(0 <= j < wall_count(g) && wall_idx_x(g, j) == x && wall_idx_y(g, j) == y);
        } else if y == -my {
            let j = 2 * h + x + mx - 1;
            assert(0 <= j < wall_count(g) && wall_idx_x(g, j) == x && wall_idx_y(g, j) == y);
        } else {
            let j = 2 * h + w + x + mx - 1;
            assert(0 <= j < wall_count(g) && wall_idx_x(g, j) == x && wall_idx_y(g, j) == y);
        }
    }
}

} // verus!
