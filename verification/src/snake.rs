//! The snake: continuous head movement, axis-constrained steering, the
//! per-tick trace of crossed cells, body following, self-collision and
//! growth, and the speed progression.

use vstd::prelude::*;
use vstd::arithmetic::div_mod::lemma_div_is_ordered;
use crate::grid::{cell_idx_bounded, same_cell, Cell, Grid, MAX_CELL_SIZE, MAX_POS_INDEX};
use crate::Config;

verus! {

/// Largest admissible speed, in thousandths of a cell edge per second.
pub const MAX_SPEED_MILLI: u64 = 100_000_000;

/// Largest admissible velocity component, in subunits per second; equals
/// `MAX_SPEED_MILLI * MAX_CELL_SIZE / 1000`.
pub const MAX_VEL: i64 = 100_000_000_000_000;

/// Largest admissible tick duration, in milliseconds.
pub const MAX_TICK_MILLIS: u32 = 60_000;

/// The axis the snake currently moves along; the sole gate for steering.
#[derive(Clone, Copy, PartialEq, Eq, Structural, Debug)]
pub enum Direction {
    Vertical,
    Horizontal,
}

/// A steering request, one per pressed direction key.
#[derive(Clone, Copy, PartialEq, Eq, Structural, Debug)]
pub enum SteerKey {
    Up,
    Down,
    Left,
    Right,
}

/// Continuous head position in subunits.
pub struct Position {
    pub x: i64,
    pub y: i64,
}

/// Velocity in subunits per second; motion is purely horizontal or purely
/// vertical, never diagonal.
pub struct Velocity {
    pub x: i64,
    pub y: i64,
    pub direction: Direction,
}

impl Velocity {
    pub open spec fn wf(self) -> bool {
        &&& -MAX_VEL <= self.x <= MAX_VEL
        &&& -MAX_VEL <= self.y <= MAX_VEL
        &&& (self.direction == Direction::Horizontal ==> self.y == 0)
        &&& (self.direction == Direction::Vertical ==> self.x == 0)
    }
}

/// Speed in thousandths of a cell edge per second, plus the grid
/// resolution needed to convert it to subunits per second.
pub struct Speed {
    pub in_blocks_milli: u64,
    pub res: i64,
}

impl Speed {
    pub open spec fn wf(self) -> bool {
        &&& self.in_blocks_milli <= MAX_SPEED_MILLI
        &&& 1 <= self.res <= MAX_CELL_SIZE
    }

    /// The speed converted to subunits per second.
    pub open spec fn spec_in_pixels(self) -> int {
        self.in_blocks_milli * self.res / 1000
    }

    pub fn in_blocks(&self) -> (r: u64)
        ensures
            r == self.in_blocks_milli,
    {
        self.in_blocks_milli
    }

    pub fn in_pixels(&self) -> (r: i64)
        requires
            self.wf(),
        ensures
            r as int == self.spec_in_pixels(),
            0 <= r <= MAX_VEL,
    {
        assert(self.in_blocks_milli * self.res <= 100_000_000_000_000_000) by (nonlinear_arith)
            requires
                self.in_blocks_milli <= 100_000_000,
                0 <= self.res <= 1_000_000_000,
        ;
        let p: u64 = self.in_blocks_milli * (self.res as u64);
        proof {
            lemma_div_is_ordered(p as int, 100_000_000_000_000_000, 1000);
        }
        (p / 1000) as i64
    }

    fn set_speed_in_blocks(&mut self, speed: u64)
        ensures
            final(self).in_blocks_milli == speed,
            final(self).res == old(self).res,
    {
        self.in_blocks_milli = speed;
    }
}

/// A body segment's order index: 1 is nearest the head.
#[derive(Clone, Copy)]
pub struct Body(pub u32);

/// The trace of cells the head crossed in one tick: the old head cell
/// first, then every intermediate cell, excluding the new head cell.
pub struct MoveEvent(pub Vec<Cell>);

/// The snake's per-run mutable state.
pub struct Snake {
    pub position: Position,
    pub velocity: Velocity,
    pub head_cell: Cell,
    pub body: Vec<(Cell, Body)>,
}

/// Body segments carry the contiguous ascending order run `1..=N`.
pub open spec fn body_wf(body: Seq<(Cell, Body)>) -> bool {
    forall|i: int| 0 <= i < body.len() ==> (#[trigger] body[i]).1.0 == i + 1
}

/// Accept a turn only perpendicular to the current axis: set the new axis
/// to the full current speed, zero the other, flip the direction flag;
/// parallel requests are silently ignored.
pub fn handle_steering(speed: &Speed, vel: &mut Velocity, key: SteerKey)
    requires
        speed.wf(),
        old(vel).wf(),
    ensures
        final(vel).wf(),
        (key == SteerKey::Up && old(vel).direction == Direction::Horizontal) ==> *final(vel) == (
        Velocity { x: 0, y: speed.spec_in_pixels() as i64, direction: Direction::Vertical }),
        (key == SteerKey::Down && old(vel).direction == Direction::Horizontal) ==> *final(vel) == (
        Velocity { x: 0, y: ((-speed.spec_in_pixels()) as i64), direction: Direction::Vertical }),
        (key == SteerKey::Left && old(vel).direction == Direction::Vertical) ==> *final(vel) == (
        Velocity { x: ((-speed.spec_in_pixels()) as i64), y: 0, direction: Direction::Horizontal }),
        (key == SteerKey::Right && old(vel).direction == Direction::Vertical) ==> *final(vel) == (
        Velocity { x: speed.spec_in_pixels() as i64, y: 0, direction: Direction::Horizontal }),
        (key == SteerKey::Up && old(vel).direction == Direction::Vertical) ==> *final(vel) == *old(vel),
        (key == SteerKey::Down && old(vel).direction == Direction::Vertical) ==> *final(vel) == *old(vel),
        (key == SteerKey::Left && old(vel).direction == Direction::Horizontal) ==> *final(vel) == *old(vel),
        (key == SteerKey::Right && old(vel).direction == Direction::Horizontal) ==> *final(vel) == *old(vel),
{
    match key {
        SteerKey::Up => {
            if vel.direction == Direction::Horizontal {
                vel.x = 0;
                vel.y = speed.in_pixels();
                vel.direction = Direction::Vertical;
            }
        },
        SteerKey::Down => {
            if vel.direction == Direction::Horizontal {
                vel.x = 0;
                vel.y = -speed.in_pixels();
                vel.direction = Direction::Vertical;
            }
        },
        SteerKey::Left => {
            if vel.direction == Direction::Vertical {
                vel.x = -speed.in_pixels();
                vel.y = 0;
                vel.direction = Direction::Horizontal;
            }
        },
        SteerKey::Right => {
            if vel.direction == Direction::Vertical {
                vel.x = speed.in_pixels();
                vel.y = 0;
                vel.direction = Direction::Horizontal;
            }
        },
    }
}

/// Build the initial snake: head at the origin cell moving right at the
/// configured speed, and `initial_bodylength - 1` segments extending to
/// the left, with order indices `1..`.
pub fn spawn_snake(grid: &Grid, config: &Config) -> (r: (Snake, Speed))
    requires
        grid.wf(),
        config.wf(),
    ensures
        r.1 == (Speed { in_blocks_milli: config.initial_speed_milli, res: grid.cell_size }),
        r.1.wf(),
        r.0.position == (Position { x: 0, y: 0 }),
        r.0.head_cell.idx_x == 0,
        r.0.head_cell.idx_y == 0,
        r.0.head_cell.canonical(*grid),
        r.0.velocity == (Velocity {
            x: r.1.spec_in_pixels() as i64,
            y: 0,
            direction: Direction::Horizontal,
        }),
        r.0.velocity.wf(),
        r.0.body@.len() == config.initial_bodylength - 1,
        forall|i: int|
            0 <= i < r.0.body@.len() ==> {
                &&& (#[trigger] r.0.body@[i]).1.0 == i + 1
                &&& r.0.body@[i].0.idx_x as int == -(i + 1)
                &&& r.0.body@[i].0.idx_y == 0
                &&& r.0.body@[i].0.canonical(*grid)
            },
        body_wf(r.0.body@),
{
    let speed = Speed { in_blocks_milli: config.initial_speed_milli, res: grid.cell_size };
    proof {
        vstd::arithmetic::div_mod::lemma_basic_div(
            grid.cell_size as int / 2,
            grid.cell_size as int,
        );
    }
    let head_cell = grid.get_cell_from_position(0, 0);
    proof {
        assert(0 * grid.cell_size as int == 0) by (nonlinear_arith);
    }
    let position = Position { x: head_cell.pos_x, y: head_cell.pos_y };
    let velocity = Velocity { x: speed.in_pixels(), y: 0, direction: Direction::Horizontal };

    let mut body: Vec<(Cell, Body)> = Vec::new();
    let mut cell = head_cell;
    let mut i: u32 = 1;
    while i < config.initial_bodylength
        invariant
            grid.wf(),
            config.wf(),
            1 <= i <= config.initial_bodylength,
            body@.len() == i - 1,
            cell.idx_x as int == -(i as int - 1),
            cell.idx_y == 0,
            forall|j: int|
                0 <= j < body@.len() ==> {
                    &&& (#[trigger] body@[j]).1.0 == j + 1
                    &&& body@[j].0.idx_x as int == -(j + 1)
                    &&& body@[j].0.idx_y == 0
                    &&& body@[j].0.canonical(*grid)
                },
        decreases config.initial_bodylength - i,
    {
        cell = grid.get_cell_from_index(cell.idx_x - 1, cell.idx_y);
        body.push((cell, Body(i)));
        i = i + 1;
    }

    (Snake { position, velocity, head_cell, body }, speed)
}

/// Sign of an index delta.
pub open spec fn sgn(d: int) -> int {
    if d > 0 {
        1
    } else if d < 0 {
        -1
    } else {
        0
    }
}

/// Number of trace cells one changed axis contributes beyond the old
/// cell: the strictly-between indices.
pub open spec fn leg_len(d: int) -> int {
    if d == 0 {
        0
    } else if d > 0 {
        d - 1
    } else {
        -d - 1
    }
}

/// Length of the trace from `oldc` to `newc`: the old cell plus the
/// strictly-between cells of each changed axis.
pub open spec fn trace_len(oldc: Cell, newc: Cell) -> int {
    1 + leg_len(newc.idx_x - oldc.idx_x) + leg_len(newc.idx_y - oldc.idx_y)
}

/// The x index of the `j`-th trace cell.
pub open spec fn trace_idx_x(oldc: Cell, newc: Cell, j: int) -> int {
    let dx = newc.idx_x - oldc.idx_x;
    if 1 <= j <= leg_len(dx) {
        oldc.idx_x + j * sgn(dx)
    } else {
        oldc.idx_x as int
    }
}

/// The y index of the `j`-th trace cell.
pub open spec fn trace_idx_y(oldc: Cell, newc: Cell, j: int) -> int {
    let dx = newc.idx_x - oldc.idx_x;
    let dy = newc.idx_y - oldc.idx_y;
    if leg_len(dx) < j <= leg_len(dx) + leg_len(dy) {
        oldc.idx_y + (j - leg_len(dx)) * sgn(dy)
    } else {
        oldc.idx_y as int
    }
}

/// `trace` is exactly the per-tick trace from `oldc` to `newc`: it starts
/// with the old cell and walks every strictly-between index of each
/// changed axis toward the new cell, which itself is excluded.
pub open spec fn is_trace_of(trace: Seq<Cell>, oldc: Cell, newc: Cell, g: Grid) -> bool {
    &&& trace.len() == trace_len(oldc, newc)
    &&& trace[0] == oldc
    &&& forall|j: int|
        0 <= j < trace.len() ==> {
            &&& (#[trigger] trace[j]).idx_x as int == trace_idx_x(oldc, newc, j)
            &&& trace[j].idx_y as int == trace_idx_y(oldc, newc, j)
        }
    &&& forall|j: int| 1 <= j < trace.len() ==> (#[trigger] trace[j]).canonical(g)
}

/// Reconstruct every cell the head crossed between `old_cell` and
/// `new_cell`, so that downstream collision checks cannot miss a cell
/// ("tunneling") at high speed.
pub fn generate_trace(grid: &Grid, old_cell: &Cell, new_cell: &Cell) -> (trace: Vec<Cell>)
    requires
        grid.wf(),
        cell_idx_bounded(*old_cell),
        cell_idx_bounded(*new_cell),
    ensures
        is_trace_of(trace@, *old_cell, *new_cell, *grid),
{
    let mut trace: Vec<Cell> = Vec::new();
    trace.push(*old_cell);

    let ox: i64 = old_cell.idx_x as i64;
    let nx: i64 = new_cell.idx_x as i64;
    let oy: i64 = old_cell.idx_y as i64;
    let ny: i64 = new_cell.idx_y as i64;
    let ghost dx: int = nx - ox;
    let ghost dy: int = ny - oy;

    if old_cell.idx_x != new_cell.idx_x {
        if nx > ox {
            let mut ix: i64 = ox + 1;
            while ix < nx
                invariant
                    grid.wf(),
                    cell_idx_bounded(*old_cell),
                    cell_idx_bounded(*new_cell),
                    dx == nx - ox > 0,
                    ox == old_cell.idx_x as int,
                    nx == new_cell.idx_x as int,
                    ox + 1 <= ix <= nx,
                    trace@.len() == ix - ox,
                    trace@[0] == *old_cell,
                    forall|j: int|
                        0 <= j < trace@.len() ==> {
                            &&& (#[trigger] trace@[j]).idx_x as int == trace_idx_x(
                                *old_cell,
                                *new_cell,
                                j,
                            )
                            &&& trace@[j].idx_y as int == trace_idx_y(*old_cell, *new_cell, j)
                        },
                    forall|j: int| 1 <= j < trace@.len() ==> (#[trigger] trace@[j]).canonical(
                        *grid,
                    ),
                decreases nx - ix,
            {
                trace.push(grid.get_cell_from_index(ix as i32, old_cell.idx_y));
                ix = ix + 1;
            }
        } else {
            let mut ix: i64 = ox - 1;
            while ix > nx
                invariant
                    grid.wf(),
                    cell_idx_bounded(*old_cell),
                    cell_idx_bounded(*new_cell),
                    dx == nx - ox < 0,
                    ox == old_cell.idx_x as int,
                    nx == new_cell.idx_x as int,
                    nx <= ix <= ox - 1,
                    trace@.len() == ox - ix,
                    trace@[0] == *old_cell,
                    forall|j: int|
                        0 <= j < trace@.len() ==> {
                            &&& (#[trigger] trace@[j]).idx_x as int == trace_idx_x(
                                *old_cell,
                                *new_cell,
                                j,
                            )
                            &&& trace@[j].idx_y as int == trace_idx_y(*old_cell, *new_cell, j)
                        },
                    forall|j: int| 1 <= j < trace@.len() ==> (#[trigger] trace@[j]).canonical(
                        *grid,
                    ),
                decreases ix - nx,
            {
                trace.push(grid.get_cell_from_index(ix as i32, old_cell.idx_y));
                ix = ix - 1;
            }
        }
    }

    if old_cell.idx_y != new_cell.idx_y {
        if ny > oy {
            let mut iy: i64 = oy + 1;
            while iy < ny
                invariant
                    grid.wf(),
                    cell_idx_bounded(*old_cell),
                    cell_idx_bounded(*new_cell),
                    dx == new_cell.idx_x as int - old_cell.idx_x as int,
                    dy == ny - oy > 0,
                    oy == old_cell.idx_y as int,
                    ny == new_cell.idx_y as int,
                    oy + 1 <= iy <= ny,
                    trace@.len() == 1 + leg_len(dx) + (iy - oy - 1),
                    trace@[0] == *old_cell,
                    forall|j: int|
                        0 <= j < trace@.len() ==> {
                            &&& (#[trigger] trace@[j]).idx_x as int == trace_idx_x(
                                *old_cell,
                                *new_cell,
                                j,
                            )
                            &&& trace@[j].idx_y as int == trace_idx_y(*old_cell, *new_cell, j)
                        },
                    forall|j: int| 1 <= j < trace@.len() ==> (#[trigger] trace@[j]).canonical(
                        *grid,
                    ),
                decreases ny - iy,
            {
                trace.push(grid.get_cell_from_index(old_cell.idx_x, iy as i32));
                iy = iy + 1;
            }
        } else {
            let mut iy: i64 = oy - 1;
            while iy > ny
                invariant
                    grid.wf(),
                    cell_idx_bounded(*old_cell),
                    cell_idx_bounded(*new_cell),
                    dx == new_cell.idx_x as int - old_cell.idx_x as int,
                    dy == ny - oy < 0,
                    oy == old_cell.idx_y as int,
                    ny == new_cell.idx_y as int,
                    ny <= iy <= oy - 1,
                    trace@.len() == 1 + leg_len(dx) + (oy - iy - 1),
                    trace@[0] == *old_cell,
                    forall|j: int|
                        0 <= j < trace@.len() ==> {
                            &&& (#[trigger] trace@[j]).idx_x as int == trace_idx_x(
                                *old_cell,
                                *new_cell,
                                j,
                            )
                            &&& trace@[j].idx_y as int == trace_idx_y(*old_cell, *new_cell, j)
                        },
                    forall|j: int| 1 <= j < trace@.len() ==> (#[trigger] trace@[j]).canonical(
                        *grid,
                    ),
                decreases iy - ny,
            {
                trace.push(grid.get_cell_from_index(old_cell.idx_x, iy as i32));
                iy = iy - 1;
            }
        }
    }

    trace
}

/// Displacement of one velocity component over a tick, in subunits:
/// `v * dt / 1000` with the magnitude rounded toward zero.
pub open spec fn disp(v: int, dt: int) -> int {
    if v >= 0 {
        v * dt / 1000
    } else {
        -((-v) * dt / 1000)
    }
}

/// One velocity component times the elapsed milliseconds, over 1000.
fn scaled_disp(v: i64, dt: u32) -> (d: i64)
    requires
        -MAX_VEL <= v <= MAX_VEL,
        dt <= MAX_TICK_MILLIS,
    ensures
        d as int == disp(v as int, dt as int),
        -(MAX_VEL as int * MAX_TICK_MILLIS as int) <= d as int <= MAX_VEL as int
            * MAX_TICK_MILLIS as int,
{
    let mag: u64 = if v >= 0 {
        v as u64
    } else {
        (-v) as u64
    };
    assert(mag * dt <= 6_000_000_000_000_000_000) by (nonlinear_arith)
        requires
            0 <= mag <= 100_000_000_000_000,
            0 <= dt <= 60_000,
    ;
    let scaled: u64 = mag * (dt as u64);
    proof {
        lemma_div_is_ordered(scaled as int, 6_000_000_000_000_000_000, 1000);
        vstd::arithmetic::div_mod::lemma_div_pos_is_pos(scaled as int, 1000);
    }
    let q: u64 = scaled / 1000;
    if v >= 0 {
        q as i64
    } else {
        -(q as i64)
    }
}

/// Advance the head by one tick: integrate the position, recompute the
/// head cell, and if the cell changed return the movement event carrying
/// the trace (old cell included, new cell excluded).
pub fn move_snake(
    grid: &Grid,
    pos: &mut Position,
    vel: &Velocity,
    head_cell: &mut Cell,
    delta_millis: u32,
) -> (ev: Option<MoveEvent>)
    requires
        grid.wf(),
        vel.wf(),
        delta_millis <= MAX_TICK_MILLIS,
        cell_idx_bounded(*old(head_cell)),
        -(MAX_POS_INDEX * grid.cell_size) <= old(pos).x + disp(vel.x as int, delta_millis as int)
            <= MAX_POS_INDEX * grid.cell_size,
        -(MAX_POS_INDEX * grid.cell_size) <= old(pos).y + disp(vel.y as int, delta_millis as int)
            <= MAX_POS_INDEX * grid.cell_size,
    ensures
        final(pos).x == old(pos).x + disp(vel.x as int, delta_millis as int),
        final(pos).y == old(pos).y + disp(vel.y as int, delta_millis as int),
        final(head_cell).idx_x as int == crate::grid::round_idx(
            final(pos).x as int,
            grid.cell_size as int,
        ),
        final(head_cell).idx_y as int == crate::grid::round_idx(
            final(pos).y as int,
            grid.cell_size as int,
        ),
        final(head_cell).canonical(*grid),
        cell_idx_bounded(*final(head_cell)),
        (ev is None) <==> same_cell(*final(head_cell), *old(head_cell)),
        ev matches Some(m) ==> is_trace_of(m.0@, *old(head_cell), *final(head_cell), *grid),
{
    let dx: i64 = scaled_disp(vel.x, delta_millis);
    let dy: i64 = scaled_disp(vel.y, delta_millis);
    pos.x = pos.x + dx;
    pos.y = pos.y + dy;

    let new_cell = grid.get_cell_from_position(pos.x, pos.y);
    let old_c: Cell = *head_cell;
    head_cell.set(&new_cell);

    if new_cell == old_c {
        None
    } else {
        let trace = generate_trace(grid, &old_c, &new_cell);
        Some(MoveEvent(trace))
    }
}

/// For a pair of cells differing only on the x axis by `k` indices, the
/// trace has exactly `k` cells, starts at the old cell, keeps the y index,
/// and is strictly monotonic along x in the direction of the delta.
pub proof fn lemma_trace_single_axis_x(oldc: Cell, newc: Cell)
    requires
        oldc.idx_y == newc.idx_y,
        oldc.idx_x != newc.idx_x,
    ensures
        trace_len(oldc, newc) == (if newc.idx_x >= oldc.idx_x {
            newc.idx_x - oldc.idx_x
        } else {
            oldc.idx_x - newc.idx_x
        }),
        trace_idx_x(oldc, newc, 0) == oldc.idx_x,
        trace_idx_y(oldc, newc, 0) == oldc.idx_y,
        forall|j: int|
            0 <= j < trace_len(oldc, newc) ==> #[trigger] trace_idx_y(oldc, newc, j)
                == oldc.idx_y,
        forall|i: int, j: int|
            0 <= i < j < trace_len(oldc, newc) && newc.idx_x > oldc.idx_x ==> #[trigger] trace_idx_x(
                oldc,
                newc,
                i,
            ) < #[trigger] trace_idx_x(oldc, newc, j),
        forall|i: int, j: int|
            0 <= i < j < trace_len(oldc, newc) && newc.idx_x < oldc.idx_x ==> #[trigger] trace_idx_x(
                oldc,
                newc,
                i,
            ) > #[trigger] trace_idx_x(oldc, newc, j),
{
    let dx = newc.idx_x - oldc.idx_x;
    assert forall|j: int| 0 <= j < trace_len(oldc, newc) implies #[trigger] trace_idx_x(
        oldc,
        newc,
        j,
    ) == (if dx > 0 {
        oldc.idx_x + j
    } else {
        oldc.idx_x - j
    }) by {
        lemma_mul_pm_one(j);
    }
}

/// The same statement for a pair differing only on the y axis.
pub proof fn lemma_trace_single_axis_y(oldc: Cell, newc: Cell)
    requires
        oldc.idx_x == newc.idx_x,
        oldc.idx_y != newc.idx_y,
    ensures
        trace_len(oldc, newc) == (if newc.idx_y >= oldc.idx_y {
            newc.idx_y - oldc.idx_y
        } else {
            oldc.idx_y - newc.idx_y
        }),
        trace_idx_x(oldc, newc, 0) == oldc.idx_x,
        trace_idx_y(oldc, newc, 0) == oldc.idx_y,
        forall|j: int|
            0 <= j < trace_len(oldc, newc) ==> #[trigger] trace_idx_x(oldc, newc, j)
                == oldc.idx_x,
        forall|i: int, j: int|
            0 <= i < j < trace_len(oldc, newc) && newc.idx_y > oldc.idx_y ==> #[trigger] trace_idx_y(
                oldc,
                newc,
                i,
            ) < #[trigger] trace_idx_y(oldc, newc, j),
        forall|i: int, j: int|
            0 <= i < j < trace_len(oldc, newc) && newc.idx_y < oldc.idx_y ==> #[trigger] trace_idx_y(
                oldc,
                newc,
                i,
            ) > #[trigger] trace_idx_y(oldc, newc, j),
{
    let dy = newc.idx_y - oldc.idx_y;
    assert forall|j: int| 0 <= j < trace_len(oldc, newc) implies #[trigger] trace_idx_y(
        oldc,
        newc,
        j,
    ) == (if dy > 0 {
        oldc.idx_y + j
    } else {
        oldc.idx_y - j
    }) by {
        lemma_mul_pm_one(j);
    }
}

/// Multiplying by a unit keeps or flips the sign.
proof fn lemma_mul_pm_one(a: int)
    ensures
        a * 1 == a,
        a * -1 == -a,
{
    assert(a * 1 == a && a * -1 == -a) by (nonlinear_arith);
}


/// Some trace cell has the same index pair as `c`.
pub open spec fn trace_hits(trace: Seq<Cell>, c: Cell) -> bool {
    exists|j: int| 0 <= j < trace.len() && same_cell(#[trigger] trace[j], c)
}

/// Some body segment lies on the trace.
pub open spec fn hits_body(trace: Seq<Cell>, body: Seq<(Cell, Body)>) -> bool {
    exists|i: int| 0 <= i < body.len() && trace_hits(trace, (#[trigger] body[i]).0)
}

/// Some body segment lies under the head's cell.
pub open spec fn head_on_body(head: Cell, body: Seq<(Cell, Body)>) -> bool {
    exists|i: int| 0 <= i < body.len() && same_cell((#[trigger] body[i]).0, head)
}

/// Whether any cell of `trace` equals `c`, by index identity.
pub fn trace_contains(trace: &Vec<Cell>, c: &Cell) -> (r: bool)
    ensures
        r == trace_hits(trace@, *c),
{
    let mut found = false;
    let mut j: usize = 0;
    while j < trace.len()
        invariant
            0 <= j <= trace@.len(),
            found == exists|k: int| 0 <= k < j && same_cell(#[trigger] trace@[k], *c),
        decreases trace@.len() - j,
    {
        if trace[j] == *c {
            found = true;
        }
        j = j + 1;
    }
    found
}

/// Self-collision: the run ends if any body segment cell equals the
/// head's current cell or any cell of this tick's trace, evaluated
/// against the body as it stood before this tick's body-follow update.
pub fn snake_hits_itself(
    ev: Option<&MoveEvent>,
    head_cell: &Cell,
    body: &Vec<(Cell, Body)>,
) -> (over: bool)
    ensures
        over == ((match ev {
            Some(m) => hits_body(m.0@, body@),
            None => false,
        }) || head_on_body(*head_cell, body@)),
{
    let mut over = false;
    match ev {
        Some(m) => {
            let mut i: usize = 0;
            while i < body.len()
                invariant
                    0 <= i <= body@.len(),
                    over == exists|k: int|
                        0 <= k < i && trace_hits(m.0@, (#[trigger] body@[k]).0),
                decreases body@.len() - i,
            {
                if trace_contains(&m.0, &body[i].0) {
                    over = true;
                }
                i = i + 1;
            }
        },
        None => {},
    }
    let mut i: usize = 0;
    let ghost over_trace = over;
    while i < body.len()
        invariant
            0 <= i <= body@.len(),
            over == (over_trace || exists|k: int|
                0 <= k < i && same_cell((#[trigger] body@[k]).0, *head_cell)),
        decreases body@.len() - i,
    {
        if body[i].0 == *head_cell {
            over = true;
        }
        i = i + 1;
    }
    over
}

/// On food eaten, append `n_elements_per_apple` segments, each at the
/// cell of the current last segment, order indices continuing the run.
pub fn snake_grows(config: &Config, body: &mut Vec<(Cell, Body)>)
    requires
        config.wf(),
        old(body)@.len() >= 1,
        old(body)@[old(body)@.len() - 1].1.0 + config.n_elements_per_apple <= u32::MAX,
    ensures
        final(body)@.len() == old(body)@.len() + config.n_elements_per_apple,
        forall|i: int| 0 <= i < old(body)@.len() ==> #[trigger] final(body)@[i] == old(body)@[i],
        forall|i: int|
            old(body)@.len() <= i < final(body)@.len() ==> {
                &&& (#[trigger] final(body)@[i]).0 == old(body)@[old(body)@.len() - 1].0
                &&& final(body)@[i].1.0 == old(body)@[old(body)@.len() - 1].1.0 + (i - old(
                    body,
                )@.len()) + 1
            },
        body_wf(old(body)@) ==> body_wf(final(body)@),
{
    let last: (Cell, Body) = body[body.len() - 1];
    let n: u32 = last.1.0;
    let mut k: u32 = 1;
    while k <= config.n_elements_per_apple
        invariant
            config.wf(),
            1 <= k <= config.n_elements_per_apple + 1,
            n as int + config.n_elements_per_apple as int <= u32::MAX,
            old(body)@.len() >= 1,
            last == old(body)@[old(body)@.len() - 1],
            n == last.1.0,
            body@.len() == old(body)@.len() + k - 1,
            forall|i: int| 0 <= i < old(body)@.len() ==> #[trigger] body@[i] == old(body)@[i],
            forall|i: int|
                old(body)@.len() <= i < body@.len() ==> {
                    &&& (#[trigger] body@[i]).0 == last.0
                    &&& body@[i].1.0 == n + (i - old(body)@.len()) + 1
                },
        decreases config.n_elements_per_apple + 1 - k,
    {
        body.push((last.0, Body(n + k)));
        k = k + 1;
    }
}

/// On a score increase, multiply the speed by 1.1 (in thousandths:
/// `* 11 / 10`) exactly when the apple count is a multiple of three times
/// the score increment; compounding, no cap below the admissible maximum.
pub fn speed_up(config: &Config, score: &crate::score::Score, speed: &mut Speed)
    requires
        config.wf(),
        old(speed).wf(),
        old(speed).in_blocks_milli * 11 / 10 <= MAX_SPEED_MILLI,
    ensures
        final(speed).res == old(speed).res,
        final(speed).wf(),
        (score.n_apples as int % (3 * config.score_increment as int) == 0) ==> final(speed).in_blocks_milli
            == old(speed).in_blocks_milli * 11 / 10,
        (score.n_apples as int % (3 * config.score_increment as int) != 0) ==> *final(speed) == *old(speed),
{
    if score.n_apples % (3 * config.score_increment) == 0 {
        let old_speed = speed.in_blocks();
        speed.set_speed_in_blocks(old_speed * 11 / 10);
    }
}


/// The trace slot the next segment takes its cell from: starts at the
/// trace's tail and walks backwards, wrapping to the tail again.
pub open spec fn cursor(tlen: int, k: int) -> int
    recommends
        tlen >= 1,
        k >= 0,
{
    (tlen - 1) - (k % tlen)
}

/// The body cells after one movement event: segment `k` (in ascending
/// order index) takes the cell at the cursor, the cursor slot is
/// overwritten with segment `k`'s previous cell, and the cursor steps
/// backwards with wraparound, so each segment inherits a vacated cell
/// even when the body is longer than one tick's trace.
pub open spec fn follow_cells(trace: Seq<Cell>, body: Seq<Cell>, k: int) -> Seq<Cell>
    recommends
        trace.len() >= 1,
        0 <= k <= body.len(),
    decreases body.len() - k,
{
    if k < 0 || k >= body.len() {
        Seq::empty()
    } else {
        let cur = cursor(trace.len() as int, k);
        seq![trace[cur]] + follow_cells(trace.update(cur, body[k]), body, k + 1)
    }
}

/// The cursor stays within the trace and steps down by one, wrapping
/// from 0 back to the tail.
proof fn lemma_cursor_step(tlen: int, k: int)
    requires
        tlen >= 1,
        k >= 0,
    ensures
        0 <= cursor(tlen, k) < tlen,
        cursor(tlen, k) == 0 ==> cursor(tlen, k + 1) == tlen - 1,
        cursor(tlen, k) != 0 ==> cursor(tlen, k + 1) == cursor(tlen, k) - 1,
{
    vstd::arithmetic::div_mod::lemma_mod_division_less_than_divisor(k, tlen);
    vstd::arithmetic::div_mod::lemma_mod_division_less_than_divisor(k + 1, tlen);
    vstd::arithmetic::div_mod::lemma_fundamental_div_mod(k, tlen);
    let q = k / tlen;
    let r = k % tlen;
    if r == tlen - 1 {
        assert(k + 1 == (q + 1) * tlen + 0) by (nonlinear_arith)
            requires
                k == tlen * q + r,
                r == tlen - 1,
        ;
        vstd::arithmetic::div_mod::lemma_fundamental_div_mod_converse_mod(k + 1, tlen, q + 1, 0);
    } else {
        assert(k + 1 == q * tlen + (r + 1)) by (nonlinear_arith)
            requires
                k == tlen * q + r,
        ;
        vstd::arithmetic::div_mod::lemma_fundamental_div_mod_converse_mod(k + 1, tlen, q, r + 1);
    }
}

/// Propagate one movement event through the body: segments in ascending
/// order index are reassigned cells by walking the trace backwards from
/// its tail, cycling when the body is longer than the trace; order
/// indices are untouched.
pub fn move_body(ev: &MoveEvent, body: &mut Vec<(Cell, Body)>)
    requires
        ev.0@.len() >= 1,
    ensures
        final(body)@.len() == old(body)@.len(),
        forall|i: int|
            0 <= i < final(body)@.len() ==> (#[trigger] final(body)@[i]).1 == old(body)@[i].1,
        final(body)@.map_values(|s: (Cell, Body)| s.0) == follow_cells(
            ev.0@,
            old(body)@.map_values(|s: (Cell, Body)| s.0),
            0,
        ),
        body_wf(old(body)@) ==> body_wf(final(body)@),
{
    let ghost orig: Seq<Cell> = old(body)@.map_values(|s: (Cell, Body)| s.0);

    let mut trace: Vec<Cell> = Vec::new();
    let mut t: usize = 0;
    while t < ev.0.len()
        invariant
            0 <= t <= ev.0@.len(),
            trace@ == ev.0@.take(t as int),
        decreases ev.0@.len() - t,
    {
        trace.push(ev.0[t]);
        t = t + 1;
    }
    proof {
        assert(trace@ =~= ev.0@);
    }

    let mut target_index: usize = trace.len() - 1;
    let mut k: usize = 0;
    while k < body.len()
        invariant
            trace@.len() == ev.0@.len(),
            ev.0@.len() >= 1,
            body@.len() == old(body)@.len(),
            orig == old(body)@.map_values(|s: (Cell, Body)| s.0),
            orig.len() == body@.len(),
            0 <= k <= body@.len(),
            target_index as int == cursor(trace@.len() as int, k as int),
            forall|i: int| 0 <= i < body@.len() ==> (#[trigger] body@[i]).1 == old(body)@[i].1,
            forall|i: int| k <= i < body@.len() ==> (#[trigger] body@[i]).0 == old(body)@[i].0,
            follow_cells(ev.0@, orig, 0) =~= body@.map_values(|s: (Cell, Body)| s.0).take(
                k as int,
            ) + follow_cells(trace@, orig, k as int),
        decreases body@.len() - k,
    {
        proof {
            lemma_cursor_step(trace@.len() as int, k as int);
        }
        let ghost trace_before = trace@;
        let ghost body_before = body@;
        let new_cell: Cell = trace[target_index];
        let seg: (Cell, Body) = body[k];
        trace[target_index] = seg.0;
        body[k] = (new_cell, seg.1);
        proof {
            let ki = k as int;
            let cur = cursor(trace_before.len() as int, ki);
            assert(seg.0 == orig[ki]);
            assert(trace@ =~= trace_before.update(cur, orig[ki]));
            assert(follow_cells(trace_before, orig, ki) == seq![trace_before[cur]]
                + follow_cells(trace_before.update(cur, orig[ki]), orig, ki + 1));
            assert(body@.map_values(|s: (Cell, Body)| s.0).take(ki + 1)
                =~= body_before.map_values(|s: (Cell, Body)| s.0).take(ki) + seq![new_cell]);
            assert(body_before.map_values(|s: (Cell, Body)| s.0).take(ki) + seq![new_cell]
                + follow_cells(trace@, orig, ki + 1) =~= body_before.map_values(
                |s: (Cell, Body)| s.0,
            ).take(ki) + (seq![new_cell] + follow_cells(trace@, orig, ki + 1)));
        }
        if target_index != 0 {
            target_index = target_index - 1;
        } else {
            target_index = trace.len() - 1;
        }
        k = k + 1;
    }
    proof {
        assert(body@.map_values(|s: (Cell, Body)| s.0).take(body@.len() as int) =~= body@.map_values(
            |s: (Cell, Body)| s.0,
        ));
        assert(follow_cells(ev.0@, orig, 0) =~= body@.map_values(|s: (Cell, Body)| s.0)
            + follow_cells(trace@, orig, body@.len() as int));
        assert(follow_cells(trace@, orig, body@.len() as int) =~= Seq::<Cell>::empty());
        assert(body@.map_values(|s: (Cell, Body)| s.0) + Seq::<Cell>::empty() =~= body@.map_values(
            |s: (Cell, Body)| s.0,
        ));
    }
}



/// No tunneling: on a single-axis move, every cell whose index lies
/// strictly between the old and the new head cell is on the trace, so a
/// body cell there is found by the self-collision check even when the
/// head crossed several cells in one tick.
pub proof fn lemma_trace_covers_skipped_cells(
    t: Seq<Cell>,
    oldc: Cell,
    newc: Cell,
    g: Grid,
    c: Cell,
)
    requires
        is_trace_of(t, oldc, newc, g),
        oldc.idx_y == newc.idx_y,
        c.idx_y == oldc.idx_y,
        (oldc.idx_x < c.idx_x < newc.idx_x) || (newc.idx_x < c.idx_x < oldc.idx_x),
    ensures
        trace_hits(t, c),
{
    let dx = newc.idx_x - oldc.idx_x;
    if dx > 0 {
        let j = c.idx_x - oldc.idx_x;
        lemma_mul_pm_one(j);
        assert(trace_idx_x(oldc, newc, j) == c.idx_x);
        assert(0 <= j < t.len());
        assert(same_cell(t[j], c));
    } else {
        let j = oldc.idx_x - c.idx_x;
        lemma_mul_pm_one(j);
        assert(trace_idx_x(oldc, newc, j) == c.idx_x);
        assert(0 <= j < t.len());
        assert(same_cell(t[j], c));
    }
}


/// Self-collision misses nothing to tunneling: if the head moved along
/// one axis and a body segment sits strictly between the old and the new
/// head cell, the self-collision check over the movement trace reports
/// the hit.
pub proof fn lemma_self_collision_no_tunneling(
    t: Seq<Cell>,
    oldc: Cell,
    newc: Cell,
    g: Grid,
    body: Seq<(Cell, Body)>,
    i: int,
)
    requires
        is_trace_of(t, oldc, newc, g),
        oldc.idx_y == newc.idx_y,
        0 <= i < body.len(),
        body[i].0.idx_y == oldc.idx_y,
        (oldc.idx_x < body[i].0.idx_x < newc.idx_x) || (newc.idx_x < body[i].0.idx_x
            < oldc.idx_x),
    ensures
        hits_body(t, body),
{
    lemma_trace_covers_skipped_cells(t, oldc, newc, g, body[i].0);
}

} // verus!
