use snakes_and_crabs::game_over_teleport_to_center;
use snakes_and_crabs::grid::{Cell, Grid};
use snakes_and_crabs::playground::snake_hits_wall;
use snakes_and_crabs::snake::{
    generate_trace, handle_steering, move_body, move_snake, snake_grows, snake_hits_itself,
    spawn_snake, Body, Direction, MoveEvent, Position, Speed, SteerKey, Velocity,
};
use snakes_and_crabs::Config;

fn grid(max_x: i32, max_y: i32, cell_size: i64) -> Grid {
    Grid { max_idx_x: max_x, max_idx_y: max_y, cell_size }
}

fn idx_of(trace: &[Cell]) -> Vec<(i32, i32)> {
    trace.iter().map(|c| (c.idx_x, c.idx_y)).collect()
}

#[test]
fn trace_has_k_cells_per_k_index_jump() {
    let g = grid(10, 10, 10);
    let old_c = g.get_cell_from_index(0, 0);
    for k in 1i32..=5 {
        let right = generate_trace(&g, &old_c, &g.get_cell_from_index(k, 0));
        assert_eq!(right.len() as i32, k);
        assert_eq!(right[0].idx_x, 0);
        for (j, c) in right.iter().enumerate() {
            assert_eq!((c.idx_x, c.idx_y), (j as i32, 0));
        }
        let up = generate_trace(&g, &old_c, &g.get_cell_from_index(0, k));
        assert_eq!(up.len() as i32, k);
        for (j, c) in up.iter().enumerate() {
            assert_eq!((c.idx_x, c.idx_y), (0, j as i32));
        }
    }
}

#[test]
fn trace_follows_the_sign_of_the_delta() {
    let g = grid(10, 10, 10);
    let old_c = g.get_cell_from_index(1, -2);
    let down = generate_trace(&g, &old_c, &g.get_cell_from_index(1, -5));
    assert_eq!(idx_of(&down), vec![(1, -2), (1, -3), (1, -4)]);
    let left = generate_trace(&g, &old_c, &g.get_cell_from_index(-2, -2));
    assert_eq!(idx_of(&left), vec![(1, -2), (0, -2), (-1, -2)]);
}

#[test]
fn move_snake_within_one_cell_emits_no_event() {
    let g = grid(3, 3, 10);
    let mut pos = Position { x: 0, y: 0 };
    let vel = Velocity { x: 4, y: 0, direction: Direction::Horizontal };
    let mut head = g.get_cell_from_position(0, 0);
    let ev = move_snake(&g, &mut pos, &vel, &mut head, 1000);
    assert!(ev.is_none());
    assert_eq!(pos.x, 4);
    assert_eq!(head.idx_x, 0);
}

#[test]
fn two_cell_jump_scenario_trace_wall_and_food() {
    // head at (0,0) on a 3x3-half-extent grid, jumping two cells right
    let g = grid(3, 3, 10);
    let mut pos = Position { x: 0, y: 0 };
    let vel = Velocity { x: 20, y: 0, direction: Direction::Horizontal };
    let mut head = g.get_cell_from_position(0, 0);
    let ev = move_snake(&g, &mut pos, &vel, &mut head, 1000);
    assert_eq!(pos.x, 20);
    assert_eq!((head.idx_x, head.idx_y), (2, 0));
    let ev = ev.expect("crossing a cell boundary must emit a movement event");
    assert_eq!(idx_of(&ev.0), vec![(0, 0), (1, 0)]);
    // wall check passes: 2 < 3
    assert!(!snake_hits_wall(&g, &pos));
    // food on the skipped cell (1,0) is eaten
    let apple = g.get_cell_from_index(1, 0);
    assert!(snakes_and_crabs::apples::apple_eaten(&ev, &head, &apple));
    // food elsewhere is not
    let far = g.get_cell_from_index(-1, 2);
    assert!(!snakes_and_crabs::apples::apple_eaten(&ev, &head, &far));
}

#[test]
fn wall_breach_is_detected_from_position() {
    let g = grid(3, 3, 10);
    assert!(snake_hits_wall(&g, &Position { x: 25, y: 0 }));
    assert!(!snake_hits_wall(&g, &Position { x: 24, y: 0 }));
    assert!(snake_hits_wall(&g, &Position { x: 0, y: -25 }));
}

#[test]
fn steering_up_while_vertical_is_ignored() {
    let g = grid(3, 3, 10);
    let speed = Speed { in_blocks_milli: 10_000, res: g.cell_size };
    let mut vel = Velocity { x: 0, y: 100, direction: Direction::Vertical };
    handle_steering(&speed, &mut vel, SteerKey::Up);
    assert_eq!(vel.x, 0);
    assert_eq!(vel.y, 100);
    assert_eq!(vel.direction, Direction::Vertical);
    handle_steering(&speed, &mut vel, SteerKey::Down);
    assert_eq!((vel.x, vel.y), (0, 100));
}

#[test]
fn steering_perpendicular_turn_is_accepted() {
    let g = grid(3, 3, 10);
    let speed = Speed { in_blocks_milli: 10_000, res: g.cell_size };
    // speed in subunits per second: 10_000 * 10 / 1000 = 100
    let mut vel = Velocity { x: 100, y: 0, direction: Direction::Horizontal };
    handle_steering(&speed, &mut vel, SteerKey::Up);
    assert_eq!((vel.x, vel.y), (0, 100));
    assert_eq!(vel.direction, Direction::Vertical);
    handle_steering(&speed, &mut vel, SteerKey::Left);
    assert_eq!((vel.x, vel.y), (-100, 0));
    assert_eq!(vel.direction, Direction::Horizontal);
}

#[test]
fn spawn_builds_contiguous_body_behind_head() {
    let g = grid(5, 5, 10);
    let mut config = Config::default();
    config.initial_bodylength = 4;
    let (snake, speed) = spawn_snake(&g, &config);
    assert_eq!(speed.in_blocks_milli, 10_000);
    assert_eq!((snake.position.x, snake.position.y), (0, 0));
    assert_eq!((snake.head_cell.idx_x, snake.head_cell.idx_y), (0, 0));
    assert_eq!(snake.velocity.x, 100);
    assert_eq!(snake.velocity.y, 0);
    assert_eq!(snake.velocity.direction, Direction::Horizontal);
    assert_eq!(snake.body.len(), 3);
    for (i, (cell, Body(order))) in snake.body.iter().enumerate() {
        assert_eq!(*order, i as u32 + 1);
        assert_eq!((cell.idx_x, cell.idx_y), (-(i as i32) - 1, 0));
    }
}

#[test]
fn body_follows_trace_backwards_with_wraparound() {
    let g = grid(5, 5, 10);
    // one-cell step: trace is just the vacated head cell
    let ev = MoveEvent(vec![g.get_cell_from_index(0, 0)]);
    let mut body = vec![
        (g.get_cell_from_index(-1, 0), Body(1)),
        (g.get_cell_from_index(-2, 0), Body(2)),
    ];
    move_body(&ev, &mut body);
    assert_eq!(idx_of(&body.iter().map(|s| s.0).collect::<Vec<_>>()), vec![(0, 0), (-1, 0)]);
    assert_eq!(body[0].1 .0, 1);
    assert_eq!(body[1].1 .0, 2);
}

#[test]
fn body_follows_multi_cell_trace() {
    let g = grid(5, 5, 10);
    // head jumped from (0,0) to (2,0); trace holds (0,0) and (1,0)
    let ev = MoveEvent(vec![g.get_cell_from_index(0, 0), g.get_cell_from_index(1, 0)]);
    let mut body = vec![
        (g.get_cell_from_index(-1, 0), Body(1)),
        (g.get_cell_from_index(-2, 0), Body(2)),
        (g.get_cell_from_index(-3, 0), Body(3)),
    ];
    move_body(&ev, &mut body);
    let cells = idx_of(&body.iter().map(|s| s.0).collect::<Vec<_>>());
    // segment 1 takes the trace tail (1,0), segment 2 the trace head (0,0),
    // segment 3 wraps to the tail slot, which now holds segment 1's old cell
    assert_eq!(cells, vec![(1, 0), (0, 0), (-1, 0)]);
}

#[test]
fn self_collision_detects_tunneling_through_body() {
    let g = grid(10, 10, 10);
    // head crossed (0,0) -> (3,0); a body cell sits on the skipped (2,0)
    let head = g.get_cell_from_index(3, 0);
    let ev = MoveEvent(generate_trace(&g, &g.get_cell_from_index(0, 0), &head));
    let body = vec![(g.get_cell_from_index(2, 0), Body(1))];
    assert!(snake_hits_itself(Some(&ev), &head, &body));
    // without the trace the same body is missed: the regression the trace exists for
    assert!(!snake_hits_itself(None, &head, &body));
    // head directly on a body cell is detected even without an event
    assert!(snake_hits_itself(None, &g.get_cell_from_index(2, 0), &body));
    // disjoint body: no collision
    let clear = vec![(g.get_cell_from_index(5, 5), Body(1))];
    assert!(!snake_hits_itself(Some(&ev), &head, &clear));
}

#[test]
fn growth_appends_at_last_segment_and_extends_order_run() {
    let g = grid(5, 5, 10);
    let mut config = Config::default();
    config.n_elements_per_apple = 2;
    let mut body = vec![
        (g.get_cell_from_index(-1, 0), Body(1)),
        (g.get_cell_from_index(-2, 0), Body(2)),
    ];
    snake_grows(&config, &mut body);
    assert_eq!(body.len(), 4);
    for (i, (cell, Body(order))) in body.iter().enumerate() {
        assert_eq!(*order, i as u32 + 1);
        if i >= 2 {
            assert_eq!((cell.idx_x, cell.idx_y), (-2, 0));
        }
    }
}

#[test]
fn game_over_resets_head_position_to_origin() {
    let g = grid(3, 3, 10);
    let mut pos = Position { x: 37, y: -12 };
    game_over_teleport_to_center(&g, &mut pos);
    assert_eq!((pos.x, pos.y), (0, 0));
}
