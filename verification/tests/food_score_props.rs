use snakes_and_crabs::apples::{find_free_cells, relocate_apple, spawn_apple};
use snakes_and_crabs::grid::Grid;
use snakes_and_crabs::score::{increment_score, Score};
use snakes_and_crabs::snake::{speed_up, Body, Speed};
use snakes_and_crabs::Config;

fn grid(max_x: i32, max_y: i32, cell_size: i64) -> Grid {
    Grid { max_idx_x: max_x, max_idx_y: max_y, cell_size }
}

#[test]
fn spawned_apple_lies_in_the_sampled_quadrant() {
    let g = grid(3, 4, 10);
    for _ in 0..200 {
        let c = spawn_apple(&g);
        assert!(0 <= c.idx_x && c.idx_x < 3);
        assert!(0 <= c.idx_y && c.idx_y < 4);
        assert_eq!(c.pos_x, c.idx_x as i64 * 10);
        assert_eq!(c.pos_y, c.idx_y as i64 * 10);
    }
}

#[test]
fn occupied_cells_are_body_cells_then_head() {
    let g = grid(3, 3, 10);
    let head = g.get_cell_from_index(0, 0);
    let body = vec![
        (g.get_cell_from_index(-1, 0), Body(1)),
        (g.get_cell_from_index(-2, 0), Body(2)),
    ];
    let cells = find_free_cells(&head, &body);
    assert_eq!(cells.len(), 3);
    assert_eq!((cells[0].idx_x, cells[0].idx_y), (-1, 0));
    assert_eq!((cells[1].idx_x, cells[1].idx_y), (-2, 0));
    assert_eq!((cells[2].idx_x, cells[2].idx_y), (0, 0));
}

#[test]
fn relocated_food_never_lands_on_the_snake() {
    let g = grid(3, 3, 10);
    let head = g.get_cell_from_index(0, 0);
    let body = vec![
        (g.get_cell_from_index(-1, 0), Body(1)),
        (g.get_cell_from_index(-1, 1), Body(2)),
        (g.get_cell_from_index(1, 1), Body(3)),
    ];
    let occupied = find_free_cells(&head, &body);
    for _ in 0..1000 {
        let mut apple = g.get_cell_from_index(0, 0);
        let placed = relocate_apple(&g, &occupied, &mut apple);
        assert!(placed);
        assert!(apple.idx_x.abs() <= 3 && apple.idx_y.abs() <= 3);
        for c in &occupied {
            assert!(apple != *c, "food landed on the snake at {:?}", (apple.idx_x, apple.idx_y));
        }
        assert_eq!(apple.pos_x, apple.idx_x as i64 * 10);
        assert_eq!(apple.pos_y, apple.idx_y as i64 * 10);
    }
}

#[test]
fn score_grows_by_increment_times_speed_squared() {
    let config = Config::default();
    let speed = Speed { in_blocks_milli: 10_000, res: 10 };
    let mut score = Score::default();
    increment_score(&config, &mut score, &speed);
    assert_eq!(score.n_apples, 1);
    // 1 * 10^2 cell edges per second squared, in thousandths: 100_000
    assert_eq!(score.score_milli, 100_000);
    increment_score(&config, &mut score, &speed);
    assert_eq!(score.n_apples, 2);
    assert_eq!(score.score_milli, 200_000);
}

#[test]
fn speed_rises_exactly_on_every_third_apple() {
    let config = Config::default();
    let mut speed = Speed { in_blocks_milli: 10_000, res: 10 };
    let mut score = Score::default();
    let mut expected: u64 = 10_000;
    for apple in 1u32..=9 {
        increment_score(&config, &mut score, &speed);
        speed_up(&config, &score, &mut speed);
        if apple % 3 == 0 {
            expected = expected * 11 / 10;
        }
        assert_eq!(speed.in_blocks_milli, expected, "after apple {}", apple);
    }
    // compounding: 10.0 -> 11.0 -> 12.1 -> 13.31 over apples 3, 6, 9
    assert_eq!(speed.in_blocks_milli, 13_310);
}

#[test]
fn speed_is_unchanged_off_the_multiples() {
    let config = Config::default();
    let mut speed = Speed { in_blocks_milli: 10_000, res: 10 };
    let score = Score { n_apples: 4, score_milli: 0 };
    speed_up(&config, &score, &mut speed);
    assert_eq!(speed.in_blocks_milli, 10_000);
    let score = Score { n_apples: 6, score_milli: 0 };
    speed_up(&config, &score, &mut speed);
    assert_eq!(speed.in_blocks_milli, 11_000);
}

#[test]
fn config_default_matches_the_documented_startup_values() {
    let c = Config::default();
    assert_eq!(c.n_vertical_cells, 25);
    assert_eq!(c.n_horizontal_cells, 45);
    assert_eq!(c.initial_bodylength, 3);
    assert_eq!(c.initial_speed_milli, 10_000);
    assert_eq!(c.n_elements_per_apple, 1);
    assert_eq!(c.score_increment, 1);
}

#[test]
fn speed_converts_blocks_to_subunits_through_the_resolution() {
    let speed = Speed { in_blocks_milli: 10_000, res: 10 };
    assert_eq!(speed.in_blocks(), 10_000);
    // 10 cell edges per second at 10 subunits per edge
    assert_eq!(speed.in_pixels(), 100);
    let fine = Speed { in_blocks_milli: 2_500, res: 1000 };
    assert_eq!(fine.in_pixels(), 2_500);
}
