use snakes_and_crabs::grid::{Cell, Grid};

fn grid(max_x: i32, max_y: i32, cell_size: i64) -> Grid {
    Grid { max_idx_x: max_x, max_idx_y: max_y, cell_size }
}

#[test]
fn new_keeps_odd_counts_and_picks_smaller_resolution() {
    let g = Grid::new(450, 250, 45, 25);
    assert_eq!(g.max_idx_x, 22);
    assert_eq!(g.max_idx_y, 12);
    assert_eq!(g.cell_size, 10);
}

#[test]
fn new_bumps_even_counts_to_next_odd() {
    let g = Grid::new(500, 300, 4, 2);
    // 4 -> 5 cells, 2 -> 3 cells
    assert_eq!(g.max_idx_x, 2);
    assert_eq!(g.max_idx_y, 1);
    assert_eq!(g.cell_size, 100);
}

#[test]
fn cell_from_position_rounds_half_away_from_zero() {
    let g = grid(3, 3, 10);
    assert_eq!(g.get_cell_from_position(14, 0).idx_x, 1);
    assert_eq!(g.get_cell_from_position(15, 0).idx_x, 2);
    assert_eq!(g.get_cell_from_position(17, 0).idx_x, 2);
    assert_eq!(g.get_cell_from_position(-14, 0).idx_x, -1);
    assert_eq!(g.get_cell_from_position(-15, 0).idx_x, -2);
    assert_eq!(g.get_cell_from_position(0, -17).idx_y, -2);
    assert_eq!(g.get_cell_from_position(0, 0).idx_x, 0);
}

#[test]
fn cell_from_position_recomputes_canonical_coordinates() {
    let g = grid(3, 3, 10);
    let c = g.get_cell_from_position(17, -14);
    assert_eq!((c.idx_x, c.idx_y), (2, -1));
    assert_eq!((c.pos_x, c.pos_y), (20, -10));
}

#[test]
fn index_derivation_round_trips() {
    let g = grid(5, 5, 7);
    for p in [-33i64, -18, -4, 0, 3, 11, 25, 30] {
        let c1 = g.get_cell_from_position(p, -p);
        let c2 = g.get_cell_from_index(c1.idx_x, c1.idx_y);
        assert_eq!(c2.idx_x, c1.idx_x);
        assert_eq!(c2.idx_y, c1.idx_y);
        let c3 = g.get_cell_from_position(c2.pos_x, c2.pos_y);
        assert_eq!(c3.idx_x, c1.idx_x);
        assert_eq!(c3.idx_y, c1.idx_y);
    }
}

#[test]
fn cell_equality_ignores_continuous_coordinates() {
    let a = Cell { pos_x: 10, pos_y: 10, idx_x: 1, idx_y: 1 };
    // stale cached projection, same indices
    let b = Cell { pos_x: 777, pos_y: -3, idx_x: 1, idx_y: 1 };
    assert!(a == b);
    let c = Cell { pos_x: 10, pos_y: 10, idx_x: 1, idx_y: 2 };
    assert!(a != c);
}

#[test]
fn inside_walls_is_strict() {
    let g = grid(3, 3, 10);
    assert!(g.is_inside_walls(0, 0));
    assert!(g.is_inside_walls(2, -2));
    assert!(!g.is_inside_walls(3, 0));
    assert!(!g.is_inside_walls(0, -3));
    assert!(!g.is_inside_walls(-3, 3));
}

#[test]
fn wall_enumerates_perimeter_without_duplicate_corners() {
    let g = grid(2, 2, 10);
    let wall = g.get_wall();
    assert_eq!(wall.len(), 16);
    let mut seen: Vec<(i32, i32)> = Vec::new();
    for c in &wall {
        let pair = (c.idx_x, c.idx_y);
        assert!(c.idx_x.abs() == 2 || c.idx_y.abs() == 2);
        assert!(c.idx_x.abs() <= 2 && c.idx_y.abs() <= 2);
        assert!(!seen.contains(&pair), "duplicate wall cell {:?}", pair);
        assert_eq!(c.pos_x, c.idx_x as i64 * 10);
        assert_eq!(c.pos_y, c.idx_y as i64 * 10);
        seen.push(pair);
    }
    // completeness: every perimeter index pair appears
    for x in -2i32..=2 {
        for y in -2i32..=2 {
            if x.abs() == 2 || y.abs() == 2 {
                assert!(seen.contains(&(x, y)), "missing wall cell {:?}", (x, y));
            }
        }
    }
}

#[test]
fn cell_set_copies_every_field() {
    let mut a = Cell { pos_x: 0, pos_y: 0, idx_x: 0, idx_y: 0 };
    let b = Cell { pos_x: 30, pos_y: -10, idx_x: 3, idx_y: -1 };
    a.set(&b);
    assert_eq!((a.pos_x, a.pos_y, a.idx_x, a.idx_y), (30, -10, 3, -1));
}
