use sandgrid::{Cell, Grid};

/// All cells of the grid in row-major order.
fn cells_of(g: &Grid) -> Vec<Cell> {
    let mut out = Vec::new();
    for y in 0..g.height() {
        for x in 0..g.width() {
            out.push(g.cell_at(x, y));
        }
    }
    out
}

fn occupied(g: &Grid) -> usize {
    cells_of(g).iter().filter(|c| **c != Cell::Empty).count()
}

#[test]
fn new_rejects_zero_dimensions() {
    assert!(Grid::new(0, 5).is_none());
    assert!(Grid::new(5, 0).is_none());
    assert!(Grid::new(0, 0).is_none());
}

#[test]
fn new_starts_all_empty() {
    let g = Grid::new(4, 3).unwrap();
    assert_eq!(g.width(), 4);
    assert_eq!(g.height(), 3);
    for y in 0..3 {
        for x in 0..4 {
            assert_eq!(g.cell_at(x, y), Cell::Empty);
        }
    }
}

#[test]
fn paint_changes_only_the_target() {
    let mut g = Grid::new(5, 4).unwrap();
    g.set_cell(3, 1, Cell::Solid);
    g.set_cell(2, 1, Cell::Granular);
    for y in 0..4 {
        for x in 0..5 {
            let expected = if (x, y) == (2, 1) {
                Cell::Granular
            } else if (x, y) == (3, 1) {
                Cell::Solid
            } else {
                Cell::Empty
            };
            assert_eq!(g.cell_at(x, y), expected);
        }
    }
}

#[test]
fn paint_twice_is_paint_once() {
    let mut once = Grid::new(6, 6).unwrap();
    once.set_cell(4, 2, Cell::Liquid);
    let mut twice = Grid::new(6, 6).unwrap();
    twice.set_cell(4, 2, Cell::Liquid);
    twice.set_cell(4, 2, Cell::Liquid);
    assert_eq!(cells_of(&once), cells_of(&twice));
}

#[test]
fn granular_falls_one_row_per_step() {
    let mut g = Grid::new(3, 5).unwrap();
    g.set_cell(1, 0, Cell::Granular);
    for y in 1..5 {
        g.step();
        assert_eq!(g.cell_at(1, y), Cell::Granular);
        assert_eq!(g.cell_at(1, y - 1), Cell::Empty);
        assert_eq!(occupied(&g), 1);
    }
    // The cell has reached the exempt bottom row and rests there.
    g.step();
    assert_eq!(g.cell_at(1, 4), Cell::Granular);
}

#[test]
fn liquid_falls_one_row_per_step() {
    let mut g = Grid::new(3, 4).unwrap();
    g.set_cell(1, 0, Cell::Liquid);
    for y in 1..4 {
        g.step();
        assert_eq!(g.cell_at(1, y), Cell::Liquid);
        assert_eq!(occupied(&g), 1);
    }
}

#[test]
fn granular_settles_diagonally_right() {
    let mut g = Grid::new(4, 4).unwrap();
    g.set_cell(1, 1, Cell::Granular);
    g.set_cell(1, 2, Cell::Solid);
    g.step();
    assert_eq!(g.cell_at(1, 1), Cell::Empty);
    assert_eq!(g.cell_at(2, 2), Cell::Granular);
    assert_eq!(g.cell_at(1, 2), Cell::Solid);
}

#[test]
fn granular_settles_diagonally_left_when_right_is_taken() {
    let mut g = Grid::new(5, 4).unwrap();
    g.set_cell(2, 1, Cell::Granular);
    g.set_cell(2, 2, Cell::Solid);
    g.set_cell(3, 2, Cell::Solid);
    g.step();
    assert_eq!(g.cell_at(2, 1), Cell::Empty);
    assert_eq!(g.cell_at(1, 2), Cell::Granular);
}

#[test]
fn granular_stays_when_both_sides_are_blocked() {
    let mut g = Grid::new(3, 3).unwrap();
    g.set_cell(1, 1, Cell::Granular);
    g.set_cell(1, 2, Cell::Solid);
    g.set_cell(2, 2, Cell::Solid);
    g.set_cell(0, 2, Cell::Solid);
    g.step();
    assert_eq!(g.cell_at(1, 1), Cell::Granular);
    assert_eq!(occupied(&g), 4);
}

#[test]
fn liquid_spreads_laterally_right() {
    let mut g = Grid::new(4, 3).unwrap();
    g.set_cell(1, 1, Cell::Liquid);
    g.set_cell(1, 2, Cell::Solid);
    g.set_cell(2, 2, Cell::Solid);
    g.step();
    // Blocked below and diagonally below-right: the move is lateral.
    assert_eq!(g.cell_at(1, 1), Cell::Empty);
    assert_eq!(g.cell_at(2, 1), Cell::Liquid);
}

#[test]
fn liquid_spreads_laterally_left_when_right_is_taken() {
    let mut g = Grid::new(5, 3).unwrap();
    g.set_cell(2, 1, Cell::Liquid);
    g.set_cell(2, 2, Cell::Solid);
    g.set_cell(3, 1, Cell::Solid);
    g.set_cell(1, 2, Cell::Solid);
    g.step();
    assert_eq!(g.cell_at(2, 1), Cell::Empty);
    assert_eq!(g.cell_at(1, 1), Cell::Liquid);
}

#[test]
fn step_is_a_no_op_on_an_all_empty_grid() {
    let mut g = Grid::new(7, 5).unwrap();
    g.step();
    assert!(cells_of(&g).iter().all(|c| *c == Cell::Empty));
    g.update();
    assert!(cells_of(&g).iter().all(|c| *c == Cell::Empty));
}

#[test]
fn step_is_a_no_op_on_an_all_solid_grid() {
    let mut g = Grid::new(6, 4).unwrap();
    for y in 0..4 {
        for x in 0..6 {
            g.set_cell(x, y, Cell::Solid);
        }
    }
    let before = cells_of(&g);
    g.step();
    assert_eq!(cells_of(&g), before);
    g.update();
    assert_eq!(cells_of(&g), before);
}

#[test]
fn occupied_border_cells_never_change_in_a_step() {
    let mut g = Grid::new(6, 5).unwrap();
    // A solid ring on the exempt border, movers inside.
    for x in 0..6 {
        g.set_cell(x, 4, Cell::Solid);
    }
    for y in 0..5 {
        g.set_cell(0, y, Cell::Solid);
        g.set_cell(5, y, Cell::Solid);
    }
    g.set_cell(2, 1, Cell::Granular);
    g.set_cell(3, 1, Cell::Liquid);
    for _ in 0..8 {
        g.step();
        for x in 0..6 {
            assert_eq!(g.cell_at(x, 4), Cell::Solid);
        }
        for y in 0..5 {
            assert_eq!(g.cell_at(0, y), Cell::Solid);
            assert_eq!(g.cell_at(5, y), Cell::Solid);
        }
    }
}

#[test]
fn border_cells_are_never_transitioned() {
    // A mover sitting on the exempt border keeps its place: its own
    // rule never runs there.
    let mut g = Grid::new(4, 4).unwrap();
    g.set_cell(0, 0, Cell::Granular);
    g.set_cell(3, 1, Cell::Liquid);
    g.set_cell(1, 3, Cell::Granular);
    for _ in 0..5 {
        g.step();
    }
    assert_eq!(g.cell_at(0, 0), Cell::Granular);
    assert_eq!(g.cell_at(3, 1), Cell::Liquid);
    assert_eq!(g.cell_at(1, 3), Cell::Granular);
}

#[test]
fn a_mover_may_fall_into_the_bottom_border_row() {
    let mut g = Grid::new(3, 3).unwrap();
    g.set_cell(1, 1, Cell::Granular);
    g.step();
    assert_eq!(g.cell_at(1, 2), Cell::Granular);
    assert_eq!(g.cell_at(1, 1), Cell::Empty);
}

#[test]
fn mass_is_conserved_across_deterministic_steps() {
    let mut g = Grid::new(9, 7).unwrap();
    for x in 1..8 {
        g.set_cell(x, 0, if x % 2 == 0 { Cell::Granular } else { Cell::Liquid });
    }
    g.set_cell(4, 4, Cell::Solid);
    g.set_cell(5, 4, Cell::Solid);
    let before = occupied(&g);
    for _ in 0..12 {
        g.step();
        assert_eq!(occupied(&g), before);
    }
}

#[test]
fn mass_is_conserved_across_randomized_updates() {
    let mut g = Grid::new(9, 7).unwrap();
    for x in 1..8 {
        g.set_cell(x, 0, if x % 3 == 0 { Cell::Liquid } else { Cell::Granular });
        g.set_cell(x, 5, Cell::Solid);
    }
    let before = occupied(&g);
    for _ in 0..12 {
        g.update();
        assert_eq!(occupied(&g), before);
    }
}

#[test]
fn randomized_update_still_falls_straight_down() {
    // The tie-break bit only matters when a cell is blocked: a lone
    // mover over empty space falls identically under either draw.
    let mut g = Grid::new(3, 4).unwrap();
    g.set_cell(1, 0, Cell::Granular);
    g.update();
    assert_eq!(g.cell_at(1, 1), Cell::Granular);
    assert_eq!(g.cell_at(1, 0), Cell::Empty);
}

#[test]
fn cell_kind_predicates() {
    assert!(Cell::Empty.is_empty());
    assert!(!Cell::Empty.is_blocking());
    assert!(!Cell::Granular.is_empty());
    assert!(Cell::Granular.is_blocking());
    assert!(Cell::Liquid.is_blocking());
    assert!(Cell::Solid.is_blocking());
    assert_eq!(Cell::default(), Cell::Empty);
}
