use sandgrid::{Cell, Tools};

#[test]
fn the_default_list_starts_on_sand() {
    let t = Tools::new();
    assert_eq!(t.len(), 4);
    assert_eq!(t.index(), 0);
    assert_eq!(t.current(), Cell::Granular);
}

#[test]
fn retreat_from_zero_wraps_to_the_last_index() {
    let mut t = Tools::new();
    assert_eq!(t.index(), 0);
    t.retreat();
    assert_eq!(t.index(), t.len() - 1);
    assert_eq!(t.current(), Cell::Empty);
}

#[test]
fn advance_from_the_last_index_wraps_to_zero() {
    let mut t = Tools::new();
    t.retreat();
    assert_eq!(t.index(), 3);
    t.advance();
    assert_eq!(t.index(), 0);
}

#[test]
fn advance_walks_the_whole_cycle() {
    let mut t = Tools::new();
    let mut seen = Vec::new();
    for _ in 0..4 {
        seen.push(t.current());
        t.advance();
    }
    assert_eq!(t.index(), 0);
    assert_eq!(seen, vec![Cell::Granular, Cell::Liquid, Cell::Solid, Cell::Empty]);
}

#[test]
fn retreat_then_advance_returns_to_the_start() {
    let mut t = Tools::new();
    t.retreat();
    t.advance();
    assert_eq!(t.index(), 0);
}

#[test]
fn select_moves_to_the_kind_position() {
    let mut t = Tools::new();
    t.select(Cell::Solid);
    assert_eq!(t.index(), 2);
    assert_eq!(t.current(), Cell::Solid);
    t.select(Cell::Liquid);
    assert_eq!(t.index(), 1);
    t.select(Cell::Granular);
    assert_eq!(t.index(), 0);
    t.select(Cell::Empty);
    assert_eq!(t.index(), 3);
}
