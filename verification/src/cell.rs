//! The kinds a grid cell can hold.

use vstd::prelude::*;

verus! {

/// A grid cell carries a kind and nothing else: the kind alone decides
/// how the cell behaves during a simulation step.
#[derive(Clone, Copy, Debug, PartialEq, Eq, Structural)]
pub enum Cell {
    /// Background. Movers may enter an empty cell; it never moves itself.
    Empty,
    /// Granular matter ("sand"): falls straight down and piles up by
    /// settling diagonally when blocked.
    Granular,
    /// Liquid matter ("water"): falls, settles diagonally, and in
    /// addition spreads sideways along a row, which levels it out.
    Liquid,
    /// Immovable matter: never transitions and blocks everything.
    Solid,
}

impl Cell {
    /// True exactly on the background kind.
    pub fn is_empty(&self) -> (r: bool)
        ensures
            r == (*self == Cell::Empty),
    {
        match self {
            Cell::Empty => true,
            _ => false,
        }
    }

    /// A cell blocks downward motion unless it is empty.
    pub fn is_blocking(&self) -> (r: bool)
        ensures
            r == (*self != Cell::Empty),
    {
        match self {
            Cell::Empty => false,
            _ => true,
        }
    }
}

impl Default for Cell {
    /// The background kind.
    fn default() -> (r: Self)
        ensures
            r == Cell::Empty,
    {
        Cell::Empty
    }
}

} // verus!
