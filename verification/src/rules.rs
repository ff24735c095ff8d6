//! The mathematical model of the update engine: where each kind of cell
//! moves, and how one pass sweeps the whole sheet.
//!
//! A grid of width `w` and height `h` is modelled as a row-major
//! `Seq<Cell>` of length `w * h`; the cell at `(x, y)` sits at index
//! `y * w + x`, with the origin at the top left and `y` growing downward
//! (the direction of gravity).

use vstd::prelude::*;

use crate::cell::Cell;

verus! {

/// Row-major index of the coordinate `(x, y)` in a sheet `w` cells wide.
pub open spec fn idx(w: int, x: int, y: int) -> int {
    y * w + x
}

/// The interior region: the coordinates whose transition rule runs
/// during a pass. The outermost columns and the bottom row are exempt,
/// so a rule never reads a neighbor outside the sheet.
pub open spec fn interior(w: int, h: int, x: int, y: int) -> bool {
    &&& 1 <= x
    &&& x + 1 < w
    &&& 0 <= y
    &&& y + 1 < h
}

/// The update-exempt border: in bounds but not interior.
pub open spec fn border(w: int, h: int, x: int, y: int) -> bool {
    &&& 0 <= x < w
    &&& 0 <= y < h
    &&& !interior(w, h, x, y)
}

/// 1 for an occupied (non-empty) cell, 0 for the background.
pub open spec fn occ(c: Cell) -> int {
    if c == Cell::Empty {
        0
    } else {
        1
    }
}

/// How many cells of the sheet are occupied.
pub open spec fn count_occ(g: Seq<Cell>) -> int
    decreases g.len(),
{
    if g.len() == 0 {
        0
    } else {
        count_occ(g.drop_last()) + occ(g.last())
    }
}

/// One move of a mover of kind `k` from `src` to `dst`: the source is
/// vacated and the kind written at the destination. A stay writes the
/// kind back at the source, so the sheet is unchanged there.
pub open spec fn apply_move(g: Seq<Cell>, src: int, dst: int, k: Cell) -> Seq<Cell> {
    g.update(src, Cell::Empty).update(dst, k)
}

/// Where a granular cell at `(x, y)` of the sheet `g` goes under the
/// deterministic order: straight down when the cell below is empty;
/// else diagonally right, then diagonally left, when both the lateral
/// and the diagonal cell on that side are empty; else it stays put.
pub open spec fn granular_dest(g: Seq<Cell>, w: int, x: int, y: int) -> int {
    if g[idx(w, x, y + 1)] == Cell::Empty {
        idx(w, x, y + 1)
    } else if g[idx(w, x + 1, y)] == Cell::Empty && g[idx(w, x + 1, y + 1)] == Cell::Empty {
        idx(w, x + 1, y + 1)
    } else if g[idx(w, x - 1, y)] == Cell::Empty && g[idx(w, x - 1, y + 1)] == Cell::Empty {
        idx(w, x - 1, y + 1)
    } else {
        idx(w, x, y)
    }
}

/// Where a liquid cell goes under the deterministic order: straight
/// down; else diagonally right; else laterally right when only the
/// diagonal is taken; else the same two checks on the left; else it
/// stays. The lateral moves are what distinguish liquid from sand.
pub open spec fn liquid_dest(g: Seq<Cell>, w: int, x: int, y: int) -> int {
    if g[idx(w, x, y + 1)] == Cell::Empty {
        idx(w, x, y + 1)
    } else if g[idx(w, x + 1, y)] == Cell::Empty && g[idx(w, x + 1, y + 1)] == Cell::Empty {
        idx(w, x + 1, y + 1)
    } else if g[idx(w, x + 1, y)] == Cell::Empty {
        idx(w, x + 1, y)
    } else if g[idx(w, x - 1, y)] == Cell::Empty && g[idx(w, x - 1, y + 1)] == Cell::Empty {
        idx(w, x - 1, y + 1)
    } else if g[idx(w, x - 1, y)] == Cell::Empty {
        idx(w, x - 1, y)
    } else {
        idx(w, x, y)
    }
}

/// Where a blocked granular cell goes under a randomized tie-break:
/// only the preferred side (right when `prefer_right`) is tried, and a
/// blocked preferred side means the cell stays put — the other side is
/// deliberately never consulted.
pub open spec fn granular_dest_pref(
    g: Seq<Cell>,
    w: int,
    x: int,
    y: int,
    prefer_right: bool,
) -> int {
    if g[idx(w, x, y + 1)] == Cell::Empty {
        idx(w, x, y + 1)
    } else if prefer_right {
        if g[idx(w, x + 1, y)] == Cell::Empty && g[idx(w, x + 1, y + 1)] == Cell::Empty {
            idx(w, x + 1, y + 1)
        } else {
            idx(w, x, y)
        }
    } else {
        if g[idx(w, x - 1, y)] == Cell::Empty && g[idx(w, x - 1, y + 1)] == Cell::Empty {
            idx(w, x - 1, y + 1)
        } else {
            idx(w, x, y)
        }
    }
}

/// Liquid under a randomized tie-break: on the preferred side alone,
/// settle diagonally when both cells there are empty, else move
/// laterally when just the lateral cell is empty, else stay put.
pub open spec fn liquid_dest_pref(
    g: Seq<Cell>,
    w: int,
    x: int,
    y: int,
    prefer_right: bool,
) -> int {
    if g[idx(w, x, y + 1)] == Cell::Empty {
        idx(w, x, y + 1)
    } else if prefer_right {
        if g[idx(w, x + 1, y)] == Cell::Empty && g[idx(w, x + 1, y + 1)] == Cell::Empty {
            idx(w, x + 1, y + 1)
        } else if g[idx(w, x + 1, y)] == Cell::Empty {
            idx(w, x + 1, y)
        } else {
            idx(w, x, y)
        }
    } else {
        if g[idx(w, x - 1, y)] == Cell::Empty && g[idx(w, x - 1, y + 1)] == Cell::Empty {
            idx(w, x - 1, y + 1)
        } else if g[idx(w, x - 1, y)] == Cell::Empty {
            idx(w, x - 1, y)
        } else {
            idx(w, x, y)
        }
    }
}

/// The destination of the cell at `(x, y)` whose snapshot kind is `k`,
/// under the deterministic order; `None` for the kinds that never
/// transition.
pub open spec fn dest_det(g: Seq<Cell>, w: int, x: int, y: int, k: Cell) -> Option<int> {
    match k {
        Cell::Granular => Some(granular_dest(g, w, x, y)),
        Cell::Liquid => Some(liquid_dest(g, w, x, y)),
        _ => None,
    }
}

/// The destination under a randomized tie-break toward one side.
pub open spec fn dest_pref(
    g: Seq<Cell>,
    w: int,
    x: int,
    y: int,
    k: Cell,
    prefer_right: bool,
) -> Option<int> {
    match k {
        Cell::Granular => Some(granular_dest_pref(g, w, x, y, prefer_right)),
        Cell::Liquid => Some(liquid_dest_pref(g, w, x, y, prefer_right)),
        _ => None,
    }
}

/// One cell's transition on the live sheet: apply the move when the
/// rule produced one, else leave the sheet alone.
pub open spec fn cell_step(g: Seq<Cell>, w: int, x: int, y: int, k: Cell, d: Option<int>) -> Seq<
    Cell,
> {
    match d {
        None => g,
        Some(dst) => apply_move(g, idx(w, x, y), dst, k),
    }
}

/// One cell's transition under the deterministic order.
pub open spec fn cell_step_det(g: Seq<Cell>, w: int, x: int, y: int, k: Cell) -> Seq<Cell> {
    cell_step(g, w, x, y, k, dest_det(g, w, x, y, k))
}

/// One cell's transition under a randomized tie-break.
pub open spec fn cell_step_pref(
    g: Seq<Cell>,
    w: int,
    x: int,
    y: int,
    k: Cell,
    prefer_right: bool,
) -> Seq<Cell> {
    cell_step(g, w, x, y, k, dest_pref(g, w, x, y, k, prefer_right))
}

/// The live sheet after the first `n` scan positions of a deterministic
/// pass. Scan position `i = y * w + x` is visited in ascending order
/// (rows top to bottom, left to right within a row); the kind is read
/// once per pass from the `snap`shot taken before the pass, while the
/// rules read their neighbors from the live sheet built so far — so a
/// pass may see moves made earlier in the same pass.
pub open spec fn sweep_det(snap: Seq<Cell>, g: Seq<Cell>, w: int, h: int, n: int) -> Seq<Cell>
    decreases n,
{
    if n <= 0 {
        g
    } else {
        let i = n - 1;
        let prev = sweep_det(snap, g, w, h, i);
        if interior(w, h, i % w, i / w) {
            cell_step_det(prev, w, i % w, i / w, snap[i])
        } else {
            prev
        }
    }
}

/// The whole deterministic pass over a sheet.
pub open spec fn step_spec(g: Seq<Cell>, w: int, h: int) -> Seq<Cell> {
    sweep_det(g, g, w, h, w * h)
}

/// The live sheet after the first `n` scan positions of a randomized
/// pass: as `sweep_det`, but the cell at scan position `i` breaks its
/// tie with the preference `bits[i]`.
pub open spec fn sweep_pref(
    snap: Seq<Cell>,
    g: Seq<Cell>,
    w: int,
    h: int,
    bits: Seq<bool>,
    n: int,
) -> Seq<Cell>
    decreases n,
{
    if n <= 0 {
        g
    } else {
        let i = n - 1;
        let prev = sweep_pref(snap, g, w, h, bits, i);
        if interior(w, h, i % w, i / w) {
            cell_step_pref(prev, w, i % w, i / w, snap[i], bits[i])
        } else {
            prev
        }
    }
}

/// The whole randomized pass over a sheet, under a given sequence of
/// tie-break preferences.
pub open spec fn step_pref_spec(g: Seq<Cell>, w: int, h: int, bits: Seq<bool>) -> Seq<Cell> {
    sweep_pref(g, g, w, h, bits, w * h)
}

} // verus!
