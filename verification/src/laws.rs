//! Proved laws of the update engine: facts about row-major indexing,
//! about a single cell's transition, and about whole passes — mass
//! conservation, border stability, inertness, and the motion of a lone
//! mover.

use vstd::prelude::*;

use crate::cell::Cell;
use crate::rules::{
    apply_move, border, cell_step_det, cell_step_pref, count_occ, dest_det, dest_pref,
    granular_dest, granular_dest_pref, idx, interior, liquid_dest, liquid_dest_pref, occ,
    step_pref_spec, step_spec, sweep_det, sweep_pref,
};

verus! {

/// Every in-bounds coordinate has an in-bounds row-major index.
pub proof fn lemma_idx_bounds(w: int, h: int, x: int, y: int)
    requires
        0 <= x < w,
        0 <= y < h,
    ensures
        0 <= idx(w, x, y) < w * h,
{
    assert(0 <= y * w + x < w * h) by (nonlinear_arith)
        requires
            0 <= x < w,
            0 <= y < h,
    ;
}

/// The row-major index determines the coordinate: index `i` lies in row
/// `i / w` at column `i % w`.
pub proof fn lemma_idx_div_mod(w: int, x: int, y: int)
    requires
        0 <= x < w,
        0 <= y,
    ensures
        idx(w, x, y) % w == x,
        idx(w, x, y) / w == y,
{
    vstd::arithmetic::div_mod::lemma_fundamental_div_mod_converse(idx(w, x, y), w, y, x);
}

/// How the indices of an interior cell and of its five neighbors relate:
/// all distinct, all in bounds, and at fixed offsets from the source.
pub proof fn lemma_neighborhood(w: int, h: int, x: int, y: int)
    requires
        interior(w, h, x, y),
    ensures
        w >= 3,
        h >= 2,
        idx(w, x + 1, y) == idx(w, x, y) + 1,
        idx(w, x - 1, y) == idx(w, x, y) - 1,
        idx(w, x, y + 1) == idx(w, x, y) + w,
        idx(w, x + 1, y + 1) == idx(w, x, y) + w + 1,
        idx(w, x - 1, y + 1) == idx(w, x, y) + w - 1,
        1 <= idx(w, x, y),
        idx(w, x + 1, y + 1) < w * h,
{
    assert((y + 1) * w == y * w + w) by (nonlinear_arith);
    assert(y * w >= 0) by (nonlinear_arith)
        requires
            y >= 0,
            w >= 0,
    ;
    assert((y + 1) * w + (x + 1) < w * h) by (nonlinear_arith)
        requires
            0 <= x + 1 < w,
            0 <= y + 1 < h,
    ;
}

/// Updating one cell changes the occupied count by the occupancy of the
/// new kind minus that of the old.
pub proof fn lemma_count_occ_update(g: Seq<Cell>, i: int, v: Cell)
    requires
        0 <= i < g.len(),
    ensures
        count_occ(g.update(i, v)) == count_occ(g) - occ(g[i]) + occ(v),
    decreases g.len(),
{
    let u = g.update(i, v);
    if i == g.len() - 1 {
        assert(u.drop_last() =~= g.drop_last());
    } else {
        assert(u.drop_last() =~= g.drop_last().update(i, v));
        lemma_count_occ_update(g.drop_last(), i, v);
    }
}

/// What one move preserves, wherever the destination lies: the sheet's
/// length and its occupied count; and every cell but the vacated source
/// and the filled destination keeps its kind. In particular an occupied
/// cell other than the source is never touched, because a move only
/// ever fills an empty destination.
pub proof fn lemma_apply_move(g: Seq<Cell>, w: int, h: int, x: int, y: int, k: Cell, dst: int)
    requires
        g.len() == w * h,
        interior(w, h, x, y),
        k != Cell::Empty,
        g[idx(w, x, y)] == k,
        0 <= dst < w * h,
        dst == idx(w, x, y) || g[dst] == Cell::Empty,
    ensures
        ({
            let r = apply_move(g, idx(w, x, y), dst, k);
            &&& r.len() == w * h
            &&& count_occ(r) == count_occ(g)
            &&& forall|j: int|
                0 <= j < w * h && j != idx(w, x, y) && j != dst ==> r[j] == g[j]
            &&& forall|j: int|
                0 <= j < w * h && j != idx(w, x, y) && g[j] != Cell::Empty ==> r[j] == g[j]
            &&& r[dst] == k
        }),
{
    let src = idx(w, x, y);
    lemma_idx_bounds(w, h, x, y);
    let mid = g.update(src, Cell::Empty);
    lemma_count_occ_update(g, src, Cell::Empty);
    lemma_count_occ_update(mid, dst, k);
}

/// A mobile kind always has a deterministic destination, and it is an
/// in-bounds cell that is either empty on the live sheet or the source
/// itself (a stay).
pub proof fn lemma_dest_det_ok(g: Seq<Cell>, w: int, h: int, x: int, y: int, k: Cell)
    requires
        g.len() == w * h,
        interior(w, h, x, y),
        k == Cell::Granular || k == Cell::Liquid,
    ensures
        dest_det(g, w, x, y, k) is Some,
        ({
            let dst = dest_det(g, w, x, y, k)->Some_0;
            &&& 0 <= dst < w * h
            &&& dst == idx(w, x, y) || g[dst] == Cell::Empty
        }),
{
    lemma_neighborhood(w, h, x, y);
}

/// As `lemma_dest_det_ok`, for the randomized tie-break.
pub proof fn lemma_dest_pref_ok(
    g: Seq<Cell>,
    w: int,
    h: int,
    x: int,
    y: int,
    k: Cell,
    b: bool,
)
    requires
        g.len() == w * h,
        interior(w, h, x, y),
        k == Cell::Granular || k == Cell::Liquid,
    ensures
        dest_pref(g, w, x, y, k, b) is Some,
        ({
            let dst = dest_pref(g, w, x, y, k, b)->Some_0;
            &&& 0 <= dst < w * h
            &&& dst == idx(w, x, y) || g[dst] == Cell::Empty
        }),
{
    lemma_neighborhood(w, h, x, y);
}

/// The run of a randomized pass depends only on the tie-break
/// preferences of the scan positions already visited.
pub proof fn lemma_sweep_pref_agree(
    snap: Seq<Cell>,
    g: Seq<Cell>,
    w: int,
    h: int,
    bits1: Seq<bool>,
    bits2: Seq<bool>,
    n: int,
)
    requires
        forall|i: int| 0 <= i < n ==> bits1[i] == bits2[i],
    ensures
        sweep_pref(snap, g, w, h, bits1, n) == sweep_pref(snap, g, w, h, bits2, n),
    decreases n,
{
    if n > 0 {
        lemma_sweep_pref_agree(snap, g, w, h, bits1, bits2, n - 1);
    }
}

/// What any deterministic pass keeps, proved by induction over the
/// scan: the sheet's length; its occupied count (mass is neither
/// created nor destroyed); the kind of every occupied cell the scan has
/// not yet reached; and the kind of every occupied border cell.
pub proof fn lemma_sweep_det_invariants(snap: Seq<Cell>, w: int, h: int, n: int)
    requires
        w >= 1,
        h >= 1,
        snap.len() == w * h,
        0 <= n <= w * h,
    ensures
        ({
            let r = sweep_det(snap, snap, w, h, n);
            &&& r.len() == w * h
            &&& count_occ(r) == count_occ(snap)
            &&& forall|i: int| n <= i < w * h && snap[i] != Cell::Empty ==> r[i] == snap[i]
            &&& forall|x: int, y: int|
                #[trigger] border(w, h, x, y) && snap[idx(w, x, y)] != Cell::Empty
                    ==> r[idx(w, x, y)] == snap[idx(w, x, y)]
        }),
    decreases n,
{
    if n > 0 {
        lemma_sweep_det_invariants(snap, w, h, n - 1);
        let i = n - 1;
        let x = i % w;
        let y = i / w;
        let prev = sweep_det(snap, snap, w, h, i);
        let r = sweep_det(snap, snap, w, h, n);
        vstd::arithmetic::div_mod::lemma_fundamental_div_mod(i, w);
        assert(w * (i / w) == (i / w) * w) by (nonlinear_arith);
        assert(idx(w, x, y) == i);
        if interior(w, h, x, y) {
            let k = snap[i];
            if k == Cell::Granular || k == Cell::Liquid {
                assert(prev[i] == snap[i]);
                lemma_dest_det_ok(prev, w, h, x, y, k);
                let dst = dest_det(prev, w, x, y, k)->Some_0;
                lemma_apply_move(prev, w, h, x, y, k, dst);
                assert forall|x2: int, y2: int|
                    #[trigger] border(w, h, x2, y2) && snap[idx(w, x2, y2)] != Cell::Empty
                        implies r[idx(w, x2, y2)] == snap[idx(w, x2, y2)] by {
                    lemma_idx_div_mod(w, x2, y2);
                    lemma_idx_bounds(w, h, x2, y2);
                    assert(idx(w, x2, y2) != i);
                }
            } else {
                assert(r == prev);
            }
        }
    }
}

/// As `lemma_sweep_det_invariants`, for a randomized pass: the same
/// facts hold whatever the tie-break preferences were.
pub proof fn lemma_sweep_pref_invariants(snap: Seq<Cell>, w: int, h: int, bits: Seq<bool>, n: int)
    requires
        w >= 1,
        h >= 1,
        snap.len() == w * h,
        0 <= n <= w * h,
    ensures
        ({
            let r = sweep_pref(snap, snap, w, h, bits, n);
            &&& r.len() == w * h
            &&& count_occ(r) == count_occ(snap)
            &&& forall|i: int| n <= i < w * h && snap[i] != Cell::Empty ==> r[i] == snap[i]
            &&& forall|x: int, y: int|
                #[trigger] border(w, h, x, y) && snap[idx(w, x, y)] != Cell::Empty
                    ==> r[idx(w, x, y)] == snap[idx(w, x, y)]
        }),
    decreases n,
{
    if n > 0 {
        lemma_sweep_pref_invariants(snap, w, h, bits, n - 1);
        let i = n - 1;
        let x = i % w;
        let y = i / w;
        let prev = sweep_pref(snap, snap, w, h, bits, i);
        let r = sweep_pref(snap, snap, w, h, bits, n);
        vstd::arithmetic::div_mod::lemma_fundamental_div_mod(i, w);
        assert(w * (i / w) == (i / w) * w) by (nonlinear_arith);
        assert(idx(w, x, y) == i);
        if interior(w, h, x, y) {
            let k = snap[i];
            if k == Cell::Granular || k == Cell::Liquid {
                assert(prev[i] == snap[i]);
                lemma_dest_pref_ok(prev, w, h, x, y, k, bits[i]);
                let dst = dest_pref(prev, w, x, y, k, bits[i])->Some_0;
                lemma_apply_move(prev, w, h, x, y, k, dst);
                assert forall|x2: int, y2: int|
                    #[trigger] border(w, h, x2, y2) && snap[idx(w, x2, y2)] != Cell::Empty
                        implies r[idx(w, x2, y2)] == snap[idx(w, x2, y2)] by {
                    lemma_idx_div_mod(w, x2, y2);
                    lemma_idx_bounds(w, h, x2, y2);
                    assert(idx(w, x2, y2) != i);
                }
            } else {
                assert(r == prev);
            }
        }
    }
}

/// A sheet holding only background and immovable cells never changes:
/// no scan position of a deterministic pass transitions.
pub proof fn lemma_sweep_det_inert(snap: Seq<Cell>, g: Seq<Cell>, w: int, h: int, n: int)
    requires
        n <= snap.len(),
        forall|i: int|
            0 <= i < snap.len() ==> snap[i] == Cell::Empty || snap[i] == Cell::Solid,
    ensures
        sweep_det(snap, g, w, h, n) == g,
    decreases n,
{
    if n > 0 {
        lemma_sweep_det_inert(snap, g, w, h, n - 1);
    }
}

/// As `lemma_sweep_det_inert`, for a randomized pass.
pub proof fn lemma_sweep_pref_inert(
    snap: Seq<Cell>,
    g: Seq<Cell>,
    w: int,
    h: int,
    bits: Seq<bool>,
    n: int,
)
    requires
        n <= snap.len(),
        forall|i: int|
            0 <= i < snap.len() ==> snap[i] == Cell::Empty || snap[i] == Cell::Solid,
    ensures
        sweep_pref(snap, g, w, h, bits, n) == g,
    decreases n,
{
    if n > 0 {
        lemma_sweep_pref_inert(snap, g, w, h, bits, n - 1);
    }
}

/// When a single mover sits among background and immovable cells, a
/// deterministic pass is exactly that one cell's transition: the scan
/// does nothing before it, fires its rule once, and — because the pass
/// reads kinds from the snapshot — does nothing after it, even at the
/// cell it moved into.
pub proof fn lemma_sweep_det_lone(snap: Seq<Cell>, w: int, h: int, x: int, y: int, n: int)
    requires
        w >= 1,
        h >= 1,
        snap.len() == w * h,
        interior(w, h, x, y),
        snap[idx(w, x, y)] == Cell::Granular || snap[idx(w, x, y)] == Cell::Liquid,
        forall|j: int|
            0 <= j < w * h && j != idx(w, x, y) ==> snap[j] == Cell::Empty || snap[j]
                == Cell::Solid,
        0 <= n <= w * h,
    ensures
        n <= idx(w, x, y) ==> sweep_det(snap, snap, w, h, n) == snap,
        n > idx(w, x, y) ==> sweep_det(snap, snap, w, h, n) == cell_step_det(
            snap,
            w,
            x,
            y,
            snap[idx(w, x, y)],
        ),
    decreases n,
{
    if n > 0 {
        lemma_sweep_det_lone(snap, w, h, x, y, n - 1);
        let i = n - 1;
        let src = idx(w, x, y);
        lemma_idx_bounds(w, h, x, y);
        if i == src {
            lemma_idx_div_mod(w, x, y);
        }
    }
}

/// Boundary exemption: a deterministic pass never changes an occupied
/// cell of the update-exempt border (the outermost columns and the
/// bottom row). Because the kind is kept exactly, the fact carries over
/// any number of passes. An *empty* border cell is exempt from its own
/// rule too, but a mover beside it may still fall or settle into it.
pub proof fn lemma_step_border_stable(g: Seq<Cell>, w: int, h: int)
    requires
        w >= 1,
        h >= 1,
        g.len() == w * h,
    ensures
        forall|x: int, y: int|
            #[trigger] border(w, h, x, y) && g[idx(w, x, y)] != Cell::Empty ==> step_spec(
                g,
                w,
                h,
            )[idx(w, x, y)] == g[idx(w, x, y)],
{
    lemma_sweep_det_invariants(g, w, h, w * h);
}

/// As `lemma_step_border_stable`, for a randomized pass under any
/// tie-break preferences.
pub proof fn lemma_step_pref_border_stable(g: Seq<Cell>, w: int, h: int, bits: Seq<bool>)
    requires
        w >= 1,
        h >= 1,
        g.len() == w * h,
    ensures
        forall|x: int, y: int|
            #[trigger] border(w, h, x, y) && g[idx(w, x, y)] != Cell::Empty ==> step_pref_spec(
                g,
                w,
                h,
                bits,
            )[idx(w, x, y)] == g[idx(w, x, y)],
{
    lemma_sweep_pref_invariants(g, w, h, bits, w * h);
}

/// Conservation of mass: a deterministic pass moves cells but neither
/// creates nor destroys them — the occupied count is invariant, so it
/// stays invariant across any sequence of passes.
pub proof fn lemma_step_conserves_mass(g: Seq<Cell>, w: int, h: int)
    requires
        w >= 1,
        h >= 1,
        g.len() == w * h,
    ensures
        count_occ(step_spec(g, w, h)) == count_occ(g),
        step_spec(g, w, h).len() == g.len(),
{
    lemma_sweep_det_invariants(g, w, h, w * h);
}

/// As `lemma_step_conserves_mass`, for a randomized pass under any
/// tie-break preferences.
pub proof fn lemma_step_pref_conserves_mass(g: Seq<Cell>, w: int, h: int, bits: Seq<bool>)
    requires
        w >= 1,
        h >= 1,
        g.len() == w * h,
    ensures
        count_occ(step_pref_spec(g, w, h, bits)) == count_occ(g),
        step_pref_spec(g, w, h, bits).len() == g.len(),
{
    lemma_sweep_pref_invariants(g, w, h, bits, w * h);
}

/// Idempotence on inert sheets: a pass over a sheet holding only
/// background and immovable cells — an all-empty or all-solid grid in
/// particular — leaves it exactly as it was.
pub proof fn lemma_step_inert(g: Seq<Cell>, w: int, h: int)
    requires
        g.len() == w * h,
        forall|i: int| 0 <= i < g.len() ==> g[i] == Cell::Empty || g[i] == Cell::Solid,
    ensures
        step_spec(g, w, h) == g,
{
    lemma_sweep_det_inert(g, g, w, h, w * h);
}

/// As `lemma_step_inert`, for a randomized pass.
pub proof fn lemma_step_pref_inert(g: Seq<Cell>, w: int, h: int, bits: Seq<bool>)
    requires
        g.len() == w * h,
        forall|i: int| 0 <= i < g.len() ==> g[i] == Cell::Empty || g[i] == Cell::Solid,
    ensures
        step_pref_spec(g, w, h, bits) == g,
{
    lemma_sweep_pref_inert(g, g, w, h, bits, w * h);
}

/// A deterministic pass over a sheet with a single mover is exactly
/// that mover's one transition.
pub proof fn lemma_step_lone_mover(g: Seq<Cell>, w: int, h: int, x: int, y: int)
    requires
        w >= 1,
        h >= 1,
        g.len() == w * h,
        interior(w, h, x, y),
        g[idx(w, x, y)] == Cell::Granular || g[idx(w, x, y)] == Cell::Liquid,
        forall|j: int|
            0 <= j < w * h && j != idx(w, x, y) ==> g[j] == Cell::Empty || g[j] == Cell::Solid,
    ensures
        step_spec(g, w, h) == cell_step_det(g, w, x, y, g[idx(w, x, y)]),
{
    lemma_sweep_det_lone(g, w, h, x, y, w * h);
    lemma_idx_bounds(w, h, x, y);
}

/// Straight fall: a lone granular or liquid cell with the cell below it
/// empty moves down exactly one row in one pass, vacating its source —
/// and nothing else on the sheet changes.
pub proof fn lemma_step_straight_fall(g: Seq<Cell>, w: int, h: int, x: int, y: int)
    requires
        w >= 1,
        h >= 1,
        g.len() == w * h,
        interior(w, h, x, y),
        g[idx(w, x, y)] == Cell::Granular || g[idx(w, x, y)] == Cell::Liquid,
        forall|j: int|
            0 <= j < w * h && j != idx(w, x, y) ==> g[j] == Cell::Empty || g[j] == Cell::Solid,
        g[idx(w, x, y + 1)] == Cell::Empty,
    ensures
        step_spec(g, w, h) == apply_move(g, idx(w, x, y), idx(w, x, y + 1), g[idx(w, x, y)]),
        step_spec(g, w, h)[idx(w, x, y)] == Cell::Empty,
        step_spec(g, w, h)[idx(w, x, y + 1)] == g[idx(w, x, y)],
        forall|j: int|
            0 <= j < w * h && j != idx(w, x, y) && j != idx(w, x, y + 1) ==> step_spec(
                g,
                w,
                h,
            )[j] == g[j],
{
    lemma_step_lone_mover(g, w, h, x, y);
    lemma_neighborhood(w, h, x, y);
}

/// Deterministic settling: a lone granular cell blocked directly below,
/// with the cell to its right and the one diagonally below-right both
/// empty, moves to `(x + 1, y + 1)` in one pass, leaving `(x, y)` empty.
pub proof fn lemma_step_granular_settles(g: Seq<Cell>, w: int, h: int, x: int, y: int)
    requires
        w >= 1,
        h >= 1,
        g.len() == w * h,
        interior(w, h, x, y),
        g[idx(w, x, y)] == Cell::Granular,
        forall|j: int|
            0 <= j < w * h && j != idx(w, x, y) ==> g[j] == Cell::Empty || g[j] == Cell::Solid,
        g[idx(w, x, y + 1)] != Cell::Empty,
        g[idx(w, x + 1, y)] == Cell::Empty,
        g[idx(w, x + 1, y + 1)] == Cell::Empty,
    ensures
        step_spec(g, w, h) == apply_move(g, idx(w, x, y), idx(w, x + 1, y + 1), Cell::Granular),
        step_spec(g, w, h)[idx(w, x, y)] == Cell::Empty,
        step_spec(g, w, h)[idx(w, x + 1, y + 1)] == Cell::Granular,
{
    lemma_step_lone_mover(g, w, h, x, y);
    lemma_neighborhood(w, h, x, y);
}

/// Liquid lateral spread: a lone liquid cell blocked below and
/// diagonally below-right, with the cell to its right empty, moves
/// laterally to `(x + 1, y)` — not diagonally — in one pass.
pub proof fn lemma_step_liquid_spreads(g: Seq<Cell>, w: int, h: int, x: int, y: int)
    requires
        w >= 1,
        h >= 1,
        g.len() == w * h,
        interior(w, h, x, y),
        g[idx(w, x, y)] == Cell::Liquid,
        forall|j: int|
            0 <= j < w * h && j != idx(w, x, y) ==> g[j] == Cell::Empty || g[j] == Cell::Solid,
        g[idx(w, x, y + 1)] != Cell::Empty,
        g[idx(w, x + 1, y + 1)] != Cell::Empty,
        g[idx(w, x + 1, y)] == Cell::Empty,
    ensures
        step_spec(g, w, h) == apply_move(g, idx(w, x, y), idx(w, x + 1, y), Cell::Liquid),
        step_spec(g, w, h)[idx(w, x, y)] == Cell::Empty,
        step_spec(g, w, h)[idx(w, x + 1, y)] == Cell::Liquid,
{
    lemma_step_lone_mover(g, w, h, x, y);
    lemma_neighborhood(w, h, x, y);
}

/// Painting the same kind at the same coordinate twice is the same as
/// painting it once.
pub proof fn lemma_paint_idempotent(g: Seq<Cell>, i: int, k: Cell)
    requires
        0 <= i < g.len(),
    ensures
        g.update(i, k).update(i, k) == g.update(i, k),
{
    assert(g.update(i, k).update(i, k) =~= g.update(i, k));
}

} // verus!
