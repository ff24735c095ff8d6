//! The grid: a fixed-size rectangular sheet of cells together with the
//! update engine that advances it one discrete time unit per pass.
//!
//! A pass reads each cell's kind from a snapshot taken once before the
//! pass, while the per-cell rules read their neighbors from the live
//! sheet — deliberately so: a mover written into a not-yet-visited cell
//! is seen by later rules in the same pass, which gives the automaton
//! its wave-like piles and flows. Swapping this for a fully
//! double-buffered update would visibly change them.

use vstd::prelude::*;

use crate::cell::Cell;
use crate::laws::{
    lemma_idx_bounds, lemma_neighborhood, lemma_step_border_stable, lemma_step_conserves_mass,
    lemma_step_inert, lemma_step_pref_border_stable, lemma_step_pref_conserves_mass,
    lemma_step_pref_inert,
};
use crate::rules::{
    border, cell_step_det, cell_step_pref, count_occ, idx, interior, step_pref_spec, step_spec,
    sweep_det, sweep_pref,
};

verus! {

/// A `width` by `height` sheet of cells, row-major, origin at the top
/// left, `y` growing downward. Dimensions never change after
/// construction.
pub struct Grid {
    width: usize,
    height: usize,
    cells: Vec<Cell>,
}

impl View for Grid {
    type V = Seq<Cell>;

    closed spec fn view(&self) -> Seq<Cell> {
        self.cells@
    }
}

impl Grid {
    /// The sheet's width, as a mathematical integer.
    pub closed spec fn width_spec(&self) -> int {
        self.width as int
    }

    /// The sheet's height, as a mathematical integer.
    pub closed spec fn height_spec(&self) -> int {
        self.height as int
    }

    /// Well-formed: positive dimensions and a fully allocated sheet.
    pub open spec fn wf(&self) -> bool {
        &&& 1 <= self.width_spec()
        &&& 1 <= self.height_spec()
        &&& self@.len() == self.width_spec() * self.height_spec()
        &&& self.width_spec() * self.height_spec() <= usize::MAX
    }

    /// An all-empty grid of the given dimensions; zero (degenerate)
    /// dimensions are rejected before anything is allocated.
    pub fn new(width: usize, height: usize) -> (r: Option<Grid>)
        requires
            width * height <= usize::MAX,
        ensures
            (r is Some) <==> (width >= 1 && height >= 1),
            r matches Some(g) ==> {
                &&& g.wf()
                &&& g.width_spec() == width
                &&& g.height_spec() == height
                &&& g@.len() == width * height
                &&& forall|j: int| 0 <= j < g@.len() ==> g@[j] == Cell::Empty
            },
    {
        if width == 0 || height == 0 {
            return None;
        }
        let total = width * height;
        let mut cells: Vec<Cell> = Vec::new();
        let mut i: usize = 0;
        while i < total
            invariant
                i <= total,
                cells@.len() == i,
                forall|j: int| 0 <= j < i ==> cells@[j] == Cell::Empty,
            decreases total - i,
        {
            cells.push(Cell::Empty);
            i += 1;
        }
        Some(Grid { width, height, cells })
    }

    /// The sheet's width in cells.
    pub fn width(&self) -> (w: usize)
        ensures
            w == self.width_spec(),
    {
        self.width
    }

    /// The sheet's height in cells.
    pub fn height(&self) -> (h: usize)
        ensures
            h == self.height_spec(),
    {
        self.height
    }

    /// The kind at `(x, y)`. Out-of-bounds coordinates are a caller
    /// error, ruled out up front rather than clamped.
    pub fn cell_at(&self, x: usize, y: usize) -> (r: Cell)
        requires
            self.wf(),
            x < self.width_spec(),
            y < self.height_spec(),
        ensures
            r == self@[idx(self.width_spec(), x as int, y as int)],
    {
        proof {
            lemma_idx_bounds(self.width_spec(), self.height_spec(), x as int, y as int);
        }
        self.cells[y * self.width + x]
    }

    /// Paints one cell: exactly the cell at `(x, y)` takes the given
    /// kind and every other cell keeps its own. Out-of-bounds
    /// coordinates are a caller error, ruled out up front.
    pub fn set_cell(&mut self, x: usize, y: usize, kind: Cell)
        requires
            old(self).wf(),
            x < old(self).width_spec(),
            y < old(self).height_spec(),
        ensures
            final(self).wf(),
            final(self).width_spec() == old(self).width_spec(),
            final(self).height_spec() == old(self).height_spec(),
            final(self)@ == old(self)@.update(
                idx(old(self).width_spec(), x as int, y as int),
                kind,
            ),
            final(self)@[idx(old(self).width_spec(), x as int, y as int)] == kind,
            forall|j: int|
                0 <= j < final(self)@.len() && j != idx(old(self).width_spec(), x as int, y as int)
                    ==> final(self)@[j] == old(self)@[j],
    {
        proof {
            lemma_idx_bounds(self.width_spec(), self.height_spec(), x as int, y as int);
        }
        let i = y * self.width + x;
        self.cells[i] = kind;
    }

    /// One granular cell's transition under the deterministic order,
    /// exactly as `cell_step_det` describes it: the source is vacated
    /// first, then the cell falls, settles diagonally (right before
    /// left), or is written back in place.
    fn update_granular(&mut self, x: usize, y: usize)
        requires
            old(self).wf(),
            interior(old(self).width_spec(), old(self).height_spec(), x as int, y as int),
        ensures
            final(self).wf(),
            final(self).width_spec() == old(self).width_spec(),
            final(self).height_spec() == old(self).height_spec(),
            final(self)@ == cell_step_det(
                old(self)@,
                old(self).width_spec(),
                x as int,
                y as int,
                Cell::Granular,
            ),
    {
        proof {
            lemma_neighborhood(self.width_spec(), self.height_spec(), x as int, y as int);
        }
        let w = self.width;
        let src = y * w + x;
        let down_i = src + w;
        self.cells[src] = Cell::Empty;
        let down = self.cells[down_i];
        if down.is_blocking() {
            let right = self.cells[src + 1];
            let left = self.cells[src - 1];
            let down_right = self.cells[down_i + 1];
            let down_left = self.cells[down_i - 1];
            if right.is_empty() && down_right.is_empty() {
                self.cells[down_i + 1] = Cell::Granular;
            } else if left.is_empty() && down_left.is_empty() {
                self.cells[down_i - 1] = Cell::Granular;
            } else {
                self.cells[src] = Cell::Granular;
            }
        } else {
            self.cells[down_i] = Cell::Granular;
        }
    }

    /// One liquid cell's transition under the deterministic order: as
    /// sand, but a side whose diagonal is taken still admits a lateral
    /// move when the lateral cell itself is free.
    fn update_liquid(&mut self, x: usize, y: usize)
        requires
            old(self).wf(),
            interior(old(self).width_spec(), old(self).height_spec(), x as int, y as int),
        ensures
            final(self).wf(),
            final(self).width_spec() == old(self).width_spec(),
            final(self).height_spec() == old(self).height_spec(),
            final(self)@ == cell_step_det(
                old(self)@,
                old(self).width_spec(),
                x as int,
                y as int,
                Cell::Liquid,
            ),
    {
        proof {
            lemma_neighborhood(self.width_spec(), self.height_spec(), x as int, y as int);
        }
        let w = self.width;
        let src = y * w + x;
        let down_i = src + w;
        self.cells[src] = Cell::Empty;
        let down = self.cells[down_i];
        if down.is_blocking() {
            let right = self.cells[src + 1];
            let left = self.cells[src - 1];
            let down_right = self.cells[down_i + 1];
            let down_left = self.cells[down_i - 1];
            if right.is_empty() && down_right.is_empty() {
                self.cells[down_i + 1] = Cell::Liquid;
            } else if right.is_empty() {
                self.cells[src + 1] = Cell::Liquid;
            } else if left.is_empty() && down_left.is_empty() {
                self.cells[down_i - 1] = Cell::Liquid;
            } else if left.is_empty() {
                self.cells[src - 1] = Cell::Liquid;
            } else {
                self.cells[src] = Cell::Liquid;
            }
        } else {
            self.cells[down_i] = Cell::Liquid;
        }
    }

    /// One granular cell's transition under a randomized tie-break:
    /// only the preferred side is tried, and a blocked preferred side
    /// means the cell is written back in place.
    fn update_granular_pref(&mut self, x: usize, y: usize, prefer_right: bool)
        requires
            old(self).wf(),
            interior(old(self).width_spec(), old(self).height_spec(), x as int, y as int),
        ensures
            final(self).wf(),
            final(self).width_spec() == old(self).width_spec(),
            final(self).height_spec() == old(self).height_spec(),
            final(self)@ == cell_step_pref(
                old(self)@,
                old(self).width_spec(),
                x as int,
                y as int,
                Cell::Granular,
                prefer_right,
            ),
    {
        proof {
            lemma_neighborhood(self.width_spec(), self.height_spec(), x as int, y as int);
        }
        let w = self.width;
        let src = y * w + x;
        let down_i = src + w;
        self.cells[src] = Cell::Empty;
        let down = self.cells[down_i];
        if down.is_blocking() {
            if prefer_right {
                let right = self.cells[src + 1];
                let down_right = self.cells[down_i + 1];
                if right.is_empty() && down_right.is_empty() {
                    self.cells[down_i + 1] = Cell::Granular;
                } else {
                    self.cells[src] = Cell::Granular;
                }
            } else {
                let left = self.cells[src - 1];
                let down_left = self.cells[down_i - 1];
                if left.is_empty() && down_left.is_empty() {
                    self.cells[down_i - 1] = Cell::Granular;
                } else {
                    self.cells[src] = Cell::Granular;
                }
            }
        } else {
            self.cells[down_i] = Cell::Granular;
        }
    }

    /// One liquid cell's transition under a randomized tie-break: on
    /// the preferred side alone, settle diagonally, else move
    /// laterally, else stay.
    fn update_liquid_pref(&mut self, x: usize, y: usize, prefer_right: bool)
        requires
            old(self).wf(),
            interior(old(self).width_spec(), old(self).height_spec(), x as int, y as int),
        ensures
            final(self).wf(),
            final(self).width_spec() == old(self).width_spec(),
            final(self).height_spec() == old(self).height_spec(),
            final(self)@ == cell_step_pref(
                old(self)@,
                old(self).width_spec(),
                x as int,
                y as int,
                Cell::Liquid,
                prefer_right,
            ),
    {
        proof {
            lemma_neighborhood(self.width_spec(), self.height_spec(), x as int, y as int);
        }
        let w = self.width;
        let src = y * w + x;
        let down_i = src + w;
        self.cells[src] = Cell::Empty;
        let down = self.cells[down_i];
        if down.is_blocking() {
            if prefer_right {
                let right = self.cells[src + 1];
                let down_right = self.cells[down_i + 1];
                if right.is_empty() && down_right.is_empty() {
                    self.cells[down_i + 1] = Cell::Liquid;
                } else if right.is_empty() {
                    self.cells[src + 1] = Cell::Liquid;
                } else {
                    self.cells[src] = Cell::Liquid;
                }
            } else {
                let left = self.cells[src - 1];
                let down_left = self.cells[down_i - 1];
                if left.is_empty() && down_left.is_empty() {
                    self.cells[down_i - 1] = Cell::Liquid;
                } else if left.is_empty() {
                    self.cells[src - 1] = Cell::Liquid;
                } else {
                    self.cells[src] = Cell::Liquid;
                }
            }
        } else {
            self.cells[down_i] = Cell::Liquid;
        }
    }

    /// A copy of the live sheet, taken once per pass; the pass reads
    /// each cell's kind from it.
    fn snapshot(&self) -> (snap: Vec<Cell>)
        ensures
            snap@ == self@,
    {
        let total = self.cells.len();
        let mut snap: Vec<Cell> = Vec::new();
        let mut i: usize = 0;
        while i < total
            invariant
                total == self.cells@.len(),
                i <= total,
                snap@.len() == i,
                forall|j: int| 0 <= j < i ==> snap@[j] == self.cells@[j],
            decreases total - i,
        {
            let c = self.cells[i];
            snap.push(c);
            i += 1;
        }
        proof {
            assert(snap@ =~= self@);
        }
        snap
    }

    /// Advances the grid one discrete time unit under the deterministic
    /// tie-break order: the pass `step_spec` describes, scanning rows
    /// top to bottom. On a sheet of background and immovable cells the
    /// pass is a no-op; it conserves mass; and it never changes an
    /// occupied border cell.
    pub fn step(&mut self)
        requires
            old(self).wf(),
        ensures
            final(self).wf(),
            final(self).width_spec() == old(self).width_spec(),
            final(self).height_spec() == old(self).height_spec(),
            final(self)@ == step_spec(old(self)@, old(self).width_spec(), old(self).height_spec()),
            count_occ(final(self)@) == count_occ(old(self)@),
            forall|x: int, y: int|
                #[trigger] border(old(self).width_spec(), old(self).height_spec(), x, y)
                    && old(self)@[idx(old(self).width_spec(), x, y)] != Cell::Empty
                    ==> final(self)@[idx(old(self).width_spec(), x, y)] == old(self)@[idx(
                    old(self).width_spec(),
                    x,
                    y,
                )],
            (forall|i: int|
                0 <= i < old(self)@.len() ==> old(self)@[i] == Cell::Empty || old(self)@[i]
                    == Cell::Solid) ==> final(self)@ == old(self)@,
    {
        let w = self.width;
        let h = self.height;
        let total = self.cells.len();
        let snap = self.snapshot();
        let mut n: usize = 0;
        while n < total
            invariant
                self.wf(),
                w == self.width,
                h == self.height,
                self.width_spec() == old(self).width_spec(),
                self.height_spec() == old(self).height_spec(),
                total == w * h,
                snap@ == old(self)@,
                snap@.len() == total,
                n <= total,
                self@ == sweep_det(snap@, snap@, w as int, h as int, n as int),
            decreases total - n,
        {
            let x = n % w;
            let y = n / w;
            proof {
                vstd::arithmetic::div_mod::lemma_fundamental_div_mod(n as int, w as int);
                assert((w as int) * ((n as int) / (w as int)) == ((n as int) / (w as int)) * (
                w as int)) by (nonlinear_arith);
                assert(idx(w as int, x as int, y as int) == n as int);
            }
            if 1 <= x && x < w - 1 && y < h - 1 {
                let k = snap[n];
                match k {
                    Cell::Granular => self.update_granular(x, y),
                    Cell::Liquid => self.update_liquid(x, y),
                    _ => {
                        proof {
                            assert(cell_step_det(self@, w as int, x as int, y as int, k) == self@);
                        }
                    },
                }
            } else {
                proof {
                    assert(!interior(w as int, h as int, x as int, y as int));
                }
            }
            n += 1;
        }
        proof {
            lemma_step_conserves_mass(old(self)@, w as int, h as int);
            lemma_step_border_stable(old(self)@, w as int, h as int);
            if forall|i: int|
                0 <= i < old(self)@.len() ==> old(self)@[i] == Cell::Empty || old(self)@[i]
                    == Cell::Solid {
                lemma_step_inert(old(self)@, w as int, h as int);
            }
        }
    }

    /// Advances the grid one discrete time unit under randomized
    /// tie-breaks: the result is a randomized pass `step_pref_spec`
    /// under *some* sequence of per-cell preferences, each drawn
    /// uniformly from the process-wide random source. Whatever the
    /// draws, the pass conserves mass, never changes an occupied border
    /// cell, and is a no-op on a sheet of background and immovable
    /// cells.
    pub fn update(&mut self)
        requires
            old(self).wf(),
        ensures
            final(self).wf(),
            final(self).width_spec() == old(self).width_spec(),
            final(self).height_spec() == old(self).height_spec(),
            exists|bits: Seq<bool>|
                bits.len() == old(self)@.len() && final(self)@ == step_pref_spec(
                    old(self)@,
                    old(self).width_spec(),
                    old(self).height_spec(),
                    bits,
                ),
            count_occ(final(self)@) == count_occ(old(self)@),
            forall|x: int, y: int|
                #[trigger] border(old(self).width_spec(), old(self).height_spec(), x, y)
                    && old(self)@[idx(old(self).width_spec(), x, y)] != Cell::Empty
                    ==> final(self)@[idx(old(self).width_spec(), x, y)] == old(self)@[idx(
                    old(self).width_spec(),
                    x,
                    y,
                )],
            (forall|i: int|
                0 <= i < old(self)@.len() ==> old(self)@[i] == Cell::Empty || old(self)@[i]
                    == Cell::Solid) ==> final(self)@ == old(self)@,
    {
        let w = self.width;
        let h = self.height;
        let total = self.cells.len();
        let snap = self.snapshot();
        let ghost mut bits: Seq<bool> = Seq::empty();
        let mut n: usize = 0;
        while n < total
            invariant
                self.wf(),
                w == self.width,
                h == self.height,
                self.width_spec() == old(self).width_spec(),
                self.height_spec() == old(self).height_spec(),
                total == w * h,
                snap@ == old(self)@,
                snap@.len() == total,
                n <= total,
                bits.len() == n as int,
                self@ == sweep_pref(snap@, snap@, w as int, h as int, bits, n as int),
            decreases total - n,
        {
            let x = n % w;
            let y = n / w;
            proof {
                vstd::arithmetic::div_mod::lemma_fundamental_div_mod(n as int, w as int);
                assert((w as int) * ((n as int) / (w as int)) == ((n as int) / (w as int)) * (
                w as int)) by (nonlinear_arith);
                assert(idx(w as int, x as int, y as int) == n as int);
            }
            if 1 <= x && x < w - 1 && y < h - 1 {
                let k = snap[n];
                match k {
                    Cell::Granular => {
                        let b = random_bit();
                        proof {
                            let bits0 = bits;
                            bits = bits.push(b);
                            crate::laws::lemma_sweep_pref_agree(
                                snap@,
                                snap@,
                                w as int,
                                h as int,
                                bits0,
                                bits,
                                n as int,
                            );
                        }
                        self.update_granular_pref(x, y, b);
                    },
                    Cell::Liquid => {
                        let b = random_bit();
                        proof {
                            let bits0 = bits;
                            bits = bits.push(b);
                            crate::laws::lemma_sweep_pref_agree(
                                snap@,
                                snap@,
                                w as int,
                                h as int,
                                bits0,
                                bits,
                                n as int,
                            );
                        }
                        self.update_liquid_pref(x, y, b);
                    },
                    _ => {
                        proof {
                            let bits0 = bits;
                            bits = bits.push(false);
                            crate::laws::lemma_sweep_pref_agree(
                                snap@,
                                snap@,
                                w as int,
                                h as int,
                                bits0,
                                bits,
                                n as int,
                            );
                            assert(cell_step_pref(
                                self@,
                                w as int,
                                x as int,
                                y as int,
                                k,
                                bits[n as int],
                            ) == self@);
                        }
                    },
                }
            } else {
                proof {
                    let bits0 = bits;
                    bits = bits.push(false);
                    crate::laws::lemma_sweep_pref_agree(
                        snap@,
                        snap@,
                        w as int,
                        h as int,
                        bits0,
                        bits,
                        n as int,
                    );
                    assert(!interior(w as int, h as int, x as int, y as int));
                }
            }
            n += 1;
        }
        proof {
            assert(self@ == step_pref_spec(old(self)@, w as int, h as int, bits));
            lemma_step_pref_conserves_mass(old(self)@, w as int, h as int, bits);
            lemma_step_pref_border_stable(old(self)@, w as int, h as int, bits);
            if forall|i: int|
                0 <= i < old(self)@.len() ==> old(self)@[i] == Cell::Empty || old(self)@[i]
                    == Cell::Solid {
                lemma_step_pref_inert(old(self)@, w as int, h as int, bits);
            }
        }
    }
}

/// Relies on rand::random for bool: one tie-break preference, drawn
/// uniformly from the thread-local generator. Nothing is assumed of
/// the outcome; every caller must be correct for either value.
#[verifier::external_body]
fn random_bit() -> bool {
    rand::random::<bool>()
}

} // verus!
