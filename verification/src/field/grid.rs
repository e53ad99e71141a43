//! The mathematical model of the field: a grid of displacement and velocity
//! samples, and what one tick does to it.
//!
//! A tick has three stages. The border ring first takes the displacement of
//! the interior cell next to it, which makes every edge a reflecting wall.
//! Each interior cell is then accelerated by its neighbours. Finally every
//! cell moves by its velocity.
use crate::fixed::{saturate, trunc_div};
use vstd::arithmetic::div_mod::{lemma_fundamental_div_mod, lemma_fundamental_div_mod_converse};
use vstd::arithmetic::div_mod::{lemma_div_pos_is_pos, lemma_mod_bound};
use vstd::prelude::*;

verus! {

/// The reciprocal of the squared propagation speed: c² = 1/100.
pub const PROPAGATION_DIVISOR: i64 = 100;

/// The reciprocal of the weight of a neighbour two cells away: 1/16.
pub const SECONDARY_DIVISOR: i64 = 16;

/// The number of neighbours that act on a cell: four at distance one and four
/// at distance two.
pub const STENCIL_SIZE: usize = 8;

/// The force c²·(source − target) that a cell of displacement `source` exerts
/// on a cell of displacement `target`.
pub open spec fn pull(source: int, target: int) -> int {
    trunc_div(source - target, PROPAGATION_DIVISOR as int)
}

/// A force scaled by the weight of a neighbour two cells away.
pub open spec fn weaken(force: int) -> int {
    trunc_div(force, SECONDARY_DIVISOR as int)
}

/// The `k`-th neighbour of the stencil: its offset from the target, and
/// whether it lies two cells away.
pub open spec fn stencil(k: int) -> (int, int, bool) {
    if k == 0 {
        (1, 0, false)
    } else if k == 1 {
        (-1, 0, false)
    } else if k == 2 {
        (0, -1, false)
    } else if k == 3 {
        (0, 1, false)
    } else if k == 4 {
        (0, 2, true)
    } else if k == 5 {
        (0, -2, true)
    } else if k == 6 {
        (2, 0, true)
    } else {
        (-2, 0, true)
    }
}

/// Displacement `u` and velocity `v` over `width` × `height` cells, each
/// stored row by row: cell `(x, y)` is entry `y * width + x`.
pub struct Grid {
    pub width: nat,
    pub height: nat,
    pub u: Seq<i64>,
    pub v: Seq<i64>,
}

impl Grid {
    /// Both arrays have the shape `width` × `height`.
    pub open spec fn wf(self) -> bool {
        &&& self.u.len() == self.width * self.height
        &&& self.v.len() == self.width * self.height
    }

    /// The stencil needs at least one interior cell.
    pub open spec fn steppable(self) -> bool {
        &&& self.wf()
        &&& self.width >= 3
        &&& self.height >= 3
    }

    pub open spec fn contains(self, x: int, y: int) -> bool {
        0 <= x < self.width && 0 <= y < self.height
    }

    /// A cell that is not on the border ring.
    pub open spec fn interior(self, x: int, y: int) -> bool {
        1 <= x < self.width - 1 && 1 <= y < self.height - 1
    }

    pub open spec fn cell(self, x: int, y: int) -> int {
        y * self.width + x
    }

    pub open spec fn column(self, i: int) -> int {
        i % (self.width as int)
    }

    pub open spec fn row(self, i: int) -> int {
        i / (self.width as int)
    }

    pub open spec fn u_at(self, x: int, y: int) -> int {
        self.u[self.cell(x, y)] as int
    }

    pub open spec fn v_at(self, x: int, y: int) -> int {
        self.v[self.cell(x, y)] as int
    }

    /// The cell whose displacement `(x, y)` shows once the border is mirrored:
    /// for a border cell that is no corner, the interior cell next to it; for
    /// every other cell, the cell itself.
    pub open spec fn mirror_source(self, x: int, y: int) -> (int, int) {
        if 1 <= x < self.width - 1 && y == 0 {
            (x, 1)
        } else if 1 <= x < self.width - 1 && y == self.height - 1 {
            (x, self.height - 2)
        } else if 1 <= y < self.height - 1 && x == 0 {
            (1, y)
        } else if 1 <= y < self.height - 1 && x == self.width - 1 {
            (self.width - 2, y)
        } else {
            (x, y)
        }
    }

    pub open spec fn mirrored_u(self, x: int, y: int) -> int {
        let (sx, sy) = self.mirror_source(x, y);
        self.u_at(sx, sy)
    }

    /// The grid after the border ring has been mirrored.
    pub open spec fn mirrored(self) -> Grid {
        Grid {
            width: self.width,
            height: self.height,
            u: Seq::new(
                self.u.len(),
                |i: int| self.mirrored_u(self.column(i), self.row(i)) as i64,
            ),
            v: self.v,
        }
    }

    /// The force on `(x, y)` from `(sx, sy)`; a cell outside the grid exerts
    /// none.
    pub open spec fn force(self, x: int, y: int, sx: int, sy: int) -> int {
        if self.contains(sx, sy) {
            pull(self.u_at(sx, sy), self.u_at(x, y))
        } else {
            0
        }
    }

    /// The weighted force on `(x, y)` from the `k`-th neighbour of the stencil.
    pub open spec fn term(self, x: int, y: int, k: int) -> int {
        let (dx, dy, far) = stencil(k);
        let f = self.force(x, y, x + dx, y + dy);
        if far {
            weaken(f)
        } else {
            f
        }
    }

    /// The sum of the first `k` terms of the stencil.
    pub open spec fn partial(self, x: int, y: int, k: int) -> int
        decreases k,
    {
        if k <= 0 {
            0
        } else {
            self.partial(x, y, k - 1) + self.term(x, y, k - 1)
        }
    }

    /// What the first `k` terms of the stencil add to the velocity of a cell:
    /// their sum for an interior cell, nothing for a cell on the border.
    pub open spec fn gathered(self, x: int, y: int, k: int) -> int {
        if self.interior(x, y) {
            self.partial(x, y, k)
        } else {
            0
        }
    }

    /// The change of velocity of an interior cell in one tick.
    pub open spec fn delta(self, x: int, y: int) -> int {
        self.partial(x, y, STENCIL_SIZE as int)
    }

    pub open spec fn accelerated_v(self, x: int, y: int) -> int {
        if self.interior(x, y) {
            saturate(self.v_at(x, y) + self.delta(x, y))
        } else {
            self.v_at(x, y)
        }
    }

    /// The grid after every interior cell has been accelerated by its
    /// neighbours. Displacements, and the velocities on the border, stay.
    pub open spec fn accelerated(self) -> Grid {
        Grid {
            width: self.width,
            height: self.height,
            u: self.u,
            v: Seq::new(
                self.v.len(),
                |i: int| self.accelerated_v(self.column(i), self.row(i)) as i64,
            ),
        }
    }

    /// The grid after every cell has moved by its velocity.
    pub open spec fn integrated(self) -> Grid {
        Grid {
            width: self.width,
            height: self.height,
            u: Seq::new(self.u.len(), |i: int| saturate(self.u[i] + self.v[i]) as i64),
            v: self.v,
        }
    }

    /// The grid one tick later.
    pub open spec fn stepped(self) -> Grid {
        self.mirrored().accelerated().integrated()
    }

    /// The grid `n` ticks later.
    pub open spec fn advanced(self, n: nat) -> Grid
        decreases n,
    {
        if n == 0 {
            self
        } else {
            self.advanced((n - 1) as nat).stepped()
        }
    }

    /// Every cell has displacement `level` and no velocity.
    pub open spec fn at_rest(self, level: int) -> bool {
        &&& forall|i: int| 0 <= i < self.u.len() ==> #[trigger] self.u[i] == level
        &&& forall|i: int| 0 <= i < self.v.len() ==> #[trigger] self.v[i] == 0
    }
}

/// A cell of the grid has an entry in each array, and its entry determines it.
pub proof fn lemma_cell(g: Grid, x: int, y: int)
    requires
        g.wf(),
        g.contains(x, y),
    ensures
        0 <= g.cell(x, y) < g.u.len(),
        g.column(g.cell(x, y)) == x,
        g.row(g.cell(x, y)) == y,
{
    let w = g.width as int;
    let h = g.height as int;
    assert(y * w + x < w * h) by (nonlinear_arith)
        requires
            0 <= x < w,
            0 <= y < h,
    ;
    assert(0 <= y * w) by (nonlinear_arith)
        requires
            0 <= y,
            0 < w,
    ;
    lemma_fundamental_div_mod_converse(y * w + x, w, y, x);
}

/// An entry of the arrays belongs to exactly one cell of the grid.
pub proof fn lemma_entry(g: Grid, i: int)
    requires
        g.wf(),
        0 <= i < g.u.len(),
    ensures
        g.contains(g.column(i), g.row(i)),
        g.cell(g.column(i), g.row(i)) == i,
{
    let w = g.width as int;
    let h = g.height as int;
    assert(w > 0) by (nonlinear_arith)
        requires
            0 <= i < w * h,
            0 <= w,
            0 <= h,
    ;
    lemma_fundamental_div_mod(i, w);
    lemma_mod_bound(i, w);
    lemma_div_pos_is_pos(i, w);
    let q = i / w;
    let r = i % w;
    assert(w * q == q * w) by (nonlinear_arith);
    assert(q < h) by (nonlinear_arith)
        requires
            i == q * w + r,
            0 <= r,
            i < w * h,
            0 < w,
            0 <= q,
    ;
}

/// The largest magnitude of a force between two samples.
pub const FORCE_LIMIT: i64 = 184467440737095516;

/// No force between two samples exceeds `FORCE_LIMIT` in magnitude, and
/// weakening a force does not enlarge it.
pub proof fn lemma_pull_bound(source: i64, target: i64)
    ensures
        -FORCE_LIMIT <= pull(source as int, target as int) <= FORCE_LIMIT,
        -FORCE_LIMIT <= weaken(pull(source as int, target as int)) <= FORCE_LIMIT,
{
}

/// Each term of the stencil is bounded by `FORCE_LIMIT`.
pub proof fn lemma_term_bound(g: Grid, x: int, y: int, k: int)
    requires
        g.wf(),
        g.contains(x, y),
    ensures
        -FORCE_LIMIT <= g.term(x, y, k) <= FORCE_LIMIT,
{
    let (dx, dy, far) = stencil(k);
    if g.contains(x + dx, y + dy) {
        lemma_cell(g, x, y);
        lemma_cell(g, x + dx, y + dy);
        lemma_pull_bound(g.u[g.cell(x + dx, y + dy)], g.u[g.cell(x, y)]);
    }
}

/// The sum of the first `k` terms is bounded by `k` times `FORCE_LIMIT`.
pub proof fn lemma_partial_bound(g: Grid, x: int, y: int, k: int)
    requires
        g.wf(),
        g.contains(x, y),
        0 <= k,
    ensures
        -k * FORCE_LIMIT <= g.partial(x, y, k) <= k * FORCE_LIMIT,
    decreases k,
{
    if k > 0 {
        lemma_partial_bound(g, x, y, k - 1);
        lemma_term_bound(g, x, y, k - 1);
        assert((k - 1) * FORCE_LIMIT + FORCE_LIMIT == k * FORCE_LIMIT) by (nonlinear_arith);
        assert(-(k - 1) * FORCE_LIMIT - FORCE_LIMIT == -k * FORCE_LIMIT) by (nonlinear_arith);
    }
}

} // verus!
