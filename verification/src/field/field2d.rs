//! The two-dimensional field engine.
//!
//! The engine owns the grid and advances it one tick at a time. A tick can be
//! computed cell by cell or slice by slice; both strategies share the border
//! rule and the force between two cells, and both produce the same grid.
use crate::field::grid::{lemma_cell, lemma_entry, lemma_partial_bound, lemma_pull_bound};
use crate::field::grid::{lemma_term_bound, FORCE_LIMIT};
use crate::field::grid::{pull, stencil, weaken, Grid};
use crate::field::grid::{PROPAGATION_DIVISOR, SECONDARY_DIVISOR, STENCIL_SIZE};
use crate::field::generator::{generated_by, Generator};
use crate::field::render::{color, color_of, graph_point, graph_row, Rgba};
use crate::field::{Field, FieldError};
use crate::fixed::{saturate, saturating_sum};
use vstd::prelude::*;

verus! {

/// A wave field over a rectangular grid with reflecting edges.
#[derive(Debug)]
pub struct Field2D {
    width: usize,
    height: usize,
    u: Vec<i64>,
    v: Vec<i64>,
    vectorized: bool,
}

impl View for Field2D {
    type V = Grid;

    closed spec fn view(&self) -> Grid {
        Grid { width: self.width as nat, height: self.height as nat, u: self.u@, v: self.v@ }
    }
}

/// The force c²·(source − target) between two samples.
pub fn force_between(source: i64, target: i64) -> (f: i64)
    ensures
        f == pull(source as int, target as int),
{
    proof {
        lemma_pull_bound(source, target);
    }
    ((source as i128 - target as i128) / (PROPAGATION_DIVISOR as i128)) as i64
}

/// A force scaled by the weight of a neighbour two cells away.
pub fn weakened(force: i64) -> (f: i64)
    ensures
        f == weaken(force as int),
{
    force / SECONDARY_DIVISOR
}

/// The offset of the `k`-th neighbour of the stencil, and whether it lies two
/// cells away.
pub fn stencil_offset(k: usize) -> (r: (i64, i64, bool))
    ensures
        (r.0 as int, r.1 as int, r.2) == stencil(k as int),
{
    if k == 0 {
        (1, 0, false)
    } else if k == 1 {
        (-1, 0, false)
    } else if k == 2 {
        (0, -1, false)
    } else if k == 3 {
        (0, 1, false)
    } else if k == 4 {
        (0, 2, true)
    } else if k == 5 {
        (0, -2, true)
    } else if k == 6 {
        (2, 0, true)
    } else {
        (-2, 0, true)
    }
}

/// `n` samples of value zero.
fn zeros(n: usize) -> (r: Vec<i64>)
    ensures
        r@ == Seq::new(n as nat, |i: int| 0i64),
{
    let mut r: Vec<i64> = Vec::new();
    let mut i: usize = 0;
    while i < n
        invariant
            i <= n,
            r@ == Seq::new(i as nat, |k: int| 0i64),
        decreases n - i,
    {
        r.push(0);
        i += 1;
        assert(r@ =~= Seq::new(i as nat, |k: int| 0i64));
    }
    r
}

/// Whether entry `i` of the arrays lies before cell `(x, y)`, the arrays being
/// held row by row.
spec fn before(g: Grid, i: int, x: int, y: int) -> bool {
    g.row(i) < y || (g.row(i) == y && g.column(i) < x)
}

/// Entry `i` of the displacements while the top and the bottom row are being
/// mirrored and the columns before `x` are done.
spec fn rows_mirrored(g: Grid, i: int, x: int) -> i64 {
    if (g.row(i) == 0 || g.row(i) == g.height - 1) && 1 <= g.column(i) < x {
        g.mirrored().u[i]
    } else {
        g.u[i]
    }
}

/// Entry `i` of the displacements once the top and the bottom row are
/// mirrored, while the left and the right column are being mirrored and the
/// rows before `y` are done.
spec fn columns_mirrored(g: Grid, i: int, y: int) -> i64 {
    if g.row(i) == 0 || g.row(i) == g.height - 1 || ((g.column(i) == 0 || g.column(i) == g.width
        - 1) && g.row(i) < y) {
        g.mirrored().u[i]
    } else {
        g.u[i]
    }
}

/// Entry `i` of the buffer of changes while the interior cells before
/// `(x, y)` are done.
spec fn deltas_before(g: Grid, i: int, x: int, y: int) -> int {
    if g.interior(g.column(i), g.row(i)) && before(g, i, x, y) {
        g.delta(g.column(i), g.row(i))
    } else {
        0
    }
}

/// Entry `i` of the velocities while the interior cells before `(x, y)` are
/// accelerated.
spec fn accelerated_before(g: Grid, i: int, x: int, y: int) -> i64 {
    if g.interior(g.column(i), g.row(i)) && before(g, i, x, y) {
        g.accelerated().v[i]
    } else {
        g.v[i]
    }
}

/// A slice of the interior: the columns from `x0` up to `x1` and the rows
/// from `y0` up to `y1`, the upper ends left out.
struct Clip {
    x0: int,
    x1: int,
    y0: int,
    y1: int,
}

/// Entry `i` of the gathered changes while the `k`-th term is being added to
/// a slice and the cells of the slice before `(x, y)` are done.
spec fn gathered_before(g: Grid, i: int, k: int, clip: Clip, x: int, y: int) -> int {
    let c = g.column(i);
    let r = g.row(i);
    if clip.x0 <= c < clip.x1 && clip.y0 <= r < clip.y1 && before(g, i, x, y) {
        g.gathered(c, r, k + 1)
    } else {
        g.gathered(c, r, k)
    }
}

impl Field2D {
    /// The grid has at least one interior cell and both arrays have its shape.
    /// This holds of every field.
    pub open spec fn wf(&self) -> bool {
        self@.steppable()
    }

    #[verifier::type_invariant]
    closed spec fn inv(&self) -> bool {
        self.wf()
    }

    /// Whether a tick is computed slice by slice rather than cell by cell.
    pub closed spec fn is_vectorized(&self) -> bool {
        self.vectorized
    }

    /// A field of the given size, filled by a preset. A grid under three
    /// cells wide or high has no interior cell and is refused.
    pub fn new(width: usize, height: usize, generator: Generator, vectorized: bool) -> (r: Result<
        Field2D,
        FieldError,
    >)
        requires
            width * height <= usize::MAX,
        ensures
            match r {
                Ok(field) => {
                    &&& width >= 3
                    &&& height >= 3
                    &&& field.wf()
                    &&& field@ == generator.grid(width as nat, height as nat)
                    &&& field.is_vectorized() == vectorized
                },
                Err(e) => (width < 3 || height < 3) && e == FieldError::Precondition,
            },
    {
        if width < 3 || height < 3 {
            return Err(FieldError::Precondition);
        }
        let (u, v) = match generator {
            Generator::RadialPulse => Self::pixels_centered(width, height),
            Generator::StandingWave => Self::standing(width, height),
        };
        Ok(Field2D { width, height, u, v, vectorized })
    }

    /// A field of the given size, filled from two functions of the cell's
    /// coordinates. A grid under three cells wide or high is refused.
    pub fn from_fn<F: Fn(usize, usize) -> i64, G: Fn(usize, usize) -> i64>(
        width: usize,
        height: usize,
        u_fun: F,
        v_fun: G,
        vectorized: bool,
    ) -> (r: Result<Field2D, FieldError>)
        requires
            width * height <= usize::MAX,
            forall|x: usize, y: usize| x < width && y < height ==> call_requires(u_fun, (x, y)),
            forall|x: usize, y: usize| x < width && y < height ==> call_requires(v_fun, (x, y)),
        ensures
            match r {
                Ok(field) => {
                    &&& width >= 3
                    &&& height >= 3
                    &&& field.wf()
                    &&& field@.width == width
                    &&& field@.height == height
                    &&& generated_by(field@, u_fun, v_fun)
                    &&& field.is_vectorized() == vectorized
                },
                Err(e) => (width < 3 || height < 3) && e == FieldError::Precondition,
            },
    {
        if width < 3 || height < 3 {
            return Err(FieldError::Precondition);
        }
        let (u, v) = Self::pixels_from_fn(width, height, u_fun, v_fun);
        Ok(Field2D { width, height, u, v, vectorized })
    }

    /// Discards the grid and fills it anew from a preset. The size and the
    /// strategy stay.
    pub fn reset(&mut self, generator: Generator)
        ensures
            final(self).wf(),
            final(self)@ == generator.grid(old(self)@.width, old(self)@.height),
            final(self).is_vectorized() == old(self).is_vectorized(),
    {
        proof {
            use_type_invariant(&*self);
            assert(self.u.len() == self.width * self.height);
        }
        let (u, v) = match generator {
            Generator::RadialPulse => Self::pixels_centered(self.width, self.height),
            Generator::StandingWave => Self::standing(self.width, self.height),
        };
        self.u = u;
        self.v = v;
    }

    /// The entry of cell `(x, y)` in each array.
    fn index(&self, x: usize, y: usize) -> (i: usize)
        requires
            self.wf(),
            self@.contains(x as int, y as int),
        ensures
            i == self@.cell(x as int, y as int),
            i < self.u.len(),
            i < self.v.len(),
            self@.column(i as int) == x,
            self@.row(i as int) == y,
    {
        proof {
            lemma_cell(self@, x as int, y as int);
            assert(self@.cell(x as int, y as int) == y * self.width + x);
            assert(0 <= y * self.width) by (nonlinear_arith)
                requires
                    0 <= y,
                    0 <= self.width,
            ;
            assert(self.u.len() <= usize::MAX);
        }
        y * self.width + x
    }

    /// The number of columns.
    pub fn width(&self) -> (w: usize)
        ensures
            w == self@.width,
    {
        self.width
    }

    /// The number of rows.
    pub fn height(&self) -> (h: usize)
        ensures
            h == self@.height,
    {
        self.height
    }

    /// Whether a tick is computed slice by slice rather than cell by cell.
    pub fn vectorized(&self) -> (b: bool)
        ensures
            b == self.is_vectorized(),
    {
        self.vectorized
    }

    /// A copy of the displacements, row by row.
    pub fn values(&self) -> (u: Vec<i64>)
        ensures
            u@ == self@.u,
    {
        let n: usize = self.u.len();
        let mut u: Vec<i64> = Vec::new();
        let mut i: usize = 0;
        while i < n
            invariant
                i <= n,
                n == self.u.len(),
                u@ == self.u@.take(i as int),
            decreases n - i,
        {
            u.push(self.u[i]);
            i += 1;
            assert(u@ =~= self.u@.take(i as int));
        }
        assert(self.u@.take(n as int) =~= self.u@);
        u
    }

    /// The picture of the field: the colour of every cell, row by row.
    pub fn colors(&self) -> (picture: Vec<Rgba>)
        ensures
            picture.len() == self@.u.len(),
            forall|i: int|
                0 <= i < picture.len() ==> #[trigger] picture[i] == color_of(self@.u[i] as int),
    {
        let n: usize = self.u.len();
        let mut picture: Vec<Rgba> = Vec::new();
        let mut i: usize = 0;
        while i < n
            invariant
                i <= n,
                n == self.u.len(),
                picture.len() == i,
                forall|k: int| 0 <= k < i ==> #[trigger] picture[k] == color_of(self.u[k] as int),
            decreases n - i,
        {
            picture.push(color(self.u[i]));
            i += 1;
        }
        picture
    }

    /// The graph of the middle row, row `height / 2`: for every column, the
    /// row of the graph on which its displacement is drawn.
    pub fn graph(&self) -> (points: Vec<u32>)
        ensures
            points.len() == self@.width,
            forall|x: int|
                0 <= x < points.len() ==> #[trigger] points[x] == graph_row(
                    self@.u_at(x, (self@.height / 2) as int),
                ),
    {
        proof {
            use_type_invariant(&*self);
        }
        let center_y: usize = self.height / 2;
        let mut points: Vec<u32> = Vec::new();
        let mut x: usize = 0;
        while x < self.width
            invariant
                x <= self.width,
                self.wf(),
                center_y == self@.height / 2,
                points.len() == x,
                forall|k: int|
                    0 <= k < x ==> #[trigger] points[k] == graph_row(
                        self@.u_at(k, center_y as int),
                    ),
            decreases self.width - x,
        {
            let i: usize = self.index(x, center_y);
            points.push(graph_point(self.u[i]));
            x += 1;
        }
        points
    }

    /// The velocity at `(x, y)`, or `OutOfRange` for a cell that the grid does
    /// not have.
    pub fn sample_velocity(&self, x: i64, y: i64) -> (r: Result<i64, FieldError>)
        ensures
            r == if self@.contains(x as int, y as int) {
                Ok::<i64, FieldError>(self@.v[self@.cell(x as int, y as int)])
            } else {
                Err::<i64, FieldError>(FieldError::OutOfRange)
            },
    {
        proof {
            use_type_invariant(&*self);
        }
        if x < 0 || x as u64 >= self.width as u64 {
            return Err(FieldError::OutOfRange);
        }
        if y < 0 || y as u64 >= self.height as u64 {
            return Err(FieldError::OutOfRange);
        }
        let i: usize = self.index(x as usize, y as usize);
        Ok(self.v[i])
    }

    /// The force on the cell `target` from the cell at `source`, which may
    /// lie outside the grid and then exerts none.
    pub fn force(&self, target: (usize, usize), source: (i64, i64)) -> (f: i64)
        requires
            self@.contains(target.0 as int, target.1 as int),
        ensures
            f == self@.force(target.0 as int, target.1 as int, source.0 as int, source.1 as int),
    {
        proof {
            use_type_invariant(&*self);
        }
        if source.0 < 0 || source.0 as u64 >= self.width as u64 {
            return 0;
        }
        if source.1 < 0 || source.1 as u64 >= self.height as u64 {
            return 0;
        }
        let s: usize = self.index(source.0 as usize, source.1 as usize);
        let t: usize = self.index(target.0, target.1);
        force_between(self.u[s], self.u[t])
    }

    /// Copies the displacement of the interior cell next to each border cell
    /// into that border cell, on all four sides. Corners stay.
    pub fn mirror_borders(&mut self)
        ensures
            final(self).wf(),
            final(self)@ == old(self)@.mirrored(),
            final(self).is_vectorized() == old(self).is_vectorized(),
    {
        proof {
            use_type_invariant(&*self);
        }
        let w: usize = self.width;
        let h: usize = self.height;
        let ghost g = self@;
        let mut x: usize = 1;
        while x < w - 1
            invariant
                1 <= x <= w - 1,
                w == self.width,
                h == self.height,
                g == old(self)@,
                g.steppable(),
                self@.width == g.width,
                self@.height == g.height,
                self.v@ == g.v,
                self.u.len() == g.u.len(),
                self.vectorized == old(self).vectorized,
                forall|i: int|
                    0 <= i < g.u.len() ==> #[trigger] self.u[i] == rows_mirrored(g, i, x as int),
            decreases w - x,
        {
            let top: usize = self.index(x, 0);
            let below: usize = self.index(x, 1);
            let bottom: usize = self.index(x, h - 1);
            let above: usize = self.index(x, h - 2);
            let a: i64 = self.u[below];
            let b: i64 = self.u[above];
            self.u[top] = a;
            self.u[bottom] = b;
            x += 1;
            proof {
                assert forall|i: int| 0 <= i < g.u.len() implies #[trigger] self.u[i]
                    == rows_mirrored(g, i, x as int) by {
                    lemma_entry(g, i);
                }
            }
        }
        proof {
            assert forall|i: int| 0 <= i < g.u.len() implies #[trigger] self.u[i]
                == columns_mirrored(g, i, 1) by {
                lemma_entry(g, i);
            }
        }
        let mut y: usize = 1;
        while y < h - 1
            invariant
                1 <= y <= h - 1,
                w == self.width,
                h == self.height,
                g == old(self)@,
                g.steppable(),
                self@.width == g.width,
                self@.height == g.height,
                self.v@ == g.v,
                self.u.len() == g.u.len(),
                self.vectorized == old(self).vectorized,
                forall|i: int|
                    0 <= i < g.u.len() ==> #[trigger] self.u[i] == columns_mirrored(g, i, y as int),
            decreases h - y,
        {
            let left: usize = self.index(0, y);
            let inner_left: usize = self.index(1, y);
            let right: usize = self.index(w - 1, y);
            let inner_right: usize = self.index(w - 2, y);
            let a: i64 = self.u[inner_left];
            let b: i64 = self.u[inner_right];
            self.u[left] = a;
            self.u[right] = b;
            y += 1;
            proof {
                assert forall|i: int| 0 <= i < g.u.len() implies #[trigger] self.u[i]
                    == columns_mirrored(g, i, y as int) by {
                    lemma_entry(g, i);
                }
            }
        }
        proof {
            assert forall|i: int| 0 <= i < g.u.len() implies #[trigger] self.u[i]
                == g.mirrored().u[i] by {
                lemma_entry(g, i);
            }
            assert(self.u@ =~= g.mirrored().u);
        }
    }

    /// The change of velocity of the interior cell `(x, y)`: the forces from
    /// its four nearest neighbours, and a sixteenth of the forces from the
    /// four neighbours two cells away.
    fn cell_delta(&self, x: usize, y: usize) -> (d: i64)
        requires
            self.wf(),
            self@.interior(x as int, y as int),
        ensures
            d == self@.delta(x as int, y as int),
    {
        let ghost g = self@;
        proof {
            assert(self.width * 3 <= self.width * self.height) by (nonlinear_arith)
                requires
                    self.height >= 3,
            ;
            assert(self.height * 3 <= self.width * self.height) by (nonlinear_arith)
                requires
                    self.width >= 3,
            ;
            assert(self.u.len() == self.width * self.height);
            assert(self.width * 3 <= usize::MAX && self.height * 3 <= usize::MAX);
            reveal_with_fuel(Grid::partial, 9);
            lemma_partial_bound(g, x as int, y as int, 1);
            lemma_partial_bound(g, x as int, y as int, 2);
            lemma_partial_bound(g, x as int, y as int, 3);
            lemma_partial_bound(g, x as int, y as int, 4);
            lemma_partial_bound(g, x as int, y as int, 5);
            lemma_partial_bound(g, x as int, y as int, 6);
            lemma_partial_bound(g, x as int, y as int, 7);
            lemma_partial_bound(g, x as int, y as int, 8);
        }
        let target: (usize, usize) = (x, y);
        let xi: i64 = x as i64;
        let yi: i64 = y as i64;
        let mut d: i64 = 0;
        d = d + self.force(target, (xi + 1, yi));
        d = d + self.force(target, (xi - 1, yi));
        d = d + self.force(target, (xi, yi - 1));
        d = d + self.force(target, (xi, yi + 1));
        d = d + weakened(self.force(target, (xi, yi + 2)));
        d = d + weakened(self.force(target, (xi, yi - 2)));
        d = d + weakened(self.force(target, (xi + 2, yi)));
        d = d + weakened(self.force(target, (xi - 2, yi)));
        d
    }

    /// Accelerates the interior one cell at a time. The changes are gathered
    /// in a buffer first, so that every force is taken from the displacements
    /// as they were before the tick.
    fn update_scalar(&mut self)
        requires
            old(self).wf(),
        ensures
            final(self).wf(),
            final(self)@ == old(self)@.accelerated(),
            final(self).is_vectorized() == old(self).is_vectorized(),
    {
        let w: usize = self.width;
        let h: usize = self.height;
        let n: usize = self.u.len();
        let ghost g = self@;
        let mut field_deltas: Vec<i64> = zeros(n);
        let mut y: usize = 1;
        while y < h - 1
            invariant
                1 <= y <= h - 1,
                w == self.width,
                h == self.height,
                self.wf(),
                self@ == g,
                n == g.u.len(),
                field_deltas.len() == n,
                forall|i: int|
                    0 <= i < n ==> #[trigger] field_deltas[i] == deltas_before(g, i, 1, y as int),
            decreases h - y,
        {
            let mut x: usize = 1;
            while x < w - 1
                invariant
                    1 <= y < h - 1,
                    1 <= x <= w - 1,
                    w == self.width,
                    h == self.height,
                    self.wf(),
                    self@ == g,
                    n == g.u.len(),
                    field_deltas.len() == n,
                    forall|i: int|
                        0 <= i < n ==> #[trigger] field_deltas[i] == deltas_before(
                            g,
                            i,
                            x as int,
                            y as int,
                        ),
                decreases w - x,
            {
                let d: i64 = self.cell_delta(x, y);
                let i: usize = self.index(x, y);
                field_deltas.set(i, d);
                x += 1;
                proof {
                    assert forall|k: int| 0 <= k < n implies #[trigger] field_deltas[k]
                        == deltas_before(g, k, x as int, y as int) by {
                        lemma_entry(g, k);
                    }
                }
            }
            y += 1;
        }
        let mut i: usize = 0;
        while i < n
            invariant
                i <= n,
                n == g.u.len(),
                h == g.height,
                field_deltas.len() == n,
                self.v.len() == n,
                self.u@ == g.u,
                self.width == g.width,
                self.height == g.height,
                g.steppable(),
                g == old(self)@,
                self.vectorized == old(self).vectorized,
                forall|k: int|
                    0 <= k < n ==> #[trigger] field_deltas[k] == deltas_before(g, k, 1, h - 1),
                forall|k: int| 0 <= k < i ==> #[trigger] self.v[k] == g.accelerated().v[k],
                forall|k: int| i <= k < n ==> #[trigger] self.v[k] == g.v[k],
            decreases n - i,
        {
            proof {
                lemma_entry(g, i as int);
            }
            let moved: i64 = saturating_sum(self.v[i], field_deltas[i]);
            self.v[i] = moved;
            i += 1;
        }
        assert(self.v@ =~= g.accelerated().v);
    }

    /// Adds the `k`-th term of the stencil to the gathered change of every
    /// interior cell at once: the interior is taken as one slice and set
    /// against the same slice shifted by the neighbour's offset. The slice is
    /// clipped so that its shifted copy stays inside the grid; what is cut
    /// off would have met a neighbour outside the grid, which exerts no force.
    fn add_shifted(&self, acc: &mut Vec<i64>, k: usize)
        requires
            self.wf(),
            k < STENCIL_SIZE,
            old(acc).len() == self@.u.len(),
            forall|i: int|
                0 <= i < self@.u.len() ==> #[trigger] old(acc)[i] == self@.gathered(
                    self@.column(i),
                    self@.row(i),
                    k as int,
                ),
        ensures
            final(acc).len() == self@.u.len(),
            forall|i: int|
                0 <= i < self@.u.len() ==> #[trigger] final(acc)[i] == self@.gathered(
                    self@.column(i),
                    self@.row(i),
                    k + 1,
                ),
    {
        let w: usize = self.width;
        let h: usize = self.height;
        let ghost g = self@;
        let ghost n = g.u.len() as int;
        let (dx, dy, far) = stencil_offset(k);
        proof {
            assert(self.u.len() == self.width * self.height);
            assert(self.width * 3 <= self.width * self.height) by (nonlinear_arith)
                requires
                    self.height >= 3,
            ;
            assert(self.height * 3 <= self.width * self.height) by (nonlinear_arith)
                requires
                    self.width >= 3,
            ;
        }
        let x0: usize = if dx < -1 { 2 } else { 1 };
        let x1: usize = if dx > 1 { w - 2 } else { w - 1 };
        let y0: usize = if dy < -1 { 2 } else { 1 };
        let y1: usize = if dy > 1 { h - 2 } else { h - 1 };
        let ghost clip = Clip { x0: x0 as int, x1: x1 as int, y0: y0 as int, y1: y1 as int };
        let mut y: usize = y0;
        while y < y1
            invariant
                y0 <= y <= y1,
                1 <= x0 <= x1 <= w - 1,
                1 <= y0 <= y1 <= h - 1,
                x0 + dx >= 0,
                x1 + dx <= w,
                y0 + dy >= 0,
                y1 + dy <= h,
                clip == (Clip { x0: x0 as int, x1: x1 as int, y0: y0 as int, y1: y1 as int }),
                w == self.width,
                h == self.height,
                w * 3 <= usize::MAX,
                h * 3 <= usize::MAX,
                self.wf(),
                self@ == g,
                n == g.u.len(),
                k < STENCIL_SIZE,
                (dx as int, dy as int, far) == stencil(k as int),
                acc.len() == n,
                forall|i: int|
                    0 <= i < n ==> #[trigger] acc[i] == gathered_before(
                        g,
                        i,
                        k as int,
                        clip,
                        x0 as int,
                        y as int,
                    ),
            decreases y1 - y,
        {
            let sy: usize = (y as i64 + dy) as usize;
            let mut x: usize = x0;
            while x < x1
                invariant
                    y0 <= y < y1,
                    x0 <= x <= x1,
                    1 <= x0 <= x1 <= w - 1,
                    1 <= y0 <= y1 <= h - 1,
                    x0 + dx >= 0,
                    x1 + dx <= w,
                    sy == y + dy,
                    sy < h,
                    clip == (Clip { x0: x0 as int, x1: x1 as int, y0: y0 as int, y1: y1 as int }),
                    w == self.width,
                    h == self.height,
                    w * 3 <= usize::MAX,
                    h * 3 <= usize::MAX,
                    self.wf(),
                    self@ == g,
                    n == g.u.len(),
                    k < STENCIL_SIZE,
                    (dx as int, dy as int, far) == stencil(k as int),
                    acc.len() == n,
                    forall|i: int|
                        0 <= i < n ==> #[trigger] acc[i] == gathered_before(
                            g,
                            i,
                            k as int,
                            clip,
                            x as int,
                            y as int,
                        ),
                decreases x1 - x,
            {
                let sx: usize = (x as i64 + dx) as usize;
                let i: usize = self.index(x, y);
                let j: usize = self.index(sx, sy);
                let f: i64 = force_between(self.u[j], self.u[i]);
                let t: i64 = if far { weakened(f) } else { f };
                proof {
                    lemma_partial_bound(g, x as int, y as int, k as int);
                    lemma_term_bound(g, x as int, y as int, k as int);
                    assert(t == g.term(x as int, y as int, k as int));
                    assert(acc[i as int] == g.partial(x as int, y as int, k as int));
                    assert(k * FORCE_LIMIT <= 7 * FORCE_LIMIT) by (nonlinear_arith)
                        requires
                            k <= 7,
                    ;
                    assert(-k * FORCE_LIMIT >= -7 * FORCE_LIMIT) by (nonlinear_arith)
                        requires
                            0 <= k <= 7,
                    ;
                }
                let sum: i64 = acc[i] + t;
                acc.set(i, sum);
                x += 1;
                proof {
                    assert forall|c: int| 0 <= c < n implies #[trigger] acc[c] == gathered_before(
                        g,
                        c,
                        k as int,
                        clip,
                        x as int,
                        y as int,
                    ) by {
                        lemma_entry(g, c);
                    }
                }
            }
            y += 1;
        }
        proof {
            assert forall|i: int| 0 <= i < n implies #[trigger] acc[i] == g.gathered(
                g.column(i),
                g.row(i),
                k + 1,
            ) by {
                lemma_entry(g, i);
                let c = g.column(i);
                let r = g.row(i);
                if g.interior(c, r) && !(x0 <= c < x1 && y0 <= r < y1) {
                    assert(!g.contains(c + dx, r + dy));
                    assert(g.term(c, r, k as int) == 0);
                }
            }
        }
    }

    /// Accelerates the interior slice by slice: one pass over the whole
    /// interior for each neighbour of the stencil, and one that adds the
    /// gathered changes to the velocities.
    fn update_vectorized(&mut self)
        requires
            old(self).wf(),
        ensures
            final(self).wf(),
            final(self)@ == old(self)@.accelerated(),
            final(self).is_vectorized() == old(self).is_vectorized(),
    {
        let w: usize = self.width;
        let h: usize = self.height;
        let n: usize = self.u.len();
        let ghost g = self@;
        let mut acc: Vec<i64> = zeros(n);
        let mut k: usize = 0;
        while k < STENCIL_SIZE
            invariant
                k <= STENCIL_SIZE,
                self.wf(),
                self@ == g,
                n == g.u.len(),
                acc.len() == n,
                forall|i: int|
                    0 <= i < n ==> #[trigger] acc[i] == g.gathered(
                        g.column(i),
                        g.row(i),
                        k as int,
                    ),
            decreases STENCIL_SIZE - k,
        {
            self.add_shifted(&mut acc, k);
            k += 1;
        }
        let mut y: usize = 1;
        while y < h - 1
            invariant
                1 <= y <= h - 1,
                w == self.width,
                h == self.height,
                self.wf(),
                g == old(self)@,
                g.steppable(),
                self@.width == g.width,
                self@.height == g.height,
                self.u@ == g.u,
                self.vectorized == old(self).vectorized,
                n == g.u.len(),
                acc.len() == n,
                forall|i: int|
                    0 <= i < n ==> #[trigger] acc[i] == g.gathered(
                        g.column(i),
                        g.row(i),
                        STENCIL_SIZE as int,
                    ),
                forall|i: int|
                    0 <= i < n ==> #[trigger] self.v[i] == accelerated_before(g, i, 1, y as int),
            decreases h - y,
        {
            let mut x: usize = 1;
            while x < w - 1
                invariant
                    1 <= y < h - 1,
                    1 <= x <= w - 1,
                    w == self.width,
                    h == self.height,
                    self.wf(),
                    g == old(self)@,
                    g.steppable(),
                    self@.width == g.width,
                    self@.height == g.height,
                    self.u@ == g.u,
                    self.vectorized == old(self).vectorized,
                    n == g.u.len(),
                    acc.len() == n,
                    forall|i: int|
                        0 <= i < n ==> #[trigger] acc[i] == g.gathered(
                            g.column(i),
                            g.row(i),
                            STENCIL_SIZE as int,
                        ),
                    forall|i: int|
                        0 <= i < n ==> #[trigger] self.v[i] == accelerated_before(
                            g,
                            i,
                            x as int,
                            y as int,
                        ),
                decreases w - x,
            {
                let i: usize = self.index(x, y);
                let moved: i64 = saturating_sum(self.v[i], acc[i]);
                self.v[i] = moved;
                x += 1;
                proof {
                    assert forall|c: int| 0 <= c < n implies #[trigger] self.v[c]
                        == accelerated_before(g, c, x as int, y as int) by {
                        lemma_entry(g, c);
                    }
                }
            }
            y += 1;
        }
        proof {
            assert forall|i: int| 0 <= i < n implies #[trigger] self.v[i]
                == g.accelerated().v[i] by {
                lemma_entry(g, i);
            }
            assert(self.v@ =~= g.accelerated().v);
        }
    }

    /// Moves every cell by its velocity.
    fn integrate(&mut self)
        requires
            old(self).wf(),
        ensures
            final(self).wf(),
            final(self)@ == old(self)@.integrated(),
            final(self).is_vectorized() == old(self).is_vectorized(),
    {
        let n: usize = self.u.len();
        let mut i: usize = 0;
        while i < n
            invariant
                i <= n,
                n == self.u.len(),
                n == self.v.len(),
                n == old(self).u.len(),
                old(self).wf(),
                self.width == old(self).width,
                self.height == old(self).height,
                self.vectorized == old(self).vectorized,
                self.v@ == old(self).v@,
                forall|k: int|
                    0 <= k < i ==> self.u[k] == saturate(old(self).u[k] + old(self).v[k]),
                forall|k: int| i <= k < n ==> self.u[k] == old(self).u[k],
            decreases n - i,
        {
            let moved: i64 = saturating_sum(self.u[i], self.v[i]);
            self.u[i] = moved;
            i += 1;
        }
        assert(self.u@ =~= old(self)@.integrated().u);
    }
}

impl Field for Field2D {
    open spec fn extent(&self) -> (nat, nat) {
        (self@.width, self@.height)
    }

    open spec fn displacement(&self, x: int, y: int) -> i64 {
        self@.u[self@.cell(x, y)]
    }

    /// Advances the field by one tick: the border is mirrored, the interior
    /// is accelerated by the strategy chosen at construction, and every cell
    /// moves by its velocity.
    fn step(&mut self)
        ensures
            final(self).wf(),
            final(self)@ == old(self)@.stepped(),
            final(self).is_vectorized() == old(self).is_vectorized(),
    {
        proof {
            use_type_invariant(&*self);
        }
        self.mirror_borders();
        if self.vectorized {
            self.update_vectorized();
        } else {
            self.update_scalar();
        }
        self.integrate();
    }

    fn dimensions(&self) -> (d: (usize, usize)) {
        (self.width, self.height)
    }

    fn sample(&self, x: i64, y: i64) -> (r: Result<i64, FieldError>) {
        proof {
            use_type_invariant(&*self);
        }
        if x < 0 || x as u64 >= self.width as u64 {
            return Err(FieldError::OutOfRange);
        }
        if y < 0 || y as u64 >= self.height as u64 {
            return Err(FieldError::OutOfRange);
        }
        let i: usize = self.index(x as usize, y as usize);
        Ok(self.u[i])
    }
}

} // verus!
