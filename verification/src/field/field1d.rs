//! The one-dimensional field engine: a single row of cells.
//!
//! Each cell is accelerated by its two neighbours; a neighbour beyond either
//! end of the row exerts no force.
use crate::field::generator::{angle_square, angle_square_of, AMPLITUDE};
use crate::field::render::{color, color_of, Rgba};
use crate::field::{Field, FieldError, Pixel};
use crate::fixed::{cosine_of_square, cosine_series, saturate, saturating_sum, trunc_div, ONE};
use vstd::prelude::*;

verus! {

/// The reciprocal of the squared propagation speed along the row: c² = 1/20.
pub const LINE_DIVISOR: i64 = 20;

/// The number of cells in the row that `new` gives.
pub const LINE_WIDTH: usize = 256;

/// The number of cells, from the start of the row, that the initial wave
/// front covers.
pub const FRONT_WIDTH: usize = 20;

/// The force c²·(source − target) between two cells of the row.
pub open spec fn line_pull(source: int, target: int) -> int {
    trunc_div(source - target, LINE_DIVISOR as int)
}

/// The force on cell `j` from cell `s`; a cell beyond the ends of the row
/// exerts none.
pub open spec fn line_force(p: Seq<Pixel>, j: int, s: int) -> int {
    if 0 <= s < p.len() {
        line_pull(p[s].u as int, p[j].u as int)
    } else {
        0
    }
}

/// The change of velocity of cell `j` in one tick.
pub open spec fn line_delta(p: Seq<Pixel>, j: int) -> int {
    line_force(p, j, j + 1) + line_force(p, j, j - 1)
}

/// Cell `j` one tick later: its velocity grows by the forces of its
/// neighbours, and it then moves by its new velocity.
pub open spec fn line_next(p: Seq<Pixel>, j: int) -> Pixel {
    let v = saturate(p[j].v + line_delta(p, j));
    Pixel { u: saturate(p[j].u + v) as i64, v: v as i64 }
}

/// The row one tick later.
pub open spec fn line_stepped(p: Seq<Pixel>) -> Seq<Pixel> {
    Seq::new(p.len(), |j: int| line_next(p, j))
}

/// The row with a quarter of a cosine wave at its start: cell `j` of the
/// first twenty is at 255·cos(j·π/40), every other cell at zero, all at rest.
pub open spec fn front_row() -> Seq<Pixel> {
    Seq::new(
        LINE_WIDTH as nat,
        |j: int|
            if j < FRONT_WIDTH {
                Pixel { u: (AMPLITUDE * cosine_series(angle_square(j, 40))) as i64, v: 0 }
            } else {
                Pixel { u: 0, v: 0 }
            },
    )
}

/// The row with a block in its middle: cells 120 to 135 at 255, every other
/// cell at zero, all at rest.
pub open spec fn block_row() -> Seq<Pixel> {
    Seq::new(
        LINE_WIDTH as nat,
        |j: int|
            if 120 <= j < 136 {
                Pixel { u: (AMPLITUDE * ONE) as i64, v: 0 }
            } else {
                Pixel { u: 0, v: 0 }
            },
    )
}

/// A wave field over one row of cells.
#[derive(Debug)]
pub struct Field1D {
    pixels: Vec<Pixel>,
}

impl View for Field1D {
    type V = Seq<Pixel>;

    closed spec fn view(&self) -> Seq<Pixel> {
        self.pixels@
    }
}

/// A row of `n` cells at rest at level zero.
fn row_of_zeros(n: usize) -> (r: Vec<Pixel>)
    ensures
        r@ == Seq::new(n as nat, |j: int| Pixel { u: 0, v: 0 }),
{
    let mut r: Vec<Pixel> = Vec::new();
    let mut j: usize = 0;
    while j < n
        invariant
            j <= n,
            r@ == Seq::new(j as nat, |k: int| Pixel { u: 0, v: 0 }),
        decreases n - j,
    {
        r.push(Pixel::zero());
        j += 1;
        assert(r@ =~= Seq::new(j as nat, |k: int| Pixel { u: 0, v: 0 }));
    }
    r
}

impl Field1D {
    /// The row has at least one cell, and a signed index can name every cell
    /// and the place beyond either end. This holds of every row.
    pub open spec fn wf(&self) -> bool {
        0 < self@.len() < i64::MAX
    }

    #[verifier::type_invariant]
    closed spec fn inv(&self) -> bool {
        self.wf()
    }

    /// A row of 256 cells with a quarter of a cosine wave at its start.
    pub fn new() -> (r: Self)
        ensures
            r.wf(),
            r@ == front_row(),
    {
        Field1D { pixels: Self::pixels_at_end() }
    }

    /// A row of 256 cells with a block of sixteen raised cells in its middle.
    pub fn centered() -> (r: Self)
        ensures
            r.wf(),
            r@ == block_row(),
    {
        Field1D { pixels: Self::pixels_centered() }
    }

    /// The cells of `block_row`.
    pub fn pixels_centered() -> (pixels: Vec<Pixel>)
        ensures
            pixels@ == block_row(),
    {
        let mut pixels: Vec<Pixel> = row_of_zeros(LINE_WIDTH);
        let mut j: usize = 120;
        while j < 136
            invariant
                120 <= j <= 136,
                pixels.len() == LINE_WIDTH,
                forall|k: int|
                    0 <= k < LINE_WIDTH ==> #[trigger] pixels[k] == (if 120 <= k < j {
                        Pixel { u: (AMPLITUDE * ONE) as i64, v: 0 }
                    } else {
                        Pixel { u: 0, v: 0 }
                    }),
            decreases 136 - j,
        {
            pixels.set(j, Pixel { u: AMPLITUDE * ONE, v: 0 });
            j += 1;
        }
        assert(pixels@ =~= block_row());
        pixels
    }

    /// The cells of `front_row`.
    pub fn pixels_at_end() -> (pixels: Vec<Pixel>)
        ensures
            pixels@ == front_row(),
    {
        let mut pixels: Vec<Pixel> = row_of_zeros(LINE_WIDTH);
        let mut j: usize = 0;
        while j < FRONT_WIDTH
            invariant
                j <= FRONT_WIDTH,
                pixels.len() == LINE_WIDTH,
                forall|k: int|
                    0 <= k < LINE_WIDTH ==> #[trigger] pixels[k] == (if k < j {
                        Pixel { u: (AMPLITUDE * cosine_series(angle_square(k, 40))) as i64, v: 0 }
                    } else {
                        Pixel { u: 0, v: 0 }
                    }),
            decreases FRONT_WIDTH - j,
        {
            let u: i64 = cosine_of_square(angle_square_of(j, 40)) * AMPLITUDE;
            pixels.set(j, Pixel { u, v: 0 });
            j += 1;
        }
        assert(pixels@ =~= front_row());
        pixels
    }

    /// The force on cell `target` from the cell at `source`, which may lie
    /// beyond the ends of the row and then exerts none.
    pub fn force(&self, target: usize, source: i64) -> (f: i64)
        requires
            target < self@.len(),
        ensures
            f == line_force(self@, target as int, source as int),
    {
        if source < 0 || source as u64 >= self.pixels.len() as u64 {
            return 0;
        }
        let s: usize = source as usize;
        ((self.pixels[s].u as i128 - self.pixels[target].u as i128) / (LINE_DIVISOR as i128)) as i64
    }

    /// The number of cells in the row.
    pub fn width(&self) -> (w: usize)
        ensures
            w == self@.len(),
    {
        self.pixels.len()
    }

    /// The number of rows, which is one.
    pub fn height(&self) -> (h: usize)
        ensures
            h == 1,
    {
        1
    }

    /// The picture of the row: the colour of every cell.
    pub fn colors(&self) -> (picture: Vec<Rgba>)
        ensures
            picture.len() == self@.len(),
            forall|j: int|
                0 <= j < picture.len() ==> #[trigger] picture[j] == color_of(self@[j].u as int),
    {
        let n: usize = self.pixels.len();
        let mut picture: Vec<Rgba> = Vec::new();
        let mut j: usize = 0;
        while j < n
            invariant
                j <= n,
                n == self.pixels.len(),
                picture.len() == j,
                forall|k: int|
                    0 <= k < j ==> #[trigger] picture[k] == color_of(self.pixels[k].u as int),
            decreases n - j,
        {
            picture.push(color(self.pixels[j].u));
            j += 1;
        }
        picture
    }

    /// The velocity of cell `x`, or `OutOfRange` for a cell that the row does
    /// not have.
    pub fn sample_velocity(&self, x: i64) -> (r: Result<i64, FieldError>)
        ensures
            r == if 0 <= x < self@.len() {
                Ok::<i64, FieldError>(self@[x as int].v)
            } else {
                Err::<i64, FieldError>(FieldError::OutOfRange)
            },
    {
        if x < 0 || x as u64 >= self.pixels.len() as u64 {
            return Err(FieldError::OutOfRange);
        }
        Ok(self.pixels[x as usize].v)
    }
}

impl Field for Field1D {
    open spec fn extent(&self) -> (nat, nat) {
        (self@.len(), 1)
    }

    open spec fn displacement(&self, x: int, y: int) -> i64 {
        self@[x].u
    }

    /// Advances the row by one tick. The changes of velocity are gathered
    /// first, so that every force is taken from the displacements as they
    /// were before the tick.
    fn step(&mut self)
        ensures
            final(self).wf(),
            final(self)@ == line_stepped(old(self)@),
    {
        proof {
            use_type_invariant(&*self);
        }
        let n: usize = self.pixels.len();
        let ghost p = self@;
        let mut field_deltas: Vec<i64> = Vec::new();
        let mut j: usize = 0;
        while j < n
            invariant
                j <= n,
                n == p.len(),
                n < i64::MAX,
                self@ == p,
                field_deltas.len() == j,
                forall|k: int| 0 <= k < j ==> #[trigger] field_deltas[k] == line_delta(p, k),
            decreases n - j,
        {
            let right: i64 = self.force(j, j as i64 + 1);
            let left: i64 = self.force(j, j as i64 - 1);
            field_deltas.push(right + left);
            j += 1;
        }
        let mut j: usize = 0;
        while j < n
            invariant
                j <= n,
                n == p.len(),
                0 < n < i64::MAX,
                self.pixels.len() == n,
                field_deltas.len() == n,
                forall|k: int| 0 <= k < n ==> #[trigger] field_deltas[k] == line_delta(p, k),
                forall|k: int| 0 <= k < j ==> #[trigger] self.pixels[k] == line_next(p, k),
                forall|k: int| j <= k < n ==> #[trigger] self.pixels[k] == p[k],
            decreases n - j,
        {
            let old_pixel: Pixel = self.pixels[j];
            let v: i64 = saturating_sum(old_pixel.v, field_deltas[j]);
            let u: i64 = saturating_sum(old_pixel.u, v);
            self.pixels[j] = Pixel { u, v };
            j += 1;
        }
        assert(self.pixels@ =~= line_stepped(p));
    }

    fn dimensions(&self) -> (d: (usize, usize)) {
        (self.pixels.len(), 1)
    }

    fn sample(&self, x: i64, y: i64) -> (r: Result<i64, FieldError>) {
        if y != 0 || x < 0 || x as u64 >= self.pixels.len() as u64 {
            return Err(FieldError::OutOfRange);
        }
        Ok(self.pixels[x as usize].u)
    }
}

} // verus!
