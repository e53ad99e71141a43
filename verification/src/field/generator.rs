//! Initial grids: one sample of displacement and one of velocity for every
//! cell, each a function of the cell's coordinates alone.
//!
//! Two presets start the field at rest: a radial pulse, a raised disc round
//! the centre of the grid, and a standing wave, stripes that vary along x.
use crate::field::field2d::Field2D;
use crate::field::grid::{lemma_cell, lemma_entry, Grid};
use crate::fixed::{cosine_of_square, cosine_series, lemma_cosine_series_bound};
use crate::fixed::{ONE, PI_SQUARED, QUARTER_TURN_SQUARED};
use vstd::arithmetic::div_mod::{lemma_div_is_ordered, lemma_div_pos_is_pos};
use vstd::arithmetic::div_mod::{lemma_fundamental_div_mod, lemma_mod_bound};
use vstd::arithmetic::div_mod::{lemma_add_mod_noop, lemma_mod_self_0, lemma_small_mod};
use vstd::prelude::*;

verus! {

/// The height of both presets at their crest.
pub const AMPLITUDE: i64 = 255;

/// The number of cells in one period of the standing wave.
pub const WAVELENGTH: usize = 128;

/// The radial pulse covers the cells whose distance d from the centre has
/// 0.1·d ≤ π/2. With n = 4·d² that is n ≤ 100·π², and n is whole.
pub const PULSE_REACH: usize = 986;

/// The presets.
#[derive(Clone, Copy, Debug, PartialEq, Eq)]
pub enum Generator {
    /// `u` = 255·cos(0.1·d) where 0.1·d ≤ π/2, d the distance from the centre
    /// of the grid, and 0 elsewhere; `v` = 0.
    RadialPulse,
    /// `u` = 255·cos(x·π/64), whatever y is; `v` = 0.
    StandingWave,
}

/// The square of the angle j·π/steps, as a sample.
pub open spec fn angle_square(j: int, steps: int) -> int {
    (j * j * PI_SQUARED) / (steps * steps)
}

/// The displacement of the standing wave in column `x`: 255·cos(x·π/64).
/// The column is first reduced to one period of 128 cells, then to the first
/// half of it, since cos(2π − t) = cos t, and then to the first quarter, since
/// cos(π − t) = −cos t.
pub open spec fn standing_u(x: int) -> int {
    let k = x % (WAVELENGTH as int);
    let m = if k <= 64 {
        k
    } else {
        128 - k
    };
    if m <= 32 {
        AMPLITUDE * cosine_series(angle_square(m, 64))
    } else {
        -AMPLITUDE * cosine_series(angle_square(64 - m, 64))
    }
}

/// The displacement of the radial pulse at `(x, y)` on a grid of the given
/// size. The centre lies at (width/2, height/2), so with a = 2x − width and
/// b = 2y − height the squared distance is (a² + b²)/4, and the squared angle
/// (0.1·d)² is (a² + b²)/400.
pub open spec fn radial_u(width: int, height: int, x: int, y: int) -> int {
    let a = 2 * x - width;
    let b = 2 * y - height;
    let n = a * a + b * b;
    if n <= PULSE_REACH {
        AMPLITUDE * cosine_series((n * ONE) / 400)
    } else {
        0
    }
}

impl Generator {
    /// The displacement that the preset gives to cell `(x, y)`.
    pub open spec fn u_at(self, width: int, height: int, x: int, y: int) -> int {
        match self {
            Generator::RadialPulse => radial_u(width, height, x, y),
            Generator::StandingWave => standing_u(x),
        }
    }

    /// The grid that the preset gives for a width and a height.
    pub open spec fn grid(self, width: nat, height: nat) -> Grid {
        Grid {
            width,
            height,
            u: Seq::new(
                width * height,
                |i: int|
                    self.u_at(
                        width as int,
                        height as int,
                        i % (width as int),
                        i / (width as int),
                    ) as i64,
            ),
            v: Seq::new(width * height, |i: int| 0i64),
        }
    }
}

/// The grid holds, for every cell, a value that `u_fun` and `v_fun` give for
/// that cell.
pub open spec fn generated_by<F: Fn(usize, usize) -> i64, G: Fn(usize, usize) -> i64>(
    g: Grid,
    u_fun: F,
    v_fun: G,
) -> bool {
    &&& g.wf()
    &&& forall|x: int, y: int|
        g.contains(x, y) ==> call_ensures(
            u_fun,
            (x as usize, y as usize),
            g.u[#[trigger] g.cell(x, y)],
        )
    &&& forall|x: int, y: int|
        g.contains(x, y) ==> call_ensures(
            v_fun,
            (x as usize, y as usize),
            g.v[#[trigger] g.cell(x, y)],
        )
}

/// The function gives one value only for each cell of the grid.
pub open spec fn single_valued<F: Fn(usize, usize) -> i64>(f: F, width: nat, height: nat) -> bool {
    forall|x: usize, y: usize, a: i64, b: i64|
        x < width && y < height && #[trigger] call_ensures(f, (x, y), a) && #[trigger] call_ensures(
            f,
            (x, y),
            b,
        ) ==> a == b
}

/// The square of the angle j·π/steps, for an angle of at most a quarter turn.
pub fn angle_square_of(j: usize, steps: usize) -> (s: i64)
    requires
        0 < steps <= 1024,
        2 * j <= steps,
    ensures
        s == angle_square(j as int, steps as int),
        0 <= s <= QUARTER_TURN_SQUARED,
{
    proof {
        lemma_angle_square_bound(j as int, steps as int);
        assert(j * j <= 512 * 512) by (nonlinear_arith)
            requires
                j <= 512,
        ;
        assert(0 < steps * steps <= 1024 * 1024) by (nonlinear_arith)
            requires
                0 < steps <= 1024,
        ;
    }
    let jj: i64 = (j * j) as i64;
    let nn: i64 = (steps * steps) as i64;
    proof {
        assert(0 <= jj * PI_SQUARED <= 512 * 512 * PI_SQUARED) by (nonlinear_arith)
            requires
                0 <= jj <= 512 * 512,
        ;
    }
    (jj * PI_SQUARED) / nn
}

/// The displacement of the standing wave in column `x`.
pub fn standing_sample(x: usize) -> (r: i64)
    ensures
        r == standing_u(x as int),
{
    let k: usize = x % WAVELENGTH;
    let m: usize = if k <= 64 {
        k
    } else {
        128 - k
    };
    if m <= 32 {
        AMPLITUDE * cosine_of_square(angle_square_of(m, 64))
    } else {
        -AMPLITUDE * cosine_of_square(angle_square_of(64 - m, 64))
    }
}

/// The displacement of the radial pulse at `(x, y)` on a grid of the given
/// size.
pub fn radial_sample(width: usize, height: usize, x: usize, y: usize) -> (r: i64)
    requires
        x < width,
        y < height,
    ensures
        r == radial_u(width as int, height as int, x as int, y as int),
{
    let a: usize = if x >= width - x {
        x - (width - x)
    } else {
        (width - x) - x
    };
    let b: usize = if y >= height - y {
        y - (height - y)
    } else {
        (height - y) - y
    };
    proof {
        let sa = 2 * x - width;
        let sb = 2 * y - height;
        assert(sa * sa == a * a) by (nonlinear_arith)
            requires
                sa == a || sa == -a,
        ;
        assert(sb * sb == b * b) by (nonlinear_arith)
            requires
                sb == b || sb == -b,
        ;
        assert(a > 31 ==> a * a >= 1024) by (nonlinear_arith);
        assert(b > 31 ==> b * b >= 1024) by (nonlinear_arith);
        assert(a <= 31 ==> a * a <= 961) by (nonlinear_arith);
        assert(b <= 31 ==> b * b <= 961) by (nonlinear_arith);
        assert(0 <= a * a && 0 <= b * b) by (nonlinear_arith);
    }
    if a > 31 || b > 31 {
        return 0;
    }
    let n: usize = a * a + b * b;
    if n > PULSE_REACH {
        return 0;
    }
    proof {
        lemma_div_pos_is_pos(n * ONE, 400);
        lemma_div_is_ordered(n * ONE, PULSE_REACH * ONE, 400);
    }
    let s: i64 = (n as i64 * ONE) / 400;
    AMPLITUDE * cosine_of_square(s)
}

impl Field2D {
    /// Fills a `width` × `height` pair of arrays, `u` from `u_fun` and `v` from
    /// `v_fun`. Cell `(x, y)` is entry `y * width + x` of each array. The two
    /// functions need to accept the cells of the grid and nothing else.
    pub fn pixels_from_fn<F: Fn(usize, usize) -> i64, G: Fn(usize, usize) -> i64>(
        width: usize,
        height: usize,
        u_fun: F,
        v_fun: G,
    ) -> (r: (Vec<i64>, Vec<i64>))
        requires
            width * height <= usize::MAX,
            forall|x: usize, y: usize| x < width && y < height ==> call_requires(u_fun, (x, y)),
            forall|x: usize, y: usize| x < width && y < height ==> call_requires(v_fun, (x, y)),
        ensures
            generated_by(
                (Grid { width: width as nat, height: height as nat, u: r.0@, v: r.1@ }),
                u_fun,
                v_fun,
            ),
    {
        let ghost shape = Grid {
            width: width as nat,
            height: height as nat,
            u: Seq::new((width * height) as nat, |i: int| 0i64),
            v: Seq::new((width * height) as nat, |i: int| 0i64),
        };
        let mut u: Vec<i64> = Vec::new();
        let mut v: Vec<i64> = Vec::new();
        let mut y: usize = 0;
        while y < height
            invariant
                y <= height,
                shape.wf(),
                shape.width == width,
                shape.height == height,
                u.len() == y * width,
                v.len() == y * width,
                forall|x: usize, y: usize| x < width && y < height ==> call_requires(u_fun, (x, y)),
                forall|x: usize, y: usize| x < width && y < height ==> call_requires(v_fun, (x, y)),
                forall|i: int|
                    0 <= i < u.len() ==> call_ensures(
                        u_fun,
                        (shape.column(i) as usize, shape.row(i) as usize),
                        #[trigger] u[i],
                    ),
                forall|i: int|
                    0 <= i < v.len() ==> call_ensures(
                        v_fun,
                        (shape.column(i) as usize, shape.row(i) as usize),
                        #[trigger] v[i],
                    ),
            decreases height - y,
        {
            let mut x: usize = 0;
            while x < width
                invariant
                    y < height,
                    x <= width,
                    shape.wf(),
                    shape.width == width,
                    shape.height == height,
                    u.len() == y * width + x,
                    v.len() == y * width + x,
                    forall|x: usize, y: usize|
                        x < width && y < height ==> call_requires(u_fun, (x, y)),
                    forall|x: usize, y: usize|
                        x < width && y < height ==> call_requires(v_fun, (x, y)),
                    forall|i: int|
                        0 <= i < u.len() ==> call_ensures(
                            u_fun,
                            (shape.column(i) as usize, shape.row(i) as usize),
                            #[trigger] u[i],
                        ),
                    forall|i: int|
                        0 <= i < v.len() ==> call_ensures(
                            v_fun,
                            (shape.column(i) as usize, shape.row(i) as usize),
                            #[trigger] v[i],
                        ),
                decreases width - x,
            {
                proof {
                    lemma_cell(shape, x as int, y as int);
                }
                let a: i64 = u_fun(x, y);
                let b: i64 = v_fun(x, y);
                u.push(a);
                v.push(b);
                x += 1;
            }
            proof {
                assert(y * width + width == (y + 1) * width) by (nonlinear_arith);
            }
            y += 1;
        }
        proof {
            let g = Grid { width: width as nat, height: height as nat, u: u@, v: v@ };
            assert(height * width == width * height) by (nonlinear_arith);
            assert(g.wf());
            assert forall|x: int, y: int| g.contains(x, y) implies call_ensures(
                u_fun,
                (x as usize, y as usize),
                g.u[#[trigger] g.cell(x, y)],
            ) && call_ensures(v_fun, (x as usize, y as usize), g.v[g.cell(x, y)]) by {
                lemma_cell(shape, x, y);
                let i = shape.cell(x, y);
                assert(g.cell(x, y) == i);
                assert(call_ensures(
                    u_fun,
                    (shape.column(i) as usize, shape.row(i) as usize),
                    u[i],
                ));
                assert(call_ensures(
                    v_fun,
                    (shape.column(i) as usize, shape.row(i) as usize),
                    v[i],
                ));
            }
        }
        (u, v)
    }

    /// The standing wave on a `width` × `height` grid, at rest.
    pub fn standing(width: usize, height: usize) -> (r: (Vec<i64>, Vec<i64>))
        requires
            width * height <= usize::MAX,
        ensures
            r.0@ == Generator::StandingWave.grid(width as nat, height as nat).u,
            r.1@ == Generator::StandingWave.grid(width as nat, height as nat).v,
    {
        let f = |x: usize, y: usize| -> (s: i64)
            ensures
                s == standing_u(x as int),
            { standing_sample(x) };
        let zero = |x: usize, y: usize| -> (s: i64)
            ensures
                s == 0,
            { 0 };
        let r = Self::pixels_from_fn(width, height, f, zero);
        proof {
            let g = Grid { width: width as nat, height: height as nat, u: r.0@, v: r.1@ };
            let want = Generator::StandingWave.grid(width as nat, height as nat);
            assert forall|i: int| 0 <= i < g.u.len() implies g.u[i] == want.u[i] && g.v[i]
                == want.v[i] by {
                lemma_entry(g, i);
                assert(g.cell(g.column(i), g.row(i)) == i);
            }
            assert(r.0@ =~= want.u);
            assert(r.1@ =~= want.v);
        }
        r
    }

    /// The radial pulse on a `width` × `height` grid, at rest.
    pub fn pixels_centered(width: usize, height: usize) -> (r: (Vec<i64>, Vec<i64>))
        requires
            width * height <= usize::MAX,
        ensures
            r.0@ == Generator::RadialPulse.grid(width as nat, height as nat).u,
            r.1@ == Generator::RadialPulse.grid(width as nat, height as nat).v,
    {
        let f = |x: usize, y: usize| -> (s: i64)
            requires
                x < width,
                y < height,
            ensures
                s == radial_u(width as int, height as int, x as int, y as int),
            { radial_sample(width, height, x, y) };
        let zero = |x: usize, y: usize| -> (s: i64)
            ensures
                s == 0,
            { 0 };
        let r = Self::pixels_from_fn(width, height, f, zero);
        proof {
            let g = Grid { width: width as nat, height: height as nat, u: r.0@, v: r.1@ };
            let want = Generator::RadialPulse.grid(width as nat, height as nat);
            assert forall|i: int| 0 <= i < g.u.len() implies g.u[i] == want.u[i] && g.v[i]
                == want.v[i] by {
                lemma_entry(g, i);
                assert(g.cell(g.column(i), g.row(i)) == i);
            }
            assert(r.0@ =~= want.u);
            assert(r.1@ =~= want.v);
        }
        r
    }
}

/// The square of an angle of at most a quarter turn is at most the square of
/// a quarter turn.
pub proof fn lemma_angle_square_bound(j: int, steps: int)
    requires
        0 <= j,
        0 < steps,
        2 * j <= steps,
    ensures
        0 <= angle_square(j, steps) <= QUARTER_TURN_SQUARED,
{
    let jj = j * j;
    let nn = steps * steps;
    assert(0 <= jj && 4 * jj <= nn && 0 < nn) by (nonlinear_arith)
        requires
            jj == j * j,
            nn == steps * steps,
            0 <= j,
            0 < steps,
            2 * j <= steps,
    ;
    assert(0 <= jj * PI_SQUARED) by (nonlinear_arith)
        requires
            0 <= jj,
    ;
    let q = (jj * PI_SQUARED) / nn;
    lemma_div_pos_is_pos(jj * PI_SQUARED, nn);
    lemma_fundamental_div_mod(jj * PI_SQUARED, nn);
    lemma_mod_bound(jj * PI_SQUARED, nn);
    assert(4 * q <= PI_SQUARED) by (nonlinear_arith)
        requires
            nn * q <= jj * PI_SQUARED,
            4 * jj <= nn,
            0 < nn,
            0 <= q,
            0 <= jj,
    ;
}

/// The standing wave stays between −255 and 255, and repeats every 128
/// columns.
pub proof fn lemma_standing_wave(x: int)
    requires
        0 <= x,
    ensures
        -AMPLITUDE * ONE <= standing_u(x) <= AMPLITUDE * ONE,
        standing_u(x + WAVELENGTH) == standing_u(x),
{
    let k = x % (WAVELENGTH as int);
    lemma_mod_bound(x, WAVELENGTH as int);
    let m = if k <= 64 {
        k
    } else {
        128 - k
    };
    let j = if m <= 32 {
        m
    } else {
        64 - m
    };
    lemma_angle_square_bound(j, 64);
    lemma_cosine_series_bound(angle_square(j, 64));
    let c = cosine_series(angle_square(j, 64));
    assert(0 <= AMPLITUDE * c <= AMPLITUDE * ONE) by (nonlinear_arith)
        requires
            0 <= c <= ONE,
    ;
    lemma_add_mod_noop(x, WAVELENGTH as int, WAVELENGTH as int);
    lemma_mod_self_0(WAVELENGTH as int);
    lemma_small_mod(k as nat, WAVELENGTH as nat);
}

/// The radial pulse stays between 0 and 255, and looks the same from
/// opposite sides of the centre, along either axis.
pub proof fn lemma_radial_pulse(width: int, height: int, x: int, y: int)
    ensures
        0 <= radial_u(width, height, x, y) <= AMPLITUDE * ONE,
        radial_u(width, height, width - x, y) == radial_u(width, height, x, y),
        radial_u(width, height, x, height - y) == radial_u(width, height, x, y),
{
    let a = 2 * x - width;
    let b = 2 * y - height;
    let n = a * a + b * b;
    assert(0 <= n) by (nonlinear_arith)
        requires
            n == a * a + b * b,
    ;
    assert((-a) * (-a) == a * a && (-b) * (-b) == b * b) by (nonlinear_arith);
    assert(2 * (width - x) - width == -a);
    assert(2 * (height - y) - height == -b);
    if n <= PULSE_REACH {
        lemma_div_pos_is_pos(n * ONE, 400);
        lemma_div_is_ordered(n * ONE, PULSE_REACH * ONE, 400);
        let s = (n * ONE) / 400;
        lemma_cosine_series_bound(s);
        let c = cosine_series(s);
        assert(0 <= AMPLITUDE * c <= AMPLITUDE * ONE) by (nonlinear_arith)
            requires
                0 <= c <= ONE,
        ;
    }
}

/// A preset starts at rest, and each cell holds what the preset gives for
/// its coordinates; for the standing wave that is a function of the column
/// alone.
pub proof fn lemma_preset_cells(generator: Generator, width: nat, height: nat, x: int, y: int)
    requires
        0 <= x < width,
        0 <= y < height,
    ensures
        generator.grid(width, height).wf(),
        generator.grid(width, height).v_at(x, y) == 0,
        generator.grid(width, height).u_at(x, y) == generator.u_at(
            width as int,
            height as int,
            x,
            y,
        ),
{
    let g = generator.grid(width, height);
    lemma_cell(g, x, y);
    match generator {
        Generator::RadialPulse => {
            lemma_radial_pulse(width as int, height as int, x, y);
        },
        Generator::StandingWave => {
            lemma_standing_wave(x);
        },
    }
}

/// Generation is deterministic: two grids of one shape, both filled from the
/// same pair of functions, are equal wherever each function gives one value
/// only for a cell.
pub proof fn lemma_generation_is_deterministic<
    F: Fn(usize, usize) -> i64,
    G: Fn(usize, usize) -> i64,
>(a: Grid, b: Grid, u_fun: F, v_fun: G)
    requires
        a.width == b.width,
        a.height == b.height,
        a.width * a.height <= usize::MAX,
        generated_by(a, u_fun, v_fun),
        generated_by(b, u_fun, v_fun),
        single_valued(u_fun, a.width, a.height),
        single_valued(v_fun, a.width, a.height),
    ensures
        a == b,
{
    assert forall|i: int| 0 <= i < a.u.len() implies a.u[i] == b.u[i] && a.v[i] == b.v[i] by {
        lemma_entry(a, i);
        let x = a.column(i);
        let y = a.row(i);
        assert(a.cell(x, y) == i);
        assert(b.cell(x, y) == i);
        assert(x < a.width * a.height && y < a.width * a.height) by (nonlinear_arith)
            requires
                0 <= x < a.width,
                0 <= y < a.height,
        ;
        assert(call_ensures(u_fun, (x as usize, y as usize), a.u[a.cell(x, y)]));
        assert(call_ensures(u_fun, (x as usize, y as usize), b.u[b.cell(x, y)]));
        assert(call_ensures(v_fun, (x as usize, y as usize), a.v[a.cell(x, y)]));
        assert(call_ensures(v_fun, (x as usize, y as usize), b.v[b.cell(x, y)]));
    }
    assert(a.u =~= b.u);
    assert(a.v =~= b.v);
}

/// A preset is deterministic: whatever it gives for a width and a height, it
/// gives again.
pub proof fn lemma_preset_is_deterministic(
    generator: Generator,
    width: nat,
    height: nat,
    first: (Seq<i64>, Seq<i64>),
    second: (Seq<i64>, Seq<i64>),
)
    requires
        first.0 == generator.grid(width, height).u,
        first.1 == generator.grid(width, height).v,
        second.0 == generator.grid(width, height).u,
        second.1 == generator.grid(width, height).v,
    ensures
        first == second,
{
}

} // verus!
