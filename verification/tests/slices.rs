//! The tick, written once more as arithmetic on whole slices of an array, to
//! hold the engine against.
use ndarray::{Array2, Axis, Slice};
use wave_field::field::field2d::Field2D;
use wave_field::field::generator::Generator;
use wave_field::field::Field;
use wave_field::fixed::ONE;

fn span(start: isize, end: Option<isize>) -> Slice {
    Slice::new(start, end, 1)
}

/// All but the first and the last index of an axis.
fn inner() -> Slice {
    span(1, Some(-1))
}

fn window(a: &Array2<i64>, xs: Slice, ys: Slice) -> Array2<i64> {
    let columns = a.slice_axis(Axis(0), xs);
    columns.slice_axis(Axis(1), ys).to_owned()
}

fn assign(a: &mut Array2<i64>, xs: Slice, ys: Slice, values: &Array2<i64>) {
    let mut columns = a.slice_axis_mut(Axis(0), xs);
    columns.slice_axis_mut(Axis(1), ys).assign(values);
}

fn add_to(a: &mut Array2<i64>, xs: Slice, ys: Slice, values: &Array2<i64>) {
    let sum = &window(a, xs, ys) + values;
    assign(a, xs, ys, &sum);
}

fn pull(source: &Array2<i64>, target: &Array2<i64>) -> Array2<i64> {
    (source - target).mapv(|d| d / 100)
}

fn weak_pull(source: &Array2<i64>, target: &Array2<i64>) -> Array2<i64> {
    pull(source, target).mapv(|f| f / 16)
}

/// One tick of an array indexed by (x, y).
fn tick(u: &mut Array2<i64>, v: &mut Array2<i64>) {
    // The four edges take the slice next to them.
    let r = window(u, inner(), span(-2, Some(-1)));
    assign(u, inner(), span(-1, None), &r);
    let r = window(u, inner(), span(1, Some(2)));
    assign(u, inner(), span(0, Some(1)), &r);
    let r = window(u, span(-2, Some(-1)), inner());
    assign(u, span(-1, None), inner(), &r);
    let r = window(u, span(1, Some(2)), inner());
    assign(u, span(0, Some(1)), inner(), &r);

    // The four nearest neighbours: the interior against itself, shifted.
    let interior = window(u, inner(), inner());
    let mut delta = pull(&window(u, span(2, None), inner()), &interior)
        + pull(&window(u, span(0, Some(-2)), inner()), &interior)
        + pull(&window(u, inner(), span(0, Some(-2))), &interior)
        + pull(&window(u, inner(), span(2, None)), &interior);

    // The neighbours two cells away: the part of the interior that has one.
    let far = weak_pull(
        &window(u, inner(), span(3, None)),
        &window(u, inner(), span(1, Some(-2))),
    );
    add_to(&mut delta, span(0, None), span(0, Some(-1)), &far);
    let far = weak_pull(
        &window(u, inner(), span(0, Some(-3))),
        &window(u, inner(), span(2, Some(-1))),
    );
    add_to(&mut delta, span(0, None), span(1, None), &far);
    let far = weak_pull(
        &window(u, span(3, None), inner()),
        &window(u, span(1, Some(-2)), inner()),
    );
    add_to(&mut delta, span(0, Some(-1)), span(0, None), &far);
    let far = weak_pull(
        &window(u, span(0, Some(-3)), inner()),
        &window(u, span(2, Some(-1)), inner()),
    );
    add_to(&mut delta, span(1, None), span(0, None), &far);

    add_to(v, inner(), inner(), &delta);
    *u = &*u + &*v;
}

fn arrays(field: &Field2D) -> (Array2<i64>, Array2<i64>) {
    let (width, height) = field.dimensions();
    let u = Array2::from_shape_fn((width, height), |(x, y)| {
        field.sample(x as i64, y as i64).unwrap()
    });
    let v = Array2::from_shape_fn((width, height), |(x, y)| {
        field.sample_velocity(x as i64, y as i64).unwrap()
    });
    (u, v)
}

fn follow(mut field: Field2D, ticks: usize) {
    let (mut u, mut v) = arrays(&field);
    for n in 0..ticks {
        field.step();
        tick(&mut u, &mut v);
        assert_eq!(arrays(&field), (u.clone(), v.clone()), "after tick {n}");
    }
}

fn rough(width: usize, height: usize, vectorized: bool) -> Field2D {
    Field2D::from_fn(
        width,
        height,
        |x, y| ((x * 7919 + y * 104729 + x * y * 31) % 2001) as i64 * (ONE / 8) - 125 * ONE,
        |x, y| ((x * 613 + y * 997) % 41) as i64 * (ONE / 64) - 20 * (ONE / 64),
        vectorized,
    )
    .unwrap()
}

#[test]
fn the_radial_pulse_follows_the_slices() {
    for vectorized in [false, true] {
        follow(Field2D::new(16, 16, Generator::RadialPulse, vectorized).unwrap(), 10);
        follow(Field2D::new(31, 18, Generator::RadialPulse, vectorized).unwrap(), 30);
    }
}

#[test]
fn the_standing_wave_follows_the_slices() {
    for vectorized in [false, true] {
        follow(Field2D::new(256, 3, Generator::StandingWave, vectorized).unwrap(), 20);
    }
}

#[test]
fn a_rough_field_follows_the_slices() {
    for (width, height) in [(5, 5), (6, 4), (4, 7), (20, 9)] {
        for vectorized in [false, true] {
            follow(rough(width, height, vectorized), 10);
        }
    }
}

#[test]
fn the_smallest_grids_follow_the_slices() {
    // Three cells across leave no neighbour two cells away inside the grid,
    // and four leave one on one side only.
    for (width, height) in [(3, 3), (3, 4), (4, 3), (4, 4), (3, 9), (9, 3)] {
        for vectorized in [false, true] {
            follow(rough(width, height, vectorized), 10);
        }
    }
}
