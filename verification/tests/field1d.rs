use wave_field::field::field1d::Field1D;
use wave_field::field::{Field, FieldError, Pixel};
use wave_field::fixed::ONE;

fn row(field: &Field1D) -> Vec<Pixel> {
    (0..field.width() as i64)
        .map(|x| Pixel { u: field.sample(x, 0).unwrap(), v: field.sample_velocity(x).unwrap() })
        .collect()
}

#[test]
fn a_pixel_at_rest_is_zero() {
    assert_eq!(Pixel::zero(), Pixel { u: 0, v: 0 });
}

#[test]
fn the_row_starts_with_a_quarter_wave() {
    let field = Field1D::new();
    assert_eq!(field.dimensions(), (256, 1));
    assert_eq!(field.width(), 256);
    assert_eq!(field.height(), 1);
    let cells = row(&field);
    assert_eq!(cells[0], Pixel { u: 255 * ONE, v: 0 });
    for (j, cell) in cells.iter().enumerate() {
        assert_eq!(cell.v, 0);
        let expected =
            if j < 20 { 255.0 * (j as f64 * std::f64::consts::PI * 0.025).cos() } else { 0.0 };
        assert!((cell.u as f64 / ONE as f64 - expected).abs() < 1e-6, "cell {j}");
    }
    assert_eq!(Field1D::pixels_at_end(), cells);
}

#[test]
fn the_block_covers_sixteen_cells_in_the_middle() {
    let cells = Field1D::pixels_centered();
    assert_eq!(cells.len(), 256);
    for (j, cell) in cells.iter().enumerate() {
        let expected = if (120..136).contains(&j) { 255 * ONE } else { 0 };
        assert_eq!(*cell, Pixel { u: expected, v: 0 });
    }
    assert_eq!(row(&Field1D::centered()), cells);
}

#[test]
fn a_step_pulls_each_cell_toward_its_two_neighbours() {
    let mut field = Field1D::new();
    let before = row(&field);
    field.step();
    let after = row(&field);
    assert_eq!(after.len(), 256);
    for j in 0..256 {
        let here = before[j].u;
        let mut delta = 0;
        if j + 1 < 256 {
            delta += (before[j + 1].u - here) / 20;
        }
        if j > 0 {
            delta += (before[j - 1].u - here) / 20;
        }
        assert_eq!(after[j], Pixel { u: here + delta, v: delta }, "cell {j}");
    }
    // The front ends in a step from 255·cos(19π/40) to zero.
    assert_eq!(after[20].v, before[19].u / 20);
    assert_eq!(after[21], Pixel { u: 0, v: 0 });
}

#[test]
fn the_block_erodes_at_its_two_edges() {
    let mut field = Field1D::centered();
    field.step();
    let after = row(&field);
    // A twentieth of 255 is 12.75.
    let pull = 12 * ONE + 3 * ONE / 4;
    let top = 255 * ONE;
    assert_eq!(after[119], Pixel { u: pull, v: pull });
    assert_eq!(after[120], Pixel { u: top - pull, v: -pull });
    assert_eq!(after[121], Pixel { u: top, v: 0 });
    assert_eq!(after[135], Pixel { u: top - pull, v: -pull });
    assert_eq!(after[136], Pixel { u: pull, v: pull });
    assert_eq!(after[118], Pixel { u: 0, v: 0 });
    field.step();
    let after = row(&field);
    // Cell 119 now has 242.25 on one side and 0 on the other.
    let delta = (top - pull - pull) / 20 + (0 - pull) / 20;
    assert_eq!(after[119], Pixel { u: pull + pull + delta, v: pull + delta });
}

#[test]
fn force_along_the_row() {
    let field = Field1D::centered();
    assert_eq!(field.force(0, -1), 0);
    assert_eq!(field.force(255, 256), 0);
    assert_eq!(field.force(255, i64::MAX), 0);
    assert_eq!(field.force(255, i64::MIN), 0);
    assert_eq!(field.force(119, 120), 12 * ONE + 3 * ONE / 4);
    assert_eq!(field.force(120, 119), -12 * ONE - 3 * ONE / 4);
    assert_eq!(field.force(120, 121), 0);
    assert_eq!(field.force(120, 120), 0);
}

#[test]
fn sample_outside_the_row_is_out_of_range() {
    let field = Field1D::new();
    assert_eq!(field.sample(-1, 0), Err(FieldError::OutOfRange));
    assert_eq!(field.sample(256, 0), Err(FieldError::OutOfRange));
    assert_eq!(field.sample(0, 1), Err(FieldError::OutOfRange));
    assert_eq!(field.sample(0, -1), Err(FieldError::OutOfRange));
    assert_eq!(field.sample(255, 0), Ok(0));
    assert_eq!(field.sample_velocity(-1), Err(FieldError::OutOfRange));
    assert_eq!(field.sample_velocity(256), Err(FieldError::OutOfRange));
}

#[test]
fn the_row_keeps_its_length() {
    let mut field = Field1D::new();
    for _ in 0..100 {
        field.step();
        assert_eq!(field.dimensions(), (256, 1));
    }
}
