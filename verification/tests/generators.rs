use wave_field::field::field2d::Field2D;
use wave_field::field::generator::{
    angle_square_of, radial_sample, standing_sample, Generator, AMPLITUDE,
};
use wave_field::field::Field;
use wave_field::fixed::{ONE, QUARTER_TURN_SQUARED};

fn as_real(sample: i64) -> f64 {
    sample as f64 / ONE as f64
}

#[test]
fn pixels_from_fn_calls_each_function_on_each_cell() {
    let (u, v) = Field2D::pixels_from_fn(
        3,
        2,
        |x, y| (x + 10 * y) as i64,
        |x, y| -((x * y) as i64),
    );
    assert_eq!(u, vec![0, 1, 2, 10, 11, 12]);
    assert_eq!(v, vec![0, 0, 0, 0, -1, -2]);
}

#[test]
fn pixels_from_fn_stays_inside_the_grid() {
    let width = 7;
    let height = 4;
    let inside = |x: usize, y: usize| {
        assert!(x < width && y < height);
        1
    };
    let (u, v) = Field2D::pixels_from_fn(width, height, inside, inside);
    assert_eq!(u, vec![1; 28]);
    assert_eq!(v, vec![1; 28]);
}

#[test]
fn pixels_from_fn_of_an_empty_grid_is_empty() {
    for (width, height) in [(0, 0), (0, 5), (5, 0)] {
        let (u, v) = Field2D::pixels_from_fn(width, height, |_, _| 1, |_, _| 2);
        assert!(u.is_empty());
        assert!(v.is_empty());
    }
}

#[test]
fn the_radial_pulse_is_the_same_every_time() {
    for (width, height) in [(16, 16), (5, 9), (64, 3), (1, 1), (0, 0)] {
        let first = Field2D::pixels_centered(width, height);
        let second = Field2D::pixels_centered(width, height);
        assert_eq!(first, second);
        assert_eq!(first.0.len(), width * height);
        assert_eq!(first.1, vec![0; width * height]);
    }
    let a = Field2D::new(40, 30, Generator::RadialPulse, false).unwrap();
    let b = Field2D::new(40, 30, Generator::RadialPulse, true).unwrap();
    assert_eq!(a.values(), b.values());
}

#[test]
fn the_standing_wave_is_the_same_every_time() {
    assert_eq!(Field2D::standing(256, 3), Field2D::standing(256, 3));
}

#[test]
fn the_radial_pulse_is_a_cosine_of_the_distance() {
    for (width, height) in [(16usize, 16usize), (41, 37), (80, 60), (3, 3)] {
        let (u, v) = Field2D::pixels_centered(width, height);
        assert_eq!(v, vec![0; width * height]);
        for y in 0..height {
            for x in 0..width {
                let dx = x as f64 - width as f64 / 2.0;
                let dy = y as f64 - height as f64 / 2.0;
                let d = 0.1 * (dx * dx + dy * dy).sqrt();
                let expected = if d <= std::f64::consts::FRAC_PI_2 { 255.0 * d.cos() } else { 0.0 };
                let got = as_real(u[y * width + x]);
                assert!((got - expected).abs() < 1e-6, "({x}, {y}): {got} and {expected}");
                assert_eq!(radial_sample(width, height, x, y), u[y * width + x]);
            }
        }
    }
}

#[test]
fn the_radial_pulse_peaks_at_the_centre_and_ends_at_a_quarter_turn() {
    let (u, _) = Field2D::pixels_centered(80, 80);
    assert_eq!(u[40 * 80 + 40], 255 * ONE);
    // With a = 2x - width and b = 2y - height, a² + b² = 986 is the last
    // cell inside: 31² + 5² = 986, and 0.1 · √986 / 2 is just under π/2.
    let last = radial_sample(33, 7, 32, 6);
    let expected = 255.0 * (0.1 * (986f64).sqrt() / 2.0).cos();
    assert!(last > 0);
    assert!((as_real(last) - expected).abs() < 1e-6);
    assert!(as_real(last) < 0.2);
    // 31² + 6² = 997 lies outside.
    assert_eq!(radial_sample(33, 8, 32, 7), 0);
    // An odd width puts the centre between two columns.
    assert_eq!(radial_sample(5, 5, 2, 2), radial_sample(5, 5, 3, 3));
    assert_eq!(radial_sample(5, 5, 2, 3), radial_sample(5, 5, 3, 2));
    let expected = 255.0 * (0.1 * (0.5f64).sqrt()).cos();
    assert!((as_real(radial_sample(5, 5, 2, 2)) - expected).abs() < 1e-6);
}

#[test]
fn the_radial_pulse_is_zero_beyond_its_reach() {
    let (u, _) = Field2D::pixels_centered(100, 100);
    for y in 0..100usize {
        for x in 0..100usize {
            let a = 2 * x as i64 - 100;
            let b = 2 * y as i64 - 100;
            if a * a + b * b > 986 {
                assert_eq!(u[y * 100 + x], 0);
            } else {
                assert!(u[y * 100 + x] > 0);
            }
        }
    }
}

#[test]
fn the_standing_wave_is_a_cosine_of_the_column() {
    let (u, v) = Field2D::standing(300, 3);
    assert_eq!(v, vec![0; 900]);
    for y in 0..3 {
        for x in 0..300 {
            let expected = 255.0 * (x as f64 / 64.0 * std::f64::consts::PI).cos();
            let got = as_real(u[y * 300 + x]);
            assert!((got - expected).abs() < 1e-6, "column {x}: {got} and {expected}");
            assert_eq!(u[y * 300 + x], u[x]);
            assert_eq!(u[x], standing_sample(x));
        }
    }
}

#[test]
fn the_standing_wave_at_its_crests_troughs_and_nodes() {
    assert_eq!(standing_sample(0), AMPLITUDE * ONE);
    assert_eq!(standing_sample(64), -AMPLITUDE * ONE);
    assert_eq!(standing_sample(128), AMPLITUDE * ONE);
    assert_eq!(standing_sample(192), -AMPLITUDE * ONE);
    assert_eq!(standing_sample(1_000_000 * 128), AMPLITUDE * ONE);
    for node in [32usize, 96, 160] {
        assert!(standing_sample(node).abs() <= 255 * 2, "{}", standing_sample(node));
    }
    for x in 0..64usize {
        assert_eq!(standing_sample(x), standing_sample(128 - x));
        assert_eq!(standing_sample(x), standing_sample(x + 128));
        if x != 32 {
            assert_eq!(standing_sample(x), -standing_sample(64 - x));
        }
    }
    assert_eq!(standing_sample(usize::MAX), standing_sample(usize::MAX % 128));
}

#[test]
fn angle_square_is_the_square_of_a_part_of_a_half_turn() {
    assert_eq!(angle_square_of(0, 64), 0);
    assert_eq!(angle_square_of(32, 64), QUARTER_TURN_SQUARED);
    assert_eq!(angle_square_of(20, 40), QUARTER_TURN_SQUARED);
    assert_eq!(angle_square_of(1, 64), 42389628127 / 4096);
    assert_eq!(angle_square_of(3, 40), 9 * 42389628127 / 1600);
    assert_eq!(angle_square_of(512, 1024), QUARTER_TURN_SQUARED);
    let real = as_real(angle_square_of(7, 64));
    let expected = (7.0 * std::f64::consts::PI / 64.0).powi(2);
    assert!((real - expected).abs() < 1e-9);
}

#[test]
fn new_fills_the_field_from_the_preset() {
    for vectorized in [false, true] {
        let field = Field2D::new(20, 11, Generator::RadialPulse, vectorized).unwrap();
        assert_eq!(field.values(), Field2D::pixels_centered(20, 11).0);
        let field = Field2D::new(20, 11, Generator::StandingWave, vectorized).unwrap();
        assert_eq!(field.values(), Field2D::standing(20, 11).0);
        assert_eq!(field.dimensions(), (20, 11));
        for y in 0..11 {
            for x in 0..20 {
                assert_eq!(field.sample_velocity(x, y), Ok(0));
                assert_eq!(field.sample(x, y), Ok(standing_sample(x as usize)));
            }
        }
    }
}
