use wave_field::field::field1d::Field1D;
use wave_field::field::field2d::Field2D;
use wave_field::field::render::{color, graph_point, Rgba};
use wave_field::fixed::ONE;

fn rgba(red: u8, green: u8) -> Rgba {
    Rgba { red, green, blue: 0, alpha: 255 }
}

#[test]
fn crests_are_red_and_troughs_are_green() {
    assert_eq!(color(0), rgba(0, 0));
    assert_eq!(color(100 * ONE), rgba(100, 0));
    assert_eq!(color(-100 * ONE), rgba(0, 100));
    assert_eq!(color(255 * ONE), rgba(255, 0));
    assert_eq!(color(-255 * ONE), rgba(0, 255));
}

#[test]
fn a_channel_is_the_whole_part_held_to_a_byte() {
    assert_eq!(color(ONE - 1), rgba(0, 0));
    assert_eq!(color(-ONE + 1), rgba(0, 0));
    assert_eq!(color(ONE), rgba(1, 0));
    assert_eq!(color(2 * ONE - 1), rgba(1, 0));
    assert_eq!(color(-2 * ONE + 1), rgba(0, 1));
    assert_eq!(color(256 * ONE), rgba(255, 0));
    assert_eq!(color(-256 * ONE), rgba(0, 255));
    assert_eq!(color(i64::MAX), rgba(255, 0));
    assert_eq!(color(i64::MIN), rgba(0, 255));
}

#[test]
fn the_colour_grows_with_the_displacement() {
    let mut before = color(-300 * ONE);
    for k in -3000..3000i64 {
        let now = color(k * ONE / 10);
        assert!(now.red >= before.red);
        assert!(now.green <= before.green);
        before = now;
    }
}

#[test]
fn the_graph_puts_zero_on_row_64() {
    assert_eq!(graph_point(0), 64);
    assert_eq!(graph_point(41 * ONE), 74);
    assert_eq!(graph_point(-41 * ONE), 54);
    // 255 / 4.1 = 62.19...
    assert_eq!(graph_point(255 * ONE), 126);
    assert_eq!(graph_point(-255 * ONE), 1);
    assert_eq!(graph_point(4 * ONE), 64);
    assert_eq!(graph_point(5 * ONE), 65);
}

#[test]
fn the_graph_ends_at_row_zero_and_at_the_largest_row() {
    // -64 · 4.1 = -262.4
    assert_eq!(graph_point(-262 * ONE), 0);
    assert_eq!(graph_point(-263 * ONE), 0);
    assert_eq!(graph_point(-1000 * ONE), 0);
    assert_eq!(graph_point(i64::MIN), 0);
    // The largest sample is just under 2³¹; a tenth of it lies far below the
    // largest row.
    let scaled = i64::MAX as i128 * 10 / 41 + 64 * ONE as i128;
    assert_eq!(graph_point(i64::MAX), (scaled >> 32) as u32);
}

#[test]
fn the_picture_has_the_colour_of_every_cell() {
    let field = Field2D::from_fn(
        4,
        3,
        |x, y| (x as i64 - 1) * 50 * ONE + y as i64 * ONE,
        |_, _| 0,
        false,
    )
    .unwrap();
    let picture = field.colors();
    assert_eq!(picture.len(), 12);
    for y in 0..3 {
        assert_eq!(picture[4 * y], rgba(0, 50 - y as u8));
        assert_eq!(picture[4 * y + 1], rgba(y as u8, 0));
        assert_eq!(picture[4 * y + 2], rgba(50 + y as u8, 0));
        assert_eq!(picture[4 * y + 3], rgba(100 + y as u8, 0));
    }
}

#[test]
fn the_graph_follows_the_middle_row() {
    let field =
        Field2D::from_fn(5, 7, |x, y| (y * 41 + x * 41 * 10) as i64 * ONE, |_, _| 0, true)
            .unwrap();
    // The middle row of seven is row 3.
    assert_eq!(field.graph(), vec![64 + 30, 64 + 130, 64 + 230, 64 + 330, 64 + 430]);
    let field = Field2D::from_fn(3, 4, |_, y| -(y as i64) * 41 * ONE, |_, _| 0, true).unwrap();
    assert_eq!(field.graph(), vec![44, 44, 44]);
}

#[test]
fn the_row_has_the_colour_of_every_cell() {
    let picture = Field1D::centered().colors();
    assert_eq!(picture.len(), 256);
    assert_eq!(picture[119], rgba(0, 0));
    assert_eq!(picture[120], rgba(255, 0));
    assert_eq!(picture[135], rgba(255, 0));
    assert_eq!(picture[136], rgba(0, 0));
    let picture = Field1D::new().colors();
    assert_eq!(picture[0], rgba(255, 0));
    assert_eq!(picture[10], rgba(180, 0));
    assert_eq!(picture[19], rgba(20, 0));
    assert_eq!(picture[20], rgba(0, 0));
}
