use wave_field::field::field1d::Field1D;
use wave_field::field::field2d::Field2D;
use wave_field::field::generator::Generator;
use wave_field::field::Field;
use wave_field::game::{AnyField, FieldType, Game, GameState, Keys, UPDATES_PER_FRAME};

const NONE: Keys = Keys { escape: false, space: false, r: false, t: false, period: false };

fn displacements(field: &AnyField) -> Vec<i64> {
    let (width, height) = field.dimensions();
    let mut all = Vec::new();
    for y in 0..height {
        for x in 0..width {
            all.push(field.sample(x as i64, y as i64).unwrap());
        }
    }
    all
}

fn standing(ticks: usize, vectorized: bool) -> Vec<i64> {
    let mut field = Field2D::new(256, 3, Generator::StandingWave, vectorized).unwrap();
    for _ in 0..ticks {
        field.step();
    }
    field.values()
}

fn is_vectorized(game: &Game) -> bool {
    match &game.field {
        AnyField::Plane(field) => field.vectorized(),
        AnyField::Line(_) => panic!("a row has one strategy only"),
    }
}

#[test]
fn a_new_game_is_paused_with_a_fresh_field() {
    let game = Game::new(FieldType::Field2D);
    assert_eq!(game.state, GameState::Paused);
    assert_eq!(game.field_type, FieldType::Field2D);
    assert_eq!(game.step, 0);
    assert!(!game.just_updated);
    assert_eq!(game.field.dimensions(), (256, 3));
    assert_eq!(displacements(&game.field), standing(0, false));
    assert!(!is_vectorized(&game));

    let game = Game::new(FieldType::Field1D);
    assert_eq!(game.field_type, FieldType::Field1D);
    assert_eq!(game.field.dimensions(), (256, 1));
    let row: Vec<i64> = Field1D::pixels_at_end().iter().map(|p| p.u).collect();
    assert_eq!(displacements(&game.field), row);
}

#[test]
fn init_field_gives_the_kind_and_the_strategy_asked_for() {
    for vectorized in [false, true] {
        match Game::init_field(FieldType::Field2D, vectorized) {
            AnyField::Plane(field) => {
                assert_eq!(field.vectorized(), vectorized);
                assert_eq!(field.dimensions(), (256, 3));
            }
            AnyField::Line(_) => panic!("asked for a plane"),
        }
        assert!(matches!(Game::init_field(FieldType::Field1D, vectorized), AnyField::Line(_)));
    }
}

#[test]
fn a_paused_game_stands_still() {
    let mut game = Game::new(FieldType::Field2D);
    for _ in 0..5 {
        assert!(!game.update(NONE));
        assert_eq!(game.state, GameState::Paused);
        assert_eq!(game.step, 0);
        assert!(!game.just_updated);
        assert_eq!(displacements(&game.field), standing(0, false));
    }
}

#[test]
fn period_advances_a_paused_game_by_one_frame() {
    let mut game = Game::new(FieldType::Field2D);
    assert!(!game.update(Keys { period: true, ..NONE }));
    assert_eq!(game.state, GameState::Paused);
    assert_eq!(game.step, UPDATES_PER_FRAME as i32);
    assert_eq!(game.step, 1);
    assert!(game.just_updated);
    assert_eq!(displacements(&game.field), standing(1, false));
    game.update(NONE);
    assert_eq!(game.step, 1);
    assert!(!game.just_updated);
    assert_eq!(displacements(&game.field), standing(1, false));
}

#[test]
fn space_toggles_and_takes_effect_in_the_same_frame() {
    let mut game = Game::new(FieldType::Field2D);
    game.update(Keys { space: true, ..NONE });
    assert_eq!(game.state, GameState::Running);
    assert_eq!(game.step, 1);
    assert!(game.just_updated);
    game.update(NONE);
    game.update(NONE);
    assert_eq!(game.step, 3);
    assert_eq!(displacements(&game.field), standing(3, false));
    game.update(Keys { space: true, ..NONE });
    assert_eq!(game.state, GameState::Paused);
    assert_eq!(game.step, 3);
    assert!(!game.just_updated);
    // A paused game that is toggled and stepped at once runs one frame only.
    game.update(Keys { space: true, period: true, ..NONE });
    assert_eq!(game.state, GameState::Running);
    assert_eq!(game.step, 4);
}

#[test]
fn r_and_t_start_the_field_over() {
    let mut game = Game::new(FieldType::Field2D);
    game.update(Keys { space: true, ..NONE });
    game.update(NONE);
    assert_eq!(game.step, 2);
    game.update(Keys { t: true, ..NONE });
    assert!(is_vectorized(&game));
    // The count of ticks goes on, and the fresh field advances in the frame.
    assert_eq!(game.step, 3);
    assert_eq!(displacements(&game.field), standing(1, true));
    game.update(Keys { r: true, space: true, ..NONE });
    assert!(!is_vectorized(&game));
    assert_eq!(game.state, GameState::Paused);
    assert_eq!(game.step, 3);
    assert_eq!(displacements(&game.field), standing(0, false));
    // `r` goes before `t`.
    game.update(Keys { r: true, t: true, ..NONE });
    assert!(!is_vectorized(&game));
    assert_eq!(game.field_type, FieldType::Field2D);
}

#[test]
fn escape_asks_to_end_and_the_frame_is_carried_out() {
    let mut game = Game::new(FieldType::Field1D);
    assert!(game.update(Keys { escape: true, period: true, ..NONE }));
    assert_eq!(game.step, 1);
    assert!(game.just_updated);
    let mut row = Field1D::new();
    row.step();
    let expected: Vec<i64> = (0..256).map(|x| row.sample(x, 0).unwrap()).collect();
    assert_eq!(displacements(&game.field), expected);
    assert!(!game.update(NONE));
}

#[test]
fn a_row_game_starts_over_as_a_row() {
    let mut game = Game::new(FieldType::Field1D);
    game.update(Keys { period: true, ..NONE });
    game.update(Keys { t: true, ..NONE });
    assert!(matches!(game.field, AnyField::Line(_)));
    let row: Vec<i64> = Field1D::pixels_at_end().iter().map(|p| p.u).collect();
    assert_eq!(displacements(&game.field), row);
}
