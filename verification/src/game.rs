//! What one frame of the simulation decides: whether it runs, whether the
//! field starts over, and whether the field advances.
//!
//! The game reads no keyboard and no clock. Its caller hands it the keys that
//! were pressed in the frame and carries out what it returns.
use crate::field::field1d::{front_row, line_stepped, Field1D};
use crate::field::field2d::Field2D;
use crate::field::generator::Generator;
use crate::field::grid::Grid;
use crate::field::{Field, FieldError, Pixel};
use vstd::pervasive::unreached;
use vstd::prelude::*;

verus! {

/// The number of ticks by which a frame advances the field.
pub const UPDATES_PER_FRAME: u32 = 1;

/// The width of the two-dimensional field of a game.
pub const PLANE_WIDTH: usize = 256;

/// The height of the two-dimensional field of a game: one interior row
/// between two border rows.
pub const PLANE_HEIGHT: usize = 3;

#[derive(PartialEq, Eq, Structural, Clone, Copy, Debug)]
pub enum GameState {
    Running,
    Paused,
}

#[derive(PartialEq, Eq, Structural, Clone, Copy, Debug)]
pub enum FieldType {
    Field1D,
    Field2D,
}

/// The keys that were pressed in one frame.
#[derive(Clone, Copy, Debug)]
pub struct Keys {
    /// Ends the program.
    pub escape: bool,
    /// Pauses a running game and resumes a paused one.
    pub space: bool,
    /// Starts the field over, to be computed cell by cell.
    pub r: bool,
    /// Starts the field over, to be computed slice by slice.
    pub t: bool,
    /// Advances a paused game by one frame.
    pub period: bool,
}

/// A field of either kind.
#[derive(Debug)]
pub enum AnyField {
    Line(Field1D),
    Plane(Field2D),
}

/// What a field of either kind holds.
pub enum FieldView {
    Line(Seq<Pixel>),
    Plane(Grid, bool),
}

impl FieldView {
    /// The field one tick later.
    pub open spec fn stepped(self) -> FieldView {
        match self {
            FieldView::Line(row) => FieldView::Line(line_stepped(row)),
            FieldView::Plane(grid, vectorized) => FieldView::Plane(grid.stepped(), vectorized),
        }
    }

    /// The field `n` ticks later.
    pub open spec fn advanced(self, n: nat) -> FieldView
        decreases n,
    {
        if n == 0 {
            self
        } else {
            self.advanced((n - 1) as nat).stepped()
        }
    }

    /// The field with which a game of the given kind starts: a row with a
    /// wave front at its start, or a standing wave.
    pub open spec fn initial(field_type: FieldType, vectorized: bool) -> FieldView {
        match field_type {
            FieldType::Field1D => FieldView::Line(front_row()),
            FieldType::Field2D => FieldView::Plane(
                Generator::StandingWave.grid(PLANE_WIDTH as nat, PLANE_HEIGHT as nat),
                vectorized,
            ),
        }
    }
}

impl View for AnyField {
    type V = FieldView;

    open spec fn view(&self) -> FieldView {
        match self {
            AnyField::Line(field) => FieldView::Line(field@),
            AnyField::Plane(field) => FieldView::Plane(field@, field.is_vectorized()),
        }
    }
}

impl Field for AnyField {
    open spec fn extent(&self) -> (nat, nat) {
        match self {
            AnyField::Line(field) => field.extent(),
            AnyField::Plane(field) => field.extent(),
        }
    }

    open spec fn displacement(&self, x: int, y: int) -> i64 {
        match self {
            AnyField::Line(field) => field.displacement(x, y),
            AnyField::Plane(field) => field.displacement(x, y),
        }
    }

    fn step(&mut self)
        ensures
            final(self)@ == old(self)@.stepped(),
    {
        match self {
            AnyField::Line(field) => field.step(),
            AnyField::Plane(field) => field.step(),
        }
    }

    fn dimensions(&self) -> (d: (usize, usize)) {
        match self {
            AnyField::Line(field) => field.dimensions(),
            AnyField::Plane(field) => field.dimensions(),
        }
    }

    fn sample(&self, x: i64, y: i64) -> (r: Result<i64, FieldError>) {
        match self {
            AnyField::Line(field) => field.sample(x, y),
            AnyField::Plane(field) => field.sample(x, y),
        }
    }
}

/// The state that `space` leads to.
pub open spec fn toggled(state: GameState, space: bool) -> GameState {
    if space {
        match state {
            GameState::Running => GameState::Paused,
            GameState::Paused => GameState::Running,
        }
    } else {
        state
    }
}

/// The simulation: a field, and whether it is running.
#[derive(Debug)]
pub struct Game {
    pub field: AnyField,
    pub field_type: FieldType,
    pub state: GameState,
    /// The number of ticks that the game has made.
    pub step: i32,
    /// Whether the last frame advanced the field.
    pub just_updated: bool,
}

impl Game {
    /// Whether a frame with these keys advances the field: a running game
    /// always does, a paused one when `period` is pressed. `space` takes
    /// effect in the frame in which it is pressed.
    pub open spec fn advances(&self, keys: Keys) -> bool {
        toggled(self.state, keys.space) == GameState::Running || keys.period
    }

    /// The field from which a frame with these keys goes on: a fresh one if
    /// `r` or `t` is pressed, `r` before `t`, else the field as it is.
    pub open spec fn restarted(&self, keys: Keys) -> FieldView {
        if keys.r {
            FieldView::initial(self.field_type, false)
        } else if keys.t {
            FieldView::initial(self.field_type, true)
        } else {
            self.field@
        }
    }

    /// A paused game of the given kind, with a fresh field that is computed
    /// cell by cell.
    pub fn new(field_type: FieldType) -> (game: Game)
        ensures
            game.field@ == FieldView::initial(field_type, false),
            game.field_type == field_type,
            game.state == GameState::Paused,
            game.step == 0,
            !game.just_updated,
    {
        Game {
            field: Self::init_field(field_type, false),
            field_type,
            state: GameState::Paused,
            step: 0,
            just_updated: false,
        }
    }

    /// A fresh field of the given kind.
    pub fn init_field(field_type: FieldType, vectorized: bool) -> (field: AnyField)
        ensures
            field@ == FieldView::initial(field_type, vectorized),
    {
        match field_type {
            FieldType::Field1D => AnyField::Line(Field1D::new()),
            FieldType::Field2D => {
                match Field2D::new(PLANE_WIDTH, PLANE_HEIGHT, Generator::StandingWave, vectorized) {
                    Ok(field) => AnyField::Plane(field),
                    Err(_) => unreached(),
                }
            },
        }
    }

    /// One frame. `space` toggles between running and paused; `r` and `t`
    /// start the field over; the field then advances if the game runs or
    /// `period` is pressed. Returns whether the program is to end, which is
    /// when `escape` is pressed; the frame is carried out all the same.
    pub fn update(&mut self, keys: Keys) -> (quit: bool)
        requires
            old(self).step <= i32::MAX - UPDATES_PER_FRAME,
        ensures
            quit == keys.escape,
            final(self).field_type == old(self).field_type,
            final(self).state == toggled(old(self).state, keys.space),
            final(self).just_updated == old(self).advances(keys),
            final(self).field@ == if old(self).advances(keys) {
                old(self).restarted(keys).advanced(UPDATES_PER_FRAME as nat)
            } else {
                old(self).restarted(keys)
            },
            final(self).step == if old(self).advances(keys) {
                old(self).step + UPDATES_PER_FRAME
            } else {
                old(self).step as int
            },
    {
        if keys.space {
            self.state = match self.state {
                GameState::Running => GameState::Paused,
                GameState::Paused => GameState::Running,
            };
        }
        if keys.r {
            self.field = Self::init_field(self.field_type, false);
        } else if keys.t {
            self.field = Self::init_field(self.field_type, true);
        }
        let should_update: bool = if self.state == GameState::Running {
            true
        } else if keys.period {
            true
        } else {
            false
        };
        if should_update {
            let ghost base = self.field@;
            let mut i: u32 = 0;
            while i < UPDATES_PER_FRAME
                invariant
                    i <= UPDATES_PER_FRAME,
                    self.field@ == base.advanced(i as nat),
                    self.step == old(self).step + i,
                    old(self).step <= i32::MAX - UPDATES_PER_FRAME,
                    self.field_type == old(self).field_type,
                    self.state == toggled(old(self).state, keys.space),
                decreases UPDATES_PER_FRAME - i,
            {
                self.field.step();
                self.step += 1;
                i += 1;
            }
        }
        self.just_updated = should_update;
        keys.escape
    }
}

} // verus!
