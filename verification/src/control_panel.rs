//! The panel that shows whether the game is running.
use crate::game::GameState;
use vstd::prelude::*;

verus! {

pub struct ControlPanel {}

impl ControlPanel {
    pub fn new() -> (panel: Self)
        ensures
            panel == (ControlPanel {  }),
    {
        Self {  }
    }

    /// The text that the panel shows for a state of the game.
    pub fn label(state: GameState) -> (text: &'static str)
        ensures
            text@ == (match state {
                GameState::Running => "Running"@,
                GameState::Paused => "Paused"@,
            }),
    {
        match state {
            GameState::Running => "Running",
            GameState::Paused => "Paused",
        }
    }
}

} // verus!
