//! The screens of the game, and the layers on which they are drawn.

use vstd::prelude::*;

verus! {

/// The screens of the game. Exactly one of them is current at any time.
#[derive(Debug, Clone, Copy, PartialEq, Eq, Hash, Structural)]
pub enum AppState {
    MainMenu,
    InGame,
    PauseScreen,
    Settings,
    DialogWindow,
}

/// The drawing layers of the screens, from the bottom up.
#[derive(Debug, Clone, Copy, PartialEq, Eq, Structural)]
pub enum Stacking {
    InGame,
    DialogWindow,
    PauseScreen,
    Settings,
    MainMenu,
}

impl Stacking {
    /// The depth at which a layer is drawn.
    pub open spec fn depth(self) -> int {
        match self {
            Stacking::InGame => 0,
            Stacking::DialogWindow => 1,
            Stacking::PauseScreen => 2,
            Stacking::MainMenu => 3,
            Stacking::Settings => 4,
        }
    }

    /// The depth of a layer: a screen is drawn over the screens of smaller
    /// depth.
    pub fn sorting(self) -> (z: u8)
        ensures
            z == self.depth(),
    {
        match self {
            Stacking::InGame => 0,
            Stacking::DialogWindow => 1,
            Stacking::PauseScreen => 2,
            Stacking::MainMenu => 3,
            Stacking::Settings => 4,
        }
    }
}

/// The screen that the pause key of the two-screen game switches to: the
/// game and the pause screen take each other's place, and on every other
/// screen the key does nothing.
pub open spec fn pause_toggle(current: AppState) -> Option<AppState> {
    match current {
        AppState::InGame => Some(AppState::PauseScreen),
        AppState::PauseScreen => Some(AppState::InGame),
        _ => None,
    }
}

/// The pause key of the two-screen game.
pub fn pause_screen_watch(current: AppState) -> (next: Option<AppState>)
    ensures
        next == pause_toggle(current),
{
    match current {
        AppState::InGame => Some(AppState::PauseScreen),
        AppState::PauseScreen => Some(AppState::InGame),
        _ => None,
    }
}

} // verus!
