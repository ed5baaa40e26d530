//! The states that the whole game is in.

use vstd::prelude::*;

verus! {

/// Where the game stands: at the start menu, or in a game.
#[derive(Debug, Clone, Copy, PartialEq, Eq, Hash, Structural)]
pub enum GlobalGameStates {
    StartMenu,
    InGame,
}

impl GlobalGameStates {
    /// The state that the game starts in, given how many arguments the
    /// command line holds, the program's name among them: with options on
    /// the command line the game starts right away, without them it starts
    /// at the menu.
    pub open spec fn started_with(arguments: nat) -> GlobalGameStates {
        if arguments > 1 {
            GlobalGameStates::InGame
        } else {
            GlobalGameStates::StartMenu
        }
    }

    /// The state that the game starts in, given how many arguments the
    /// command line holds.
    pub fn initial(arguments: usize) -> (state: GlobalGameStates)
        ensures
            state == GlobalGameStates::started_with(arguments as nat),
    {
        if arguments > 1 {
            GlobalGameStates::InGame
        } else {
            GlobalGameStates::StartMenu
        }
    }
}

impl Default for GlobalGameStates {
    fn default() -> (state: GlobalGameStates)
        ensures
            state == GlobalGameStates::StartMenu,
    {
        GlobalGameStates::StartMenu
    }
}

} // verus!
