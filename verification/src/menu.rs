//! The main menu: which screen is shown, what its buttons do and how they
//! look.

use vstd::prelude::*;

use crate::MainGameState;

verus! {

/// Which menu screen is shown.
#[derive(Clone, Copy, Debug, PartialEq, Eq, Hash, Structural)]
pub enum MenuState {
    /// The main menu.
    Main,
    /// No menu: the game is running.
    Disabled,
}

impl Default for MenuState {
    fn default() -> (r: MenuState)
        ensures
            r == MenuState::Disabled,
    {
        MenuState::Disabled
    }
}

/// What a menu button does.
#[derive(Clone, Copy, Debug, PartialEq, Eq, Structural)]
pub enum MenuButtonAction {
    /// Start the game.
    Play,
    /// Leave the program.
    Quit,
}

/// What the pointer does to a button.
#[derive(Clone, Copy, Debug, PartialEq, Eq, Structural)]
pub enum Pointing {
    /// The button is held down.
    Pressed,
    /// The pointer rests on the button.
    Hovered,
    /// The pointer is elsewhere.
    Away,
}

/// How a button is drawn.
#[derive(Clone, Copy, Debug, PartialEq, Eq, Structural)]
pub enum ButtonShade {
    Normal,
    Hovered,
    HoveredPressed,
    Pressed,
}

/// What follows from a change on a menu button.
#[derive(Clone, Copy, Debug, PartialEq, Eq, Structural)]
pub enum MenuCommand {
    /// Nothing happens.
    Stay,
    /// The program ends.
    Exit,
    /// The screens change to the given states.
    Enter(MainGameState, MenuState),
}

/// The shade of a button under the pointer: a button that is held down, or
/// selected with the pointer away, is shown pressed; a selected button under
/// the pointer has a shade of its own.
pub open spec fn shade_of(pointing: Pointing, selected: bool) -> ButtonShade {
    match (pointing, selected) {
        (Pointing::Pressed, _) => ButtonShade::Pressed,
        (Pointing::Away, true) => ButtonShade::Pressed,
        (Pointing::Hovered, true) => ButtonShade::HoveredPressed,
        (Pointing::Hovered, false) => ButtonShade::Hovered,
        (Pointing::Away, false) => ButtonShade::Normal,
    }
}

/// What a button does when the pointer's relation to it changes: only a
/// press does anything.  Pressing Quit ends the program; pressing Play
/// starts the game and puts the menu away.
pub open spec fn command_of(pointing: Pointing, action: MenuButtonAction) -> MenuCommand {
    if pointing == Pointing::Pressed {
        match action {
            MenuButtonAction::Quit => MenuCommand::Exit,
            MenuButtonAction::Play => MenuCommand::Enter(MainGameState::Game, MenuState::Disabled),
        }
    } else {
        MenuCommand::Stay
    }
}

/// Chooses the shade of a button.
pub fn button_system(pointing: Pointing, selected: bool) -> (shade: ButtonShade)
    ensures
        shade == shade_of(pointing, selected),
{
    match pointing {
        Pointing::Pressed => ButtonShade::Pressed,
        Pointing::Hovered => if selected {
            ButtonShade::HoveredPressed
        } else {
            ButtonShade::Hovered
        },
        Pointing::Away => if selected {
            ButtonShade::Pressed
        } else {
            ButtonShade::Normal
        },
    }
}

/// Decides what a change on a menu button leads to.
pub fn menu_action(pointing: Pointing, action: MenuButtonAction) -> (command: MenuCommand)
    ensures
        command == command_of(pointing, action),
{
    match pointing {
        Pointing::Pressed => match action {
            MenuButtonAction::Quit => MenuCommand::Exit,
            MenuButtonAction::Play => MenuCommand::Enter(MainGameState::Game, MenuState::Disabled),
        },
        _ => MenuCommand::Stay,
    }
}

} // verus!
