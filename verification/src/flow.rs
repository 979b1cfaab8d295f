//! Which screen comes next, and what a key means on each screen.
//!
//! The program shows a start screen, the game, a menu over the game, and a
//! screen of victory. Here are the decisions; reading keys and drawing
//! screens is left to the caller.

use crate::game_state::GameMode;
use crate::turn::{CardsActionOutcome, CursorAction, MoveError};
use vstd::prelude::*;

verus! {

/// A key as the terminal reports it, as far as the program tells keys
/// apart.
#[derive(Debug, Copy, Clone, PartialEq, Eq, Structural)]
pub enum KeyPress {
    Left,
    Right,
    Up,
    Down,
    Home,
    End,
    Esc,
    Char(char),
    Ctrl(char),
    Other,
}

/// The screens of the program, and the steps between them.
#[derive(Debug, Copy, Clone, PartialEq, Eq, Structural)]
pub enum UiState {
    StartScreen,
    NewGame(GameMode),
    RestartGame,
    Game,
    Victory,
    Quit,
}

/// What a key asks for while the game is shown.
#[derive(Debug, Copy, Clone, PartialEq, Eq, Structural)]
pub enum GameCommand {
    /// Move the cursor or change its selection.
    Cursor(CursorAction),
    /// Pick up the selected cards, or put down those picked up.
    CardsAction,
    /// Draw, or send a card to its foundation.
    EnterAction,
    /// Pick up or put down without asking the rules.
    UncheckedCardsAction,
    /// Forget what was picked up.
    ClearSelection,
    /// Say whether the rules allow the move at hand.
    CheckValid,
    /// Switch the debug mode on or off.
    ToggleDebug,
    /// Show the help.
    Help,
    /// Show the menu.
    Menu,
    /// Leave the program.
    Quit,
    /// The key means nothing here.
    Nothing,
}

/// What a key asks for while the menu is shown.
#[derive(Debug, Copy, Clone, PartialEq, Eq, Structural)]
pub enum MenuChoice {
    /// Leave the game for another screen.
    Leave(UiState),
    /// Go on with the game.
    Resume,
    /// The key means nothing here.
    Stay,
}

/// The screen that a key on the start screen leads to, if any: `1` and
/// `3` start a game that draws so many cards, Esc and Ctrl+c quit.
pub open spec fn spec_start_screen_key(key: KeyPress) -> Option<UiState> {
    match key {
        KeyPress::Char('1') => Some(UiState::NewGame(GameMode::DrawOne)),
        KeyPress::Char('3') => Some(UiState::NewGame(GameMode::DrawThree)),
        KeyPress::Esc => Some(UiState::Quit),
        KeyPress::Ctrl('c') => Some(UiState::Quit),
        _ => None,
    }
}

pub fn start_screen_key(key: KeyPress) -> (next: Option<UiState>)
    ensures
        next == spec_start_screen_key(key),
{
    match key {
        KeyPress::Char(c) => {
            if c == '1' {
                Some(UiState::NewGame(GameMode::DrawOne))
            } else if c == '3' {
                Some(UiState::NewGame(GameMode::DrawThree))
            } else {
                None
            }
        },
        KeyPress::Esc => Some(UiState::Quit),
        KeyPress::Ctrl(c) => {
            if c == 'c' {
                Some(UiState::Quit)
            } else {
                None
            }
        },
        _ => None,
    }
}

/// What a key in the menu asks for: `1` and `3` start a new game, `r`
/// starts the current game again, `q` and Ctrl+c quit, Esc goes on with
/// the game.
pub open spec fn spec_game_menu_key(key: KeyPress) -> MenuChoice {
    match key {
        KeyPress::Char('1') => MenuChoice::Leave(UiState::NewGame(GameMode::DrawOne)),
        KeyPress::Char('3') => MenuChoice::Leave(UiState::NewGame(GameMode::DrawThree)),
        KeyPress::Char('r') => MenuChoice::Leave(UiState::RestartGame),
        KeyPress::Char('q') => MenuChoice::Leave(UiState::Quit),
        KeyPress::Ctrl('c') => MenuChoice::Leave(UiState::Quit),
        KeyPress::Esc => MenuChoice::Resume,
        _ => MenuChoice::Stay,
    }
}

pub fn game_menu_key(key: KeyPress) -> (choice: MenuChoice)
    ensures
        choice == spec_game_menu_key(key),
{
    match key {
        KeyPress::Char(c) => {
            if c == '1' {
                MenuChoice::Leave(UiState::NewGame(GameMode::DrawOne))
            } else if c == '3' {
                MenuChoice::Leave(UiState::NewGame(GameMode::DrawThree))
            } else if c == 'r' {
                MenuChoice::Leave(UiState::RestartGame)
            } else if c == 'q' {
                MenuChoice::Leave(UiState::Quit)
            } else {
                MenuChoice::Stay
            }
        },
        KeyPress::Ctrl(c) => {
            if c == 'c' {
                MenuChoice::Leave(UiState::Quit)
            } else {
                MenuChoice::Stay
            }
        },
        KeyPress::Esc => MenuChoice::Resume,
        _ => MenuChoice::Stay,
    }
}

/// The screen that a key on the screen of victory leads to, if any: `y`
/// starts a new game in the mode of the game just won, `n`, Esc and
/// Ctrl+c quit.
pub open spec fn spec_victory_key(key: KeyPress, game_mode: GameMode) -> Option<UiState> {
    match key {
        KeyPress::Char('y') => Some(UiState::NewGame(game_mode)),
        KeyPress::Char('n') => Some(UiState::Quit),
        KeyPress::Esc => Some(UiState::Quit),
        KeyPress::Ctrl('c') => Some(UiState::Quit),
        _ => None,
    }
}

pub fn victory_key(key: KeyPress, game_mode: GameMode) -> (next: Option<UiState>)
    ensures
        next == spec_victory_key(key, game_mode),
{
    match key {
        KeyPress::Char(c) => {
            if c == 'y' {
                Some(UiState::NewGame(game_mode))
            } else if c == 'n' {
                Some(UiState::Quit)
            } else {
                None
            }
        },
        KeyPress::Esc => Some(UiState::Quit),
        KeyPress::Ctrl(c) => {
            if c == 'c' {
                Some(UiState::Quit)
            } else {
                None
            }
        },
        _ => None,
    }
}

/// What a key asks for while the game is shown. The keys `c` and `z`
/// mean something in debug mode only.
pub open spec fn spec_game_key(key: KeyPress, debug_mode: bool) -> GameCommand {
    match key {
        KeyPress::Left => GameCommand::Cursor(CursorAction::MoveLeft),
        KeyPress::Right => GameCommand::Cursor(CursorAction::MoveRight),
        KeyPress::Up => GameCommand::Cursor(CursorAction::ExtendUp),
        KeyPress::Down => GameCommand::Cursor(CursorAction::ExtendDown),
        KeyPress::Home => GameCommand::Cursor(CursorAction::JumpToDeck),
        KeyPress::End => GameCommand::Cursor(CursorAction::JumpToLastPile),
        KeyPress::Char(' ') => GameCommand::CardsAction,
        KeyPress::Char('\n') => GameCommand::EnterAction,
        KeyPress::Char('c') => if debug_mode {
            GameCommand::UncheckedCardsAction
        } else {
            GameCommand::Nothing
        },
        KeyPress::Char('x') => GameCommand::ClearSelection,
        KeyPress::Char('z') => if debug_mode {
            GameCommand::CheckValid
        } else {
            GameCommand::Nothing
        },
        KeyPress::Char('d') => GameCommand::ToggleDebug,
        KeyPress::Char('h') => GameCommand::Help,
        KeyPress::Esc => GameCommand::Menu,
        KeyPress::Ctrl('c') => GameCommand::Quit,
        _ => GameCommand::Nothing,
    }
}

pub fn game_key(key: KeyPress, debug_mode: bool) -> (command: GameCommand)
    ensures
        command == spec_game_key(key, debug_mode),
{
    match key {
        KeyPress::Left => GameCommand::Cursor(CursorAction::MoveLeft),
        KeyPress::Right => GameCommand::Cursor(CursorAction::MoveRight),
        KeyPress::Up => GameCommand::Cursor(CursorAction::ExtendUp),
        KeyPress::Down => GameCommand::Cursor(CursorAction::ExtendDown),
        KeyPress::Home => GameCommand::Cursor(CursorAction::JumpToDeck),
        KeyPress::End => GameCommand::Cursor(CursorAction::JumpToLastPile),
        KeyPress::Char(c) => {
            if c == ' ' {
                GameCommand::CardsAction
            } else if c == '\n' {
                GameCommand::EnterAction
            } else if c == 'c' && debug_mode {
                GameCommand::UncheckedCardsAction
            } else if c == 'x' {
                GameCommand::ClearSelection
            } else if c == 'z' && debug_mode {
                GameCommand::CheckValid
            } else if c == 'd' {
                GameCommand::ToggleDebug
            } else if c == 'h' {
                GameCommand::Help
            } else {
                GameCommand::Nothing
            }
        },
        KeyPress::Esc => GameCommand::Menu,
        KeyPress::Ctrl(c) => {
            if c == 'c' {
                GameCommand::Quit
            } else {
                GameCommand::Nothing
            }
        },
        KeyPress::Other => GameCommand::Nothing,
    }
}

/// What is said of an attempt to move cards, where anything is said.
pub open spec fn spec_move_message(outcome: CardsActionOutcome) -> Option<Seq<char>> {
    match outcome {
        CardsActionOutcome::Moved => Some("move OK"@),
        CardsActionOutcome::Rejected(MoveError::CollectionTransferFailed) => Some(
            "move attempt failed"@,
        ),
        CardsActionOutcome::Rejected(MoveError::InvalidMove) => Some("invalid move"@),
        _ => None,
    }
}

/// The words for the outcome of an attempt to move cards. Picking cards
/// up goes without words.
pub fn move_message(outcome: CardsActionOutcome) -> (message: Option<&'static str>)
    ensures
        match spec_move_message(outcome) {
            Some(text) => message matches Some(m) && m@ == text,
            None => message is None,
        },
{
    match outcome {
        CardsActionOutcome::Moved => Some("move OK"),
        CardsActionOutcome::Rejected(MoveError::CollectionTransferFailed) => Some(
            "move attempt failed",
        ),
        CardsActionOutcome::Rejected(MoveError::InvalidMove) => Some("invalid move"),
        _ => None,
    }
}

} // verus!
