//! Decisions of the interactive loop: what a key press does to the game, and
//! when the loop ends.
use vstd::prelude::*;

use crate::direction::Direction;
use crate::game::{Game, GameMode, GameView, Outcome};

verus! {

/// What one pass of the loop tells its driver.
#[derive(Clone, Copy, Debug, PartialEq, Eq, Structural)]
pub enum GameLoopSignal {
    /// The player quit.
    Exit,
    /// The run has ended.
    GameOver,
    /// Keep going.
    Continue,
}

/// A key press, as far as the game tells keys apart.
#[derive(Clone, Copy, Debug, PartialEq, Eq, Structural)]
pub enum Key {
    Up,
    Down,
    Left,
    Right,
    Esc,
    Char(char),
    Other,
}

/// The heading a key asks for: the arrow keys, `k`/`j`/`h`/`l` and
/// `w`/`s`/`a`/`d`.
pub open spec fn key_heading(key: Key) -> Option<Direction> {
    match key {
        Key::Up | Key::Char('k') | Key::Char('w') => Some(Direction::Up),
        Key::Down | Key::Char('j') | Key::Char('s') => Some(Direction::Down),
        Key::Left | Key::Char('h') | Key::Char('a') => Some(Direction::Left),
        Key::Right | Key::Char('l') | Key::Char('d') => Some(Direction::Right),
        _ => None,
    }
}

/// Whether a key quits from the pause screen: `q` or `x`.
pub open spec fn is_quit_key(key: Key) -> bool {
    key == Key::Char('q') || key == Key::Char('x')
}

/// The heading a key asks for, if any.
pub fn key_direction(key: Key) -> (r: Option<Direction>)
    ensures
        r == key_heading(key),
{
    match key {
        Key::Up | Key::Char('k') | Key::Char('w') => Some(Direction::Up),
        Key::Down | Key::Char('j') | Key::Char('s') => Some(Direction::Down),
        Key::Left | Key::Char('h') | Key::Char('a') => Some(Direction::Left),
        Key::Right | Key::Char('l') | Key::Char('d') => Some(Direction::Right),
        _ => None,
    }
}

/// A step that failed ends the run.
pub fn outcome_signal(outcome: Outcome) -> (r: GameLoopSignal)
    ensures
        r == if outcome == Outcome::Continue {
            GameLoopSignal::Continue
        } else {
            GameLoopSignal::GameOver
        },
{
    match outcome {
        Outcome::Continue => GameLoopSignal::Continue,
        _ => GameLoopSignal::GameOver,
    }
}

/// A key pressed while playing: a heading key requests that turn, Esc
/// pauses, any other key does nothing.
pub fn on_game_key(game: &mut Game, key: Key)
    ensures
        final(game)@ == match key_heading(key) {
            Some(d) => GameView {
                pending: if d.orthogonal(old(game)@.direction) {
                    Some(d)
                } else {
                    old(game)@.pending
                },
                ..old(game)@
            },
            None => if key == Key::Esc {
                GameView { mode: GameMode::Pause, ..old(game)@ }
            } else {
                old(game)@
            },
        },
{
    match key_direction(key) {
        Some(direction) => game.change_direction(direction),
        None => {
            if key == Key::Esc {
                game.pause_game();
            }
        },
    }
}

/// A key pressed on the pause screen: `q` or `x` quits, Esc resumes, any
/// other key does nothing.
pub fn on_pause_key(game: &mut Game, key: Key) -> (r: GameLoopSignal)
    ensures
        r == if is_quit_key(key) {
            GameLoopSignal::Exit
        } else {
            GameLoopSignal::Continue
        },
        final(game)@ == if key == Key::Esc {
            GameView { mode: GameMode::Game, ..old(game)@ }
        } else {
            old(game)@
        },
{
    match key {
        Key::Char('q') | Key::Char('x') => GameLoopSignal::Exit,
        Key::Esc => {
            game.unpause_game();
            GameLoopSignal::Continue
        },
        _ => GameLoopSignal::Continue,
    }
}

} // verus!
