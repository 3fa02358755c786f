//! Layout of the game and pause screens in a terminal window.
use vstd::prelude::*;

use crate::game::Game;
use crate::geometry::Dimensions;

verus! {

/// Terminal window size as (rows, columns).
pub type WindowDimensions = (u16, u16);

/// Rows and columns taken around the menu text by its border and padding.
pub const MENU_FRAME: u16 = 6;

/// Whether the window holds the board with its walls and a margin: four more
/// rows and four more columns than the board.
pub fn is_window_big_enough(game: &Game, window_dim: WindowDimensions) -> (r: bool)
    ensures
        r == (window_dim.0 >= game@.dimensions.0 + 4 && window_dim.1 >= game@.dimensions.1 + 4),
{
    let dims = game.dimensions();
    window_dim.0 as u32 >= dims.0 as u32 + 4 && window_dim.1 as u32 >= dims.1 as u32 + 4
}

/// Top-left window cell of the walled board, centred in the window.
pub fn game_screen_starting_position(window_dim: WindowDimensions, board_dimensions: Dimensions) -> (r:
    (u16, u16))
    requires
        window_dim.0 >= board_dimensions.0 + 2,
        window_dim.1 >= board_dimensions.1 + 2,
    ensures
        r.0 == (window_dim.0 - board_dimensions.0 - 2) / 2,
        r.1 == (window_dim.1 - board_dimensions.1 - 2) / 2,
{
    ((window_dim.0 - (board_dimensions.0 + 2)) / 2, (window_dim.1 - (board_dimensions.1 + 2)) / 2)
}

/// Width of the widest line.
pub open spec fn widest(lines: Seq<String>) -> nat
    decreases lines.len(),
{
    if lines.len() == 0 {
        0
    } else {
        let rest = widest(lines.drop_last());
        let last = lines.last()@.len();
        if last > rest {
            last
        } else {
            rest
        }
    }
}

/// The text of the pause menu, one line each.
pub fn menu_lines() -> (r: Vec<String>)
    ensures
        r@.len() == 4,
        r@[0]@ == "PAUSED"@,
        r@[1]@ == ""@,
        r@[2]@ == "<esc> - Resume game"@,
        r@[3]@ == "<q>   - Quit game"@,
{
    let mut lines: Vec<String> = Vec::new();
    lines.push("PAUSED".to_string());
    lines.push("".to_string());
    lines.push("<esc> - Resume game".to_string());
    lines.push("<q>   - Quit game".to_string());
    lines
}

/// Rows and columns the menu takes: its lines, and its widest line, with the
/// frame around them.
pub fn menu_dimensions(menu_lines: &Vec<String>) -> (r: (u16, u16))
    requires
        menu_lines@.len() > 0,
        menu_lines@.len() + MENU_FRAME <= u16::MAX,
        forall|i: int| 0 <= i < menu_lines@.len() ==> #[trigger] menu_lines@[i]@.len() + MENU_FRAME <= u16::MAX,
    ensures
        r.0 == menu_lines@.len() + MENU_FRAME,
        r.1 == widest(menu_lines@) + MENU_FRAME,
{
    let mut width: usize = 0;
    let mut i: usize = 0;
    while i < menu_lines.len()
        invariant
            i <= menu_lines@.len(),
            width == widest(menu_lines@.take(i as int)),
            width + MENU_FRAME <= u16::MAX,
            forall|j: int| 0 <= j < menu_lines@.len() ==> #[trigger] menu_lines@[j]@.len() + MENU_FRAME <= u16::MAX,
        decreases menu_lines@.len() - i,
    {
        let len = menu_lines[i].unicode_len();
        assert(menu_lines@.take(i + 1).drop_last() =~= menu_lines@.take(i as int));
        if len > width {
            width = len;
        }
        i = i + 1;
    }
    assert(menu_lines@.take(i as int) =~= menu_lines@);
    (menu_lines.len() as u16 + MENU_FRAME, width as u16 + MENU_FRAME)
}

/// Top-left window cell of the menu, centred, or `None` when the window is
/// too small for it.
pub fn pause_menu_origin(window_dim: WindowDimensions, menu_dims: (u16, u16)) -> (r: Option<(u16, u16)>)
    ensures
        r == if window_dim.0 < menu_dims.0 || window_dim.1 < menu_dims.1 {
            None
        } else {
            Some((((window_dim.0 - menu_dims.0) / 2) as u16, ((window_dim.1 - menu_dims.1) / 2) as u16))
        },
{
    if window_dim.0 < menu_dims.0 || window_dim.1 < menu_dims.1 {
        None
    } else {
        Some(((window_dim.0 - menu_dims.0) / 2, (window_dim.1 - menu_dims.1) / 2))
    }
}

} // verus!
