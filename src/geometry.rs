use vstd::prelude::*;

use crate::direction::Direction;

verus! {

/// A board cell as `(row, column)`.
pub type Cell = (u16, u16);

/// Board dimensions as `(rows, columns)`.
pub type Dimensions = (u16, u16);

/// Whether `cell` lies on a board of the given dimensions.
pub open spec fn in_bounds(cell: Cell, dims: Dimensions) -> bool {
    cell.0 < dims.0 && cell.1 < dims.1
}

/// Absolute difference of two coordinates.
pub open spec fn gap(a: u16, b: u16) -> nat {
    if a >= b {
        (a - b) as nat
    } else {
        (b - a) as nat
    }
}

/// Number of orthogonal moves between two cells, ignoring wraparound.
pub open spec fn manhattan(a: Cell, b: Cell) -> nat {
    gap(a.0, b.0) + gap(a.1, b.1)
}

/// The cell one move away in `direction` on a toroidal board: stepping past
/// index 0 re-enters at the last index, stepping past the last index re-enters
/// at 0.
pub open spec fn next_cell(pos: Cell, direction: Direction, dims: Dimensions) -> Cell {
    match direction {
        Direction::Up => if pos.0 == 0 {
            ((dims.0 - 1) as u16, pos.1)
        } else {
            ((pos.0 - 1) as u16, pos.1)
        },
        Direction::Down => if pos.0 + 1 == dims.0 {
            (0, pos.1)
        } else {
            ((pos.0 + 1) as u16, pos.1)
        },
        Direction::Left => if pos.1 == 0 {
            (pos.0, (dims.1 - 1) as u16)
        } else {
            (pos.0, (pos.1 - 1) as u16)
        },
        Direction::Right => if pos.1 + 1 == dims.1 {
            (pos.0, 0)
        } else {
            (pos.0, (pos.1 + 1) as u16)
        },
    }
}

/// Whether two cells are the same.
pub fn same_cell(a: Cell, b: Cell) -> (r: bool)
    ensures
        r == (a == b),
{
    a.0 == b.0 && a.1 == b.1
}

fn coordinate_gap(a: u16, b: u16) -> (r: u32)
    ensures
        r == gap(a, b),
{
    if a >= b {
        (a - b) as u32
    } else {
        (b - a) as u32
    }
}

/// Manhattan distance between two cells.
pub fn manhattan_distance(a: Cell, b: Cell) -> (r: u32)
    ensures
        r == manhattan(a, b),
{
    coordinate_gap(a.0, b.0) + coordinate_gap(a.1, b.1)
}

/// The cell reached from `pos` by one move in `direction`, wrapping at the
/// board's edges.
pub fn next_position(pos: Cell, direction: Direction, board_dimensions: Dimensions) -> (r: Cell)
    requires
        in_bounds(pos, board_dimensions),
    ensures
        r == next_cell(pos, direction, board_dimensions),
        in_bounds(r, board_dimensions),
{
    match direction {
        Direction::Up => {
            if pos.0 == 0 {
                (board_dimensions.0 - 1, pos.1)
            } else {
                (pos.0 - 1, pos.1)
            }
        },
        Direction::Down => {
            if pos.0 == board_dimensions.0 - 1 {
                (0, pos.1)
            } else {
                (pos.0 + 1, pos.1)
            }
        },
        Direction::Left => {
            if pos.1 == 0 {
                (pos.0, board_dimensions.1 - 1)
            } else {
                (pos.0, pos.1 - 1)
            }
        },
        Direction::Right => {
            if pos.1 == board_dimensions.1 - 1 {
                (pos.0, 0)
            } else {
                (pos.0, pos.1 + 1)
            }
        },
    }
}

/// Movement wraps at every edge: leaving the board on one side re-enters it
/// on the opposite side, in the same row or column.
pub proof fn lemma_movement_wraps(dims: Dimensions, row: u16, col: u16)
    requires
        in_bounds((row, col), dims),
    ensures
        row == 0 ==> next_cell((row, col), Direction::Up, dims) == ((dims.0 - 1) as u16, col),
        row + 1 == dims.0 ==> next_cell((row, col), Direction::Down, dims) == (0u16, col),
        col == 0 ==> next_cell((row, col), Direction::Left, dims) == (row, (dims.1 - 1) as u16),
        col + 1 == dims.1 ==> next_cell((row, col), Direction::Right, dims) == (row, 0u16),
        in_bounds(next_cell((row, col), Direction::Up, dims), dims),
        in_bounds(next_cell((row, col), Direction::Down, dims), dims),
        in_bounds(next_cell((row, col), Direction::Left, dims), dims),
        in_bounds(next_cell((row, col), Direction::Right, dims), dims),
{
}

} // verus!
