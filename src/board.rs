use vstd::prelude::*;

use crate::geometry::{in_bounds, Cell, Dimensions};

verus! {

/// What a board cell shows.
#[derive(Clone, Copy, Debug, PartialEq, Eq, Structural)]
pub enum BoardPiece {
    Snake,
    SnakeHead,
    Food,
    Fruit,
    Empty,
}

/// A timed bonus collectible: its cell and the steps it has left.
pub type Fruit = (Cell, u32);

/// Whether the fruit, if any, sits on `cell`.
pub open spec fn fruit_on(fruit: Option<Fruit>, cell: Cell) -> bool {
    match fruit {
        Some((c, _)) => c == cell,
        None => false,
    }
}

/// Whether a body segment other than the head sits on `cell`.
pub open spec fn on_tail(body: Seq<Cell>, cell: Cell) -> bool {
    exists|i: int| 1 <= i < body.len() && body[i] == cell
}

/// What `cell` shows. Snake segments cover everything else, a body segment
/// covers the head, and the fruit covers the food.
pub open spec fn piece_at(body: Seq<Cell>, food: Cell, fruit: Option<Fruit>, cell: Cell) -> BoardPiece {
    if on_tail(body, cell) {
        BoardPiece::Snake
    } else if body.len() > 0 && body[0] == cell {
        BoardPiece::SnakeHead
    } else if fruit_on(fruit, cell) {
        BoardPiece::Fruit
    } else if cell == food {
        BoardPiece::Food
    } else {
        BoardPiece::Empty
    }
}

/// Whether `grid` is the board of the given dimensions, every cell showing
/// what `piece_at` says.
pub open spec fn is_board_of(
    grid: Seq<Vec<BoardPiece>>,
    dims: Dimensions,
    body: Seq<Cell>,
    food: Cell,
    fruit: Option<Fruit>,
) -> bool {
    &&& grid.len() == dims.0
    &&& forall|r: int| 0 <= r < dims.0 ==> #[trigger] grid[r]@.len() == dims.1
    &&& forall|r: int, c: int|
        0 <= r < dims.0 && 0 <= c < dims.1 ==> #[trigger] grid[r]@[c] == piece_at(
            body,
            food,
            fruit,
            (r as u16, c as u16),
        )
}

/// Whether every occupied cell lies on the board.
pub open spec fn items_in_bounds(
    dims: Dimensions,
    body: Seq<Cell>,
    food: Cell,
    fruit: Option<Fruit>,
) -> bool {
    &&& forall|i: int| 0 <= i < body.len() ==> in_bounds(#[trigger] body[i], dims)
    &&& in_bounds(food, dims)
    &&& match fruit {
        Some((c, _)) => in_bounds(c, dims),
        None => true,
    }
}

/// Whether `grid` has the given dimensions.
pub open spec fn has_shape(grid: Seq<Vec<BoardPiece>>, dims: Dimensions) -> bool {
    &&& grid.len() == dims.0
    &&& forall|r: int| 0 <= r < dims.0 ==> #[trigger] grid[r]@.len() == dims.1
}

/// Writes `piece` into `cell`.
fn set_piece(grid: &mut Vec<Vec<BoardPiece>>, dims: Dimensions, cell: Cell, piece: BoardPiece)
    requires
        has_shape(old(grid)@, dims),
        in_bounds(cell, dims),
    ensures
        has_shape(final(grid)@, dims),
        forall|r: int, c: int|
            0 <= r < dims.0 && 0 <= c < dims.1 ==> #[trigger] final(grid)@[r]@[c] == if r
                == cell.0 && c == cell.1 {
                piece
            } else {
                old(grid)@[r]@[c]
            },
{
    grid[cell.0 as usize][cell.1 as usize] = piece;
}

/// A board of the given dimensions showing only empty cells.
fn empty_board(dims: Dimensions) -> (res: Vec<Vec<BoardPiece>>)
    ensures
        has_shape(res@, dims),
        forall|r: int, c: int|
            0 <= r < dims.0 && 0 <= c < dims.1 ==> #[trigger] res@[r]@[c] == BoardPiece::Empty,
{
    let mut res: Vec<Vec<BoardPiece>> = Vec::new();
    let mut r: u16 = 0;
    while r < dims.0
        invariant
            r <= dims.0,
            res@.len() == r,
            forall|i: int| 0 <= i < r ==> #[trigger] res@[i]@.len() == dims.1,
            forall|i: int, c: int|
                0 <= i < r && 0 <= c < dims.1 ==> #[trigger] res@[i]@[c] == BoardPiece::Empty,
        decreases dims.0 - r,
    {
        let mut row: Vec<BoardPiece> = Vec::new();
        let mut c: u16 = 0;
        while c < dims.1
            invariant
                c <= dims.1,
                row@.len() == c,
                forall|j: int| 0 <= j < c ==> #[trigger] row@[j] == BoardPiece::Empty,
            decreases dims.1 - c,
        {
            row.push(BoardPiece::Empty);
            c = c + 1;
        }
        res.push(row);
        r = r + 1;
    }
    res
}

/// The board of the given dimensions with the snake, the food and the fruit
/// drawn on it.
pub fn board_grid(dims: Dimensions, body: &Vec<Cell>, food: Cell, fruit: Option<Fruit>) -> (res: Vec<
    Vec<BoardPiece>,
>)
    requires
        items_in_bounds(dims, body@, food, fruit),
    ensures
        is_board_of(res@, dims, body@, food, fruit),
{
    let mut res = empty_board(dims);
    set_piece(&mut res, dims, food, BoardPiece::Food);
    if let Some((cell, _)) = fruit {
        set_piece(&mut res, dims, cell, BoardPiece::Fruit);
    }
    assert(body@.take(0) =~= Seq::<Cell>::empty());
    let mut i: usize = 0;
    while i < body.len()
        invariant
            i <= body@.len(),
            items_in_bounds(dims, body@, food, fruit),
            is_board_of(res@, dims, body@.take(i as int), food, fruit),
        decreases body@.len() - i,
    {
        let cell = body[i];
        let piece = if i == 0 {
            BoardPiece::SnakeHead
        } else {
            BoardPiece::Snake
        };
        let ghost prev = res@;
        set_piece(&mut res, dims, cell, piece);
        assert forall|r: int, c: int| 0 <= r < dims.0 && 0 <= c < dims.1 implies #[trigger] res@[r]@[c]
            == piece_at(body@.take(i + 1), food, fruit, (r as u16, c as u16)) by {
            let x = (r as u16, c as u16);
            let before = body@.take(i as int);
            let after = body@.take(i + 1);
            assert(prev[r]@[c] == piece_at(before, food, fruit, x));
            assert(x.0 as int == r && x.1 as int == c);
            assert(after[i as int] == cell);
            if x == cell {
                assert(res@[r]@[c] == piece);
                if i > 0 {
                    assert(on_tail(after, x));
                }
            } else {
                assert(res@[r]@[c] == prev[r]@[c]);
            }
            if i > 0 {
                assert(after[0] == before[0]);
            }
            if on_tail(after, x) && !on_tail(before, x) {
                let j = choose|j: int| 1 <= j < after.len() && after[j] == x;
                assert(j == i);
            }
            if on_tail(before, x) {
                let j = choose|j: int| 1 <= j < before.len() && before[j] == x;
                assert(after[j] == x);
            }
        }
        i = i + 1;
    }
    assert(body@.take(body@.len() as int) =~= body@);
    res
}


/// A row of `len` wall cells.
pub open spec fn wall_row<T>(len: nat, wall: T) -> Seq<T> {
    Seq::new(len, |_i: int| wall)
}

/// A row with a wall cell added at each end.
pub open spec fn walled<T>(row: Seq<T>, wall: T) -> Seq<T> {
    seq![wall] + row + seq![wall]
}

fn uniform_row<T: Copy>(len: usize, wall: T) -> (r: Vec<T>)
    ensures
        r@ == wall_row(len as nat, wall),
{
    let mut r: Vec<T> = Vec::new();
    let mut i: usize = 0;
    while i < len
        invariant
            i <= len,
            r@ == wall_row(i as nat, wall),
        decreases len - i,
    {
        r.push(wall);
        i = i + 1;
        assert(r@ =~= wall_row(i as nat, wall));
    }
    r
}

/// Surrounds a board with walls: a wall row above and below, as wide as the
/// first row and its two walls, and a wall cell at each end of every row.
pub fn decorate_with_walls<T: Copy>(board: &Vec<Vec<T>>, wall: T) -> (r: Vec<Vec<T>>)
    requires
        board@.len() > 0,
        board@[0]@.len() + 2 <= usize::MAX,
        forall|i: int| 0 <= i < board@.len() ==> #[trigger] board@[i]@.len() + 2 <= usize::MAX,
    ensures
        r@.len() == board@.len() + 2,
        r@[0]@ == wall_row((board@[0]@.len() + 2) as nat, wall),
        r@[r@.len() - 1]@ == wall_row((board@[0]@.len() + 2) as nat, wall),
        forall|i: int| 0 <= i < board@.len() ==> #[trigger] r@[i + 1]@ == walled(board@[i]@, wall),
{
    let width = board[0].len() + 2;
    let mut r: Vec<Vec<T>> = Vec::new();
    r.push(uniform_row(width, wall));
    let mut i: usize = 0;
    while i < board.len()
        invariant
            i <= board@.len(),
            r@.len() == i + 1,
            r@[0]@ == wall_row(width as nat, wall),
            width == board@[0]@.len() + 2,
            forall|j: int| 0 <= j < i ==> #[trigger] r@[j + 1]@ == walled(board@[j]@, wall),
        decreases board@.len() - i,
    {
        let line = &board[i];
        let mut row: Vec<T> = Vec::new();
        row.push(wall);
        let mut j: usize = 0;
        while j < line.len()
            invariant
                j <= line@.len(),
                row@ == seq![wall] + line@.take(j as int),
            decreases line@.len() - j,
        {
            row.push(line[j]);
            assert(line@.take(j + 1) =~= line@.take(j as int).push(line@[j as int]));
            assert(row@ =~= seq![wall] + line@.take(j + 1));
            j = j + 1;
        }
        row.push(wall);
        assert(line@.take(j as int) =~= line@);
        assert(row@ =~= walled(board@[i as int]@, wall));
        r.push(row);
        i = i + 1;
    }
    r.push(uniform_row(width, wall));
    r
}

} // verus!
