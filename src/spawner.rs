use vstd::prelude::*;

use crate::board::{
    board_grid, fruit_on, is_board_of, items_in_bounds, on_tail, piece_at, BoardPiece, Fruit,
};
use crate::geometry::{in_bounds, manhattan, manhattan_distance, Cell, Dimensions};

verus! {

/// Whether nothing sits on `cell`.
pub open spec fn is_free(body: Seq<Cell>, food: Cell, fruit: Option<Fruit>, cell: Cell) -> bool {
    piece_at(body, food, fruit, cell) == BoardPiece::Empty
}

/// The free cells of row `row` among its first `cols` columns, left to right.
pub open spec fn free_in_row(
    body: Seq<Cell>,
    food: Cell,
    fruit: Option<Fruit>,
    row: u16,
    cols: nat,
) -> Seq<Cell>
    decreases cols,
{
    if cols == 0 {
        seq![]
    } else {
        let before = free_in_row(body, food, fruit, row, (cols - 1) as nat);
        let cell = (row, (cols - 1) as u16);
        if is_free(body, food, fruit, cell) {
            before.push(cell)
        } else {
            before
        }
    }
}

/// The free cells of the first `rows` rows, in row-major order.
pub open spec fn free_in_rows(
    dims: Dimensions,
    body: Seq<Cell>,
    food: Cell,
    fruit: Option<Fruit>,
    rows: nat,
) -> Seq<Cell>
    decreases rows,
{
    if rows == 0 {
        seq![]
    } else {
        free_in_rows(dims, body, food, fruit, (rows - 1) as nat) + free_in_row(
            body,
            food,
            fruit,
            (rows - 1) as u16,
            dims.1 as nat,
        )
    }
}

/// Every free cell of the board, in row-major order.
pub open spec fn free_cells(dims: Dimensions, body: Seq<Cell>, food: Cell, fruit: Option<Fruit>) -> Seq<
    Cell,
> {
    free_in_rows(dims, body, food, fruit, dims.0 as nat)
}

/// Draws distinct cells out of `pool`, one for each pick while the pool lasts:
/// each pick, taken modulo the size of what is left, selects the cell that
/// is removed from the pool.
pub open spec fn sample(pool: Seq<Cell>, picks: Seq<u64>) -> Seq<Cell>
    decreases picks.len(),
{
    if picks.len() == 0 || pool.len() == 0 {
        seq![]
    } else {
        let k = picks[0] as int % pool.len() as int;
        seq![pool[k]] + sample(pool.remove(k), picks.drop_first())
    }
}

/// The candidate farthest from `from`; among equally far ones, the last.
pub open spec fn farthest(candidates: Seq<Cell>, from: Cell) -> Option<Cell>
    decreases candidates.len(),
{
    if candidates.len() == 0 {
        None
    } else {
        let last = candidates.last();
        match farthest(candidates.drop_last(), from) {
            Some(best) => if manhattan(last, from) >= manhattan(best, from) {
                Some(last)
            } else {
                Some(best)
            },
            None => Some(last),
        }
    }
}

/// Where a new collectible goes: of the free cells that the picks sample,
/// the one farthest from the snake's head. `None` when no cell is free.
pub open spec fn spawn_cell(
    dims: Dimensions,
    body: Seq<Cell>,
    food: Cell,
    fruit: Option<Fruit>,
    picks: Seq<u64>,
) -> Option<Cell> {
    farthest(sample(free_cells(dims, body, food, fruit), picks), body[0])
}

proof fn lemma_free_in_row(body: Seq<Cell>, food: Cell, fruit: Option<Fruit>, row: u16, cols: nat, cell: Cell)
    ensures
        free_in_row(body, food, fruit, row, cols).contains(cell) <==> (cell.0 == row && cell.1 < cols
            && is_free(body, food, fruit, cell)),
    decreases cols,
{
    if cols > 0 {
        lemma_free_in_row(body, food, fruit, row, (cols - 1) as nat, cell);
        let before = free_in_row(body, food, fruit, row, (cols - 1) as nat);
        let last = (row, (cols - 1) as u16);
        if is_free(body, food, fruit, last) {
            assert(before.push(last).contains(cell) <==> (before.contains(cell) || cell == last)) by {
                if before.push(last).contains(cell) {
                    let j = choose|j: int| 0 <= j < before.len() + 1 && before.push(last)[j] == cell;
                    if j < before.len() {
                        assert(before[j] == cell);
                    }
                }
                if before.contains(cell) {
                    let j = choose|j: int| 0 <= j < before.len() && before[j] == cell;
                    assert(before.push(last)[j] == cell);
                }
                if cell == last {
                    assert(before.push(last)[before.len() as int] == cell);
                }
            }
        }
    }
}

proof fn lemma_free_in_rows(
    dims: Dimensions,
    body: Seq<Cell>,
    food: Cell,
    fruit: Option<Fruit>,
    rows: nat,
    cell: Cell,
)
    requires
        rows <= dims.0,
    ensures
        free_in_rows(dims, body, food, fruit, rows).contains(cell) <==> (cell.0 < rows && cell.1
            < dims.1 && is_free(body, food, fruit, cell)),
    decreases rows,
{
    if rows > 0 {
        let before = free_in_rows(dims, body, food, fruit, (rows - 1) as nat);
        let row = free_in_row(body, food, fruit, (rows - 1) as u16, dims.1 as nat);
        lemma_free_in_rows(dims, body, food, fruit, (rows - 1) as nat, cell);
        lemma_free_in_row(body, food, fruit, (rows - 1) as u16, dims.1 as nat, cell);
        lemma_concat_contains(before, row, cell);
    }
}

proof fn lemma_concat_contains(a: Seq<Cell>, b: Seq<Cell>, x: Cell)
    ensures
        (a + b).contains(x) <==> (a.contains(x) || b.contains(x)),
{
    if (a + b).contains(x) {
        let j = choose|j: int| 0 <= j < (a + b).len() && (a + b)[j] == x;
        if j < a.len() {
            assert(a[j] == x);
        } else {
            assert(b[j - a.len()] == x);
        }
    }
    if a.contains(x) {
        let j = choose|j: int| 0 <= j < a.len() && a[j] == x;
        assert((a + b)[j] == x);
    }
    if b.contains(x) {
        let j = choose|j: int| 0 <= j < b.len() && b[j] == x;
        assert((a + b)[a.len() + j] == x);
    }
}

/// A cell is listed among the free cells exactly when it lies on the board
/// and nothing sits on it.
pub proof fn lemma_free_cells(dims: Dimensions, body: Seq<Cell>, food: Cell, fruit: Option<Fruit>, cell: Cell)
    ensures
        free_cells(dims, body, food, fruit).contains(cell) <==> (in_bounds(cell, dims) && is_free(
            body,
            food,
            fruit,
            cell,
        )),
{
    lemma_free_in_rows(dims, body, food, fruit, dims.0 as nat, cell);
}

proof fn lemma_sample(pool: Seq<Cell>, picks: Seq<u64>)
    ensures
        sample(pool, picks).len() == 0 <==> (picks.len() == 0 || pool.len() == 0),
        forall|x: Cell| sample(pool, picks).contains(x) ==> pool.contains(x),
    decreases picks.len(),
{
    if picks.len() > 0 && pool.len() > 0 {
        let k = picks[0] as int % pool.len() as int;
        let rest = pool.remove(k);
        lemma_sample(rest, picks.drop_first());
        assert forall|x: Cell| sample(pool, picks).contains(x) implies pool.contains(x) by {
            lemma_concat_contains(seq![pool[k]], sample(rest, picks.drop_first()), x);
            if x == pool[k] {
                assert(pool[k] == x);
            } else {
                assert(seq![pool[k]][0] == pool[k]);
                assert(!seq![pool[k]].contains(x));
                assert(rest.contains(x));
                let j = choose|j: int| 0 <= j < rest.len() && rest[j] == x;
                if j < k {
                    assert(pool[j] == x);
                } else {
                    assert(pool[j + 1] == x);
                }
            }
        }
    }
}

proof fn lemma_farthest(candidates: Seq<Cell>, from: Cell)
    ensures
        farthest(candidates, from) is None <==> candidates.len() == 0,
        farthest(candidates, from) matches Some(x) ==> candidates.contains(x),
    decreases candidates.len(),
{
    if candidates.len() > 0 {
        let rest = candidates.drop_last();
        lemma_farthest(rest, from);
        assert(candidates[candidates.len() - 1] == candidates.last());
        if let Some(b) = farthest(rest, from) {
            let j = choose|j: int| 0 <= j < rest.len() && rest[j] == b;
            assert(candidates[j] == b);
        }
    }
}

/// A collectible is placed only on a free cell of the board, and a place is
/// found whenever one cell is free.
pub proof fn lemma_spawn_cell(
    dims: Dimensions,
    body: Seq<Cell>,
    food: Cell,
    fruit: Option<Fruit>,
    picks: Seq<u64>,
)
    requires
        picks.len() > 0,
    ensures
        spawn_cell(dims, body, food, fruit, picks) matches Some(x) ==> in_bounds(x, dims) && is_free(
            body,
            food,
            fruit,
            x,
        ),
        spawn_cell(dims, body, food, fruit, picks) is None <==> free_cells(dims, body, food, fruit).len()
            == 0,
        spawn_cell(dims, body, food, fruit, picks) is None <==> forall|c: Cell|
            in_bounds(c, dims) ==> !is_free(body, food, fruit, c),
{
    let free = free_cells(dims, body, food, fruit);
    lemma_sample(free, picks);
    lemma_farthest(sample(free, picks), body[0]);
    if let Some(x) = spawn_cell(dims, body, food, fruit, picks) {
        lemma_free_cells(dims, body, food, fruit, x);
    }
    if free.len() > 0 {
        lemma_free_cells(dims, body, food, fruit, free[0]);
        assert(free.contains(free[0]));
    } else {
        assert forall|c: Cell| in_bounds(c, dims) implies !is_free(body, food, fruit, c) by {
            lemma_free_cells(dims, body, food, fruit, c);
        }
    }
}

/// A free cell holds no segment of the snake, no food and no fruit.
pub proof fn lemma_free_cell_unoccupied(body: Seq<Cell>, food: Cell, fruit: Option<Fruit>, cell: Cell)
    requires
        is_free(body, food, fruit, cell),
    ensures
        !body.contains(cell),
        cell != food,
        !fruit_on(fruit, cell),
{
    if body.contains(cell) {
        let i = choose|i: int| 0 <= i < body.len() && body[i] == cell;
        if i > 0 {
            assert(on_tail(body, cell));
        }
    }
}

/// The free cells of the board in row-major order.
fn collect_free_cells(dims: Dimensions, body: &Vec<Cell>, food: Cell, fruit: Option<Fruit>) -> (res:
    Vec<Cell>)
    requires
        items_in_bounds(dims, body@, food, fruit),
    ensures
        res@ == free_cells(dims, body@, food, fruit),
{
    let grid = board_grid(dims, body, food, fruit);
    let mut res: Vec<Cell> = Vec::new();
    let mut r: u16 = 0;
    while r < dims.0
        invariant
            r <= dims.0,
            is_board_of(grid@, dims, body@, food, fruit),
            res@ == free_in_rows(dims, body@, food, fruit, r as nat),
        decreases dims.0 - r,
    {
        let row = &grid[r as usize];
        let mut c: u16 = 0;
        while c < dims.1
            invariant
                r < dims.0,
                c <= dims.1,
                row@ == grid@[r as int]@,
                is_board_of(grid@, dims, body@, food, fruit),
                res@ == free_in_rows(dims, body@, food, fruit, r as nat) + free_in_row(
                    body@,
                    food,
                    fruit,
                    r,
                    c as nat,
                ),
            decreases dims.1 - c,
        {
            let ghost before = res@;
            assert(row@[c as int] == piece_at(body@, food, fruit, (r, c)));
            if row[c as usize] == BoardPiece::Empty {
                res.push((r, c));
                assert(res@ =~= free_in_rows(dims, body@, food, fruit, r as nat) + free_in_row(
                    body@,
                    food,
                    fruit,
                    r,
                    (c + 1) as nat,
                ));
            }
            c = c + 1;
        }
        r = r + 1;
    }
    res
}

/// Picks the cell for a new collectible: up to three distinct free cells are
/// sampled by `picks`, and the one farthest from the head wins (the last of
/// equally far ones). `None` when the board has no free cell.
pub fn element_spawn_candidate(
    dims: Dimensions,
    body: &Vec<Cell>,
    food: Cell,
    fruit: Option<Fruit>,
    picks: &[u64; 3],
) -> (r: Option<Cell>)
    requires
        items_in_bounds(dims, body@, food, fruit),
        body@.len() > 0,
    ensures
        r == spawn_cell(dims, body@, food, fruit, picks@),
{
    let mut pool = collect_free_cells(dims, body, food, fruit);
    let ghost free = pool@;
    let head = body[0];
    let mut taken: Vec<Cell> = Vec::new();
    let mut best: Option<Cell> = None;
    let mut i: usize = 0;
    assert(picks@.skip(0) =~= picks@);
    assert(taken@ + sample(pool@, picks@) =~= sample(pool@, picks@));
    while i < 3 && pool.len() > 0
        invariant
            i <= 3,
            body@.len() > 0,
            picks@.len() == 3,
            head == body@[0],
            taken@ + sample(pool@, picks@.skip(i as int)) == sample(free, picks@),
            best == farthest(taken@, head),
        decreases 3 - i,
    {
        let ghost rest = picks@.skip(i as int);
        let k = (picks[i] % (pool.len() as u64)) as usize;
        assert(rest[0] == picks@[i as int]);
        assert(rest.drop_first() =~= picks@.skip(i + 1));
        let cell = pool.remove(k);
        let ghost grown = taken@.push(cell);
        assert(grown.drop_last() =~= taken@);
        best = match best {
            Some(b) => if manhattan_distance(cell, head) >= manhattan_distance(b, head) {
                Some(cell)
            } else {
                Some(b)
            },
            None => Some(cell),
        };
        taken.push(cell);
        assert(taken@ + sample(pool@, picks@.skip(i + 1)) =~= grown + sample(pool@, rest.drop_first()));
        i = i + 1;
    }
    assert(sample(pool@, picks@.skip(i as int)) =~= seq![]);
    assert(taken@ =~= sample(free, picks@));
    best
}

} // verus!
