use vstd::prelude::*;

use crate::board::{board_grid, fruit_on, is_board_of, items_in_bounds, on_tail, BoardPiece, Fruit};
use crate::direction::Direction;
use crate::geometry::{
    in_bounds, lemma_movement_wraps, manhattan, manhattan_distance, next_cell, next_position, same_cell,
    Cell, Dimensions,
};
use crate::rolls::{draw_picks, Rolls};
use crate::snake::{resolve, Snake, SnakeView};
use crate::spawner::{
    element_spawn_candidate, is_free, lemma_free_cell_unoccupied, lemma_spawn_cell, spawn_cell,
};

verus! {

/// Nanoseconds in a millisecond.
pub const NANOS_PER_MILLI: u64 = 1_000_000;

/// Whether the game advances or is held.
#[derive(Clone, Copy, Debug, PartialEq, Eq, Structural)]
pub enum GameMode {
    Game,
    Pause,
}

/// What a call of `tick` reports.
#[derive(Clone, Copy, Debug, PartialEq, Eq, Structural)]
pub enum Outcome {
    /// The game goes on.
    Continue,
    /// The head would run into the body; the game is left as it was.
    Collision,
    /// Food was reached but no cell is left for the next one; the game is
    /// left as it was.
    BoardFull,
}

/// The state of one run of the game.
pub struct Game {
    mode: GameMode,
    snake: Snake,
    dimensions: Dimensions,
    food: Cell,
    fruit: Option<Fruit>,
    score: u32,
    just_ate: bool,
    moves_until_next_fruit: u8,
    next_tick_in: u64,
    difficulty: u16,
}

/// Mathematical model of a game.
pub struct GameView {
    pub mode: GameMode,
    pub dimensions: Dimensions,
    /// Snake segments, head first.
    pub body: Seq<Cell>,
    /// Heading of the last step.
    pub direction: Direction,
    /// Turn buffered for the next step.
    pub pending: Option<Direction>,
    pub food: Cell,
    /// The fruit's cell and the steps it has left.
    pub fruit: Option<Fruit>,
    pub score: u32,
    /// Whether the next step grows the snake.
    pub just_ate: bool,
    /// Steps until a fruit is placed, while there is none.
    pub fruit_cooldown: u8,
    /// Nanoseconds still to elapse before the next step.
    pub next_tick_in: u64,
    pub difficulty: u16,
}

/// Difficulty brought into `1..=9`.
pub open spec fn clamped_difficulty(difficulty: u16) -> u16 {
    if difficulty < 1 {
        1
    } else if difficulty > 9 {
        9
    } else {
        difficulty
    }
}

/// Nanoseconds between two steps: 350 ms less 30 ms per level of difficulty.
pub open spec fn step_interval(difficulty: u16) -> u64 {
    ((350 - 30 * difficulty) * NANOS_PER_MILLI) as u64
}

/// `x` capped at the largest `u32`.
pub open spec fn saturate(x: int) -> u32 {
    if x > u32::MAX {
        u32::MAX
    } else {
        x as u32
    }
}

/// The body a game starts with.
pub open spec fn initial_body() -> Seq<Cell> {
    seq![(0u16, 0u16), (0u16, 1u16), (0u16, 2u16)]
}

impl GameView {
    /// What every game satisfies between calls.
    pub open spec fn valid(self) -> bool {
        &&& self.dimensions.0 >= 3
        &&& self.dimensions.1 >= 3
        &&& 1 <= self.difficulty <= 9
        &&& self.body.len() >= 1
        &&& self.body.no_duplicates()
        &&& items_in_bounds(self.dimensions, self.body, self.food, self.fruit)
        &&& !self.body.contains(self.food)
        &&& match self.fruit {
            Some((c, _)) => !self.body.contains(c) && c != self.food,
            None => true,
        }
        &&& 0 < self.next_tick_in <= step_interval(self.difficulty)
    }

    /// The game a run starts with, the food placed by `picks`.
    pub open spec fn initial(dimensions: Dimensions, difficulty: u16, picks: Seq<u64>) -> GameView {
        let difficulty = clamped_difficulty(difficulty);
        GameView {
            mode: GameMode::Game,
            dimensions,
            body: initial_body(),
            direction: Direction::Down,
            pending: None,
            food: match spawn_cell(dimensions, initial_body(), (0u16, 0u16), None, picks) {
                Some(c) => c,
                None => (0u16, 0u16),
            },
            fruit: None,
            score: 0,
            just_ate: false,
            fruit_cooldown: 120,
            next_tick_in: step_interval(difficulty),
            difficulty,
        }
    }

    /// The heading of the next step.
    pub open spec fn heading(self) -> Direction {
        resolve(self.direction, self.pending)
    }

    /// Where the head goes on the next step.
    pub open spec fn next_head(self) -> Cell {
        next_cell(self.body[0], self.heading(), self.dimensions)
    }

    /// The body after the next step: the new head in front of the old body,
    /// whose last segment is dropped unless the snake grows.
    pub open spec fn next_body(self) -> Seq<Cell> {
        if self.just_ate {
            seq![self.next_head()] + self.body
        } else {
            seq![self.next_head()] + self.body.drop_last()
        }
    }

    /// The fruit's part of a step, on the game whose snake has already moved
    /// onto `head`: a fruit with no steps left goes, one under the head is
    /// eaten for its remaining steps times the difficulty, any other loses a
    /// step; with no fruit, the cooldown runs down and at zero a fruit is
    /// placed, with twice its distance to the head as its steps.
    pub open spec fn fruit_phase(self, head: Cell, rolls: Rolls) -> GameView {
        match self.fruit {
            Some((cell, left)) => if left == 0 {
                GameView { fruit: None, fruit_cooldown: rolls.fruit_cooldown, ..self }
            } else if head == cell {
                GameView {
                    score: saturate(self.score + left * self.difficulty),
                    just_ate: true,
                    fruit: None,
                    fruit_cooldown: rolls.fruit_cooldown,
                    ..self
                }
            } else {
                GameView { fruit: Some((cell, (left - 1) as u32)), ..self }
            },
            None => if self.fruit_cooldown == 0 {
                match spawn_cell(self.dimensions, self.body, self.food, None, rolls.fruit_picks@) {
                    Some(c) => GameView { fruit: Some((c, (2 * manhattan(c, head)) as u32)), ..self },
                    None => self,
                }
            } else {
                GameView { fruit_cooldown: (self.fruit_cooldown - 1) as u8, ..self }
            },
        }
    }

    /// One discrete step of the game. A step that would run the head into
    /// the body, or that finds no cell for the next food, changes nothing.
    pub open spec fn step(self, rolls: Rolls) -> (GameView, Outcome) {
        let head = self.next_head();
        let body = self.next_body();
        if on_tail(body, head) {
            (self, Outcome::Collision)
        } else {
            let ate = head == self.food;
            let food = if ate {
                spawn_cell(self.dimensions, body, self.food, self.fruit, rolls.food_picks@)
            } else {
                Some(self.food)
            };
            match food {
                None => (self, Outcome::BoardFull),
                Some(food) => {
                    let moved = GameView {
                        body,
                        direction: self.heading(),
                        pending: None,
                        food,
                        score: if ate {
                            saturate(self.score + self.difficulty)
                        } else {
                            self.score
                        },
                        just_ate: ate,
                        next_tick_in: step_interval(self.difficulty),
                        ..self
                    };
                    (moved.fruit_phase(head, rolls), Outcome::Continue)
                },
            }
        }
    }

    /// What a call of `tick` with `delta` nanoseconds does: nothing while
    /// paused; while the time to the next step has not run out, it only
    /// counts down; else one step is taken.
    pub open spec fn tick(self, delta: u64, rolls: Rolls) -> (GameView, Outcome) {
        if self.mode == GameMode::Pause {
            (self, Outcome::Continue)
        } else if delta < self.next_tick_in {
            (GameView { next_tick_in: (self.next_tick_in - delta) as u64, ..self }, Outcome::Continue)
        } else {
            self.step(rolls)
        }
    }
}

impl View for Game {
    type V = GameView;

    closed spec fn view(&self) -> GameView {
        GameView {
            mode: self.mode,
            dimensions: self.dimensions,
            body: self.snake@.body,
            direction: self.snake@.direction,
            pending: self.snake@.pending,
            food: self.food,
            fruit: self.fruit,
            score: self.score,
            just_ate: self.just_ate,
            fruit_cooldown: self.moves_until_next_fruit,
            next_tick_in: self.next_tick_in,
            difficulty: self.difficulty,
        }
    }
}

impl Game {
    #[verifier::type_invariant]
    closed spec fn inv(self) -> bool {
        self@.valid()
    }

    /// Starts a run on a board of `dimensions` (rows, columns): the snake
    /// lies on cells (0,0), (0,1), (0,2) heading down, the difficulty is
    /// brought into `1..=9`, and the food is placed by `picks`.
    pub fn new_with_picks(dimensions: Dimensions, difficulty: u16, picks: &[u64; 3]) -> (r: Game)
        requires
            dimensions.0 >= 3,
            dimensions.1 >= 3,
        ensures
            r@ == GameView::initial(dimensions, difficulty, picks@),
            r@.valid(),
            r@.body.len() == 3,
            r@.body.no_duplicates(),
            !r@.body.contains(r@.food),
    {
        let difficulty = if difficulty < 1 {
            1
        } else if difficulty > 9 {
            9
        } else {
            difficulty
        };
        let speed = speed_for(difficulty);
        let mut body: Vec<Cell> = Vec::new();
        body.push((0, 0));
        body.push((0, 1));
        body.push((0, 2));
        assert(body@ =~= initial_body());
        let placed = element_spawn_candidate(dimensions, &body, (0, 0), None, picks);
        proof {
            lemma_spawn_cell(dimensions, body@, (0, 0), None, picks@);
            assert(in_bounds((1u16, 0u16), dimensions));
            assert(!on_tail(body@, (1u16, 0u16)));
            assert(is_free(body@, (0, 0), None, (1u16, 0u16)));
        }
        let food = match placed {
            Some(cell) => cell,
            None => (0, 0),
        };
        proof {
            lemma_free_cell_unoccupied(body@, (0, 0), None, food);
        }
        Game {
            mode: GameMode::Game,
            snake: Snake::new(body, Direction::Down),
            dimensions,
            food,
            fruit: None,
            score: 0,
            just_ate: false,
            moves_until_next_fruit: 120,
            next_tick_in: speed,
            difficulty,
        }
    }

    /// Starts a run on a board of `dimensions` (rows, columns) with the
    /// food placed at random; see `new_with_picks`.
    pub fn new(dimensions: Dimensions, difficulty: u16) -> (r: Game)
        requires
            dimensions.0 >= 3,
            dimensions.1 >= 3,
        ensures
            exists|picks: Seq<u64>|
                picks.len() == 3 && r@ == GameView::initial(dimensions, difficulty, picks),
            r@.valid(),
            r@.body.len() == 3,
            r@.body.no_duplicates(),
            !r@.body.contains(r@.food),
    {
        let picks = draw_picks();
        let r = Game::new_with_picks(dimensions, difficulty, &picks);
        assert(picks@.len() == 3 && r@ == GameView::initial(dimensions, difficulty, picks@));
        r
    }
}

impl Game {
    /// Holds the game: `tick` changes nothing until it is resumed.
    pub fn pause_game(&mut self)
        ensures
            final(self)@ == (GameView { mode: GameMode::Pause, ..old(self)@ }),
    {
        proof {
            use_type_invariant(&*self);
        }
        self.mode = GameMode::Pause;
    }

    /// Resumes the game.
    pub fn unpause_game(&mut self)
        ensures
            final(self)@ == (GameView { mode: GameMode::Game, ..old(self)@ }),
    {
        proof {
            use_type_invariant(&*self);
        }
        self.mode = GameMode::Game;
    }

    /// Requests a turn for the next step. A turn is buffered only if it is
    /// orthogonal to the current heading; any other request is dropped.
    pub fn change_direction(&mut self, direction: Direction)
        ensures
            final(self)@ == (GameView {
                pending: if direction.orthogonal(old(self)@.direction) {
                    Some(direction)
                } else {
                    old(self)@.pending
                },
                ..old(self)@
            }),
    {
        proof {
            use_type_invariant(&*self);
        }
        self.snake.change_direction(direction);
    }

    /// Board dimensions as (rows, columns).
    pub fn dimensions(&self) -> (r: Dimensions)
        ensures
            r == self@.dimensions,
    {
        self.dimensions
    }

    pub fn score(&self) -> (r: u32)
        ensures
            r == self@.score,
    {
        self.score
    }

    pub fn mode(&self) -> (r: GameMode)
        ensures
            r == self@.mode,
    {
        self.mode
    }

    pub fn food(&self) -> (r: Cell)
        ensures
            r == self@.food,
    {
        self.food
    }

    /// The fruit's cell and the steps it has left, if a fruit is out.
    pub fn fruit(&self) -> (r: Option<Fruit>)
        ensures
            r == self@.fruit,
    {
        self.fruit
    }

    pub fn difficulty(&self) -> (r: u16)
        ensures
            r == self@.difficulty,
    {
        self.difficulty
    }

    /// Nanoseconds between two steps.
    pub fn speed(&self) -> (r: u64)
        ensures
            r == step_interval(self@.difficulty),
    {
        proof {
            use_type_invariant(self);
        }
        speed_for(self.difficulty)
    }

    pub fn snake(&self) -> (r: &Snake)
        ensures
            r@ == (SnakeView {
                body: self@.body,
                direction: self@.direction,
                pending: self@.pending,
            }),
    {
        &self.snake
    }

    /// What every cell of the board shows, row by row.
    pub fn board_pieces(&self) -> (r: Vec<Vec<BoardPiece>>)
        ensures
            is_board_of(r@, self@.dimensions, self@.body, self@.food, self@.fruit),
    {
        proof {
            use_type_invariant(self);
        }
        board_grid(self.dimensions, self.snake.segments(), self.food, self.fruit)
    }
}

impl Game {
    /// Whether `delta` nanoseconds use up the time left to the next step.
    fn can_tick(&self, delta: u64) -> (r: bool)
        ensures
            r == (delta >= self@.next_tick_in),
    {
        self.next_tick_in <= delta
    }

    /// Advances the game by `delta` nanoseconds of real time, taking one
    /// discrete step once the time to the next step has run out. `rolls`
    /// supplies what the step draws at random.
    pub fn tick_with(&mut self, delta: u64, rolls: &Rolls) -> (r: Outcome)
        ensures
            (final(self)@, r) == old(self)@.tick(delta, *rolls),
            final(self)@.valid(),
    {
        proof {
            use_type_invariant(&*self);
        }
        if self.mode == GameMode::Pause {
            return Outcome::Continue;
        }
        if !self.can_tick(delta) {
            self.next_tick_in = self.next_tick_in - delta;
            return Outcome::Continue;
        }
        self.step(rolls)
    }

    /// Advances the game by `delta` nanoseconds of real time, as `tick_with`
    /// does with draws from the thread's random source.
    pub fn tick(&mut self, delta: u64) -> (r: Outcome)
        ensures
            exists|rolls: Rolls| rolls.valid() && (final(self)@, r) == old(self)@.tick(delta, rolls),
            final(self)@.valid(),
    {
        let rolls = Rolls::draw();
        let r = self.tick_with(delta, &rolls);
        assert(rolls.valid() && (self@, r) == old(self)@.tick(delta, rolls));
        r
    }

    /// One discrete step; see `GameView::step`.
    fn step(&mut self, rolls: &Rolls) -> (r: Outcome)
        ensures
            (final(self)@, r) == old(self)@.step(*rolls),
            final(self)@.valid(),
    {
        proof {
            use_type_invariant(&*self);
        }
        let ghost g = self@;
        let direction = self.snake.upcoming_direction();
        let old_body = self.snake.segments();
        let head = next_position(old_body[0], direction, self.dimensions);
        let body = moved_body(old_body, head, self.just_ate);
        assert(body@ == g.next_body());
        if tail_contains(&body, head) {
            return Outcome::Collision;
        }
        proof {
            lemma_moved_body_valid(g, head, body@);
        }
        let ate = same_cell(head, self.food);
        let mut score = self.score;
        let mut food = self.food;
        if ate {
            score = add_points(score, self.difficulty as u64);
            match element_spawn_candidate(self.dimensions, &body, self.food, self.fruit, &rolls.food_picks) {
                Some(cell) => {
                    proof {
                        lemma_spawn_cell(g.dimensions, body@, g.food, g.fruit, rolls.food_picks@);
                    }
                    food = cell;
                },
                None => {
                    return Outcome::BoardFull;
                },
            }
        }
        let mut just_ate = ate;
        let mut fruit = self.fruit;
        let mut cooldown = self.moves_until_next_fruit;
        match self.fruit {
            Some((cell, left)) => {
                if left == 0 {
                    fruit = None;
                    cooldown = rolls.fruit_cooldown;
                } else if same_cell(head, cell) {
                    let difficulty = self.difficulty as u64;
                    assert(left * difficulty <= u32::MAX as u64 * 10) by (nonlinear_arith)
                        requires
                            left <= u32::MAX,
                            difficulty <= 9,
                    ;
                    score = add_points(score, left as u64 * difficulty);
                    just_ate = true;
                    fruit = None;
                    cooldown = rolls.fruit_cooldown;
                } else {
                    fruit = Some((cell, left - 1));
                }
            },
            None => {
                if cooldown == 0 {
                    fruit = spawn_fruit(self.dimensions, &body, food, &rolls.fruit_picks);
                } else {
                    cooldown = cooldown - 1;
                }
            },
        }
        let speed = speed_for(self.difficulty);
        proof {
            lemma_step_keeps_valid(g, *rolls);
        }
        *self =
        Game {
            mode: self.mode,
            snake: Snake::new(body, direction),
            dimensions: self.dimensions,
            food,
            fruit,
            score,
            just_ate,
            moves_until_next_fruit: cooldown,
            next_tick_in: speed,
            difficulty: self.difficulty,
        };
        Outcome::Continue
    }
}

/// A step keeps a game valid: the snake's segments stay distinct and on the
/// board, and the food and the fruit stay on free cells apart from each other.
pub proof fn lemma_step_keeps_valid(g: GameView, rolls: Rolls)
    requires
        g.valid(),
    ensures
        g.step(rolls).0.valid(),
{
    let head = g.next_head();
    let body = g.next_body();
    if !on_tail(body, head) {
        lemma_moved_body_valid(g, head, body);
        let ate = head == g.food;
        if ate {
            lemma_spawn_cell(g.dimensions, body, g.food, g.fruit, rolls.food_picks@);
        }
        if let Some(food) = (if ate {
            spawn_cell(g.dimensions, body, g.food, g.fruit, rolls.food_picks@)
        } else {
            Some(g.food)
        }) {
            if ate {
                lemma_free_cell_unoccupied(body, g.food, g.fruit, food);
            } else {
                assert(!body.contains(food));
            }
            if g.fruit is None && g.fruit_cooldown == 0 {
                lemma_spawn_cell(g.dimensions, body, food, None, rolls.fruit_picks@);
                if let Some(c) = spawn_cell(g.dimensions, body, food, None, rolls.fruit_picks@) {
                    lemma_free_cell_unoccupied(body, food, None, c);
                }
            }
            if let Some((cell, _)) = g.fruit {
                assert(!fruit_on(g.fruit, food));
                if head != cell {
                    assert(!body.contains(cell));
                }
            }
        }
    }
}

/// The body after a step that does not collide holds distinct cells of the
/// board: the new head and segments of the old body.
proof fn lemma_moved_body_valid(g: GameView, head: Cell, body: Seq<Cell>)
    requires
        g.valid(),
        head == g.next_head(),
        body == g.next_body(),
        !on_tail(body, head),
    ensures
        body.len() >= 1,
        body[0] == head,
        body.no_duplicates(),
        in_bounds(head, g.dimensions),
        forall|i: int| 0 <= i < body.len() ==> in_bounds(#[trigger] body[i], g.dimensions),
        forall|x: Cell| body.contains(x) ==> x == head || g.body.contains(x),
{
    lemma_movement_wraps(g.dimensions, g.body[0].0, g.body[0].1);
    assert(in_bounds(g.body[0], g.dimensions));
    assert forall|i: int| 1 <= i < body.len() implies #[trigger] body[i] == g.body[i - 1] by {}
    assert forall|i: int, j: int| 0 <= i < body.len() && 0 <= j < body.len() && i != j implies body[i]
        != body[j] by {
        if i == 0 {
            assert(body[j] != head);
        } else if j == 0 {
            assert(body[i] != head);
        } else {
            assert(g.body[i - 1] != g.body[j - 1]);
        }
    }
    assert forall|i: int| 0 <= i < body.len() implies in_bounds(#[trigger] body[i], g.dimensions) by {
        if i > 0 {
            assert(in_bounds(g.body[i - 1], g.dimensions));
        }
    }
    assert forall|x: Cell| body.contains(x) implies x == head || g.body.contains(x) by {
        let i = choose|i: int| 0 <= i < body.len() && body[i] == x;
        if i > 0 {
            assert(g.body[i - 1] == x);
        }
    }
}

/// The body after a move of the head onto `head`: the old body follows the
/// new head, without its last segment unless the snake grows.
fn moved_body(body: &Vec<Cell>, head: Cell, grow: bool) -> (r: Vec<Cell>)
    requires
        body@.len() >= 1,
    ensures
        r@ == if grow {
            seq![head] + body@
        } else {
            seq![head] + body@.drop_last()
        },
{
    let kept = if grow {
        body.len()
    } else {
        body.len() - 1
    };
    let mut r: Vec<Cell> = Vec::new();
    r.push(head);
    let mut i: usize = 0;
    while i < kept
        invariant
            kept <= body@.len(),
            i <= kept,
            r@ == seq![head] + body@.take(i as int),
        decreases kept - i,
    {
        r.push(body[i]);
        assert(body@.take(i + 1) =~= body@.take(i as int).push(body@[i as int]));
        assert(r@ =~= seq![head] + body@.take(i + 1));
        i = i + 1;
    }
    assert(body@.take(kept as int) =~= if grow {
        body@
    } else {
        body@.drop_last()
    });
    r
}

/// Whether a segment other than the head sits on `cell`.
fn tail_contains(body: &Vec<Cell>, cell: Cell) -> (r: bool)
    ensures
        r == on_tail(body@, cell),
{
    let mut i: usize = 1;
    while i < body.len()
        invariant
            1 <= i,
            forall|j: int| 1 <= j < i && j < body@.len() ==> body@[j] != cell,
        decreases body@.len() - i,
    {
        if same_cell(body[i], cell) {
            return true;
        }
        i = i + 1;
    }
    false
}

/// `score` plus `points`, capped at the largest `u32`.
fn add_points(score: u32, points: u64) -> (r: u32)
    requires
        points <= u32::MAX as u64 * 10,
    ensures
        r == saturate(score + points),
{
    let total = score as u64 + points;
    if total > u32::MAX as u64 {
        u32::MAX
    } else {
        total as u32
    }
}

/// A new fruit, placed by `picks` on a cell left free by the snake and the
/// food, with twice its distance to the head as its steps.
fn spawn_fruit(dims: Dimensions, body: &Vec<Cell>, food: Cell, picks: &[u64; 3]) -> (r: Option<
    Fruit,
>)
    requires
        items_in_bounds(dims, body@, food, None),
        body@.len() > 0,
    ensures
        r == match spawn_cell(dims, body@, food, None, picks@) {
            Some(c) => Some((c, (2 * manhattan(c, body@[0])) as u32)),
            None => None,
        },
{
    match element_spawn_candidate(dims, body, food, None, picks) {
        Some(cell) => {
            let distance = manhattan_distance(cell, body[0]);
            Some((cell, 2 * distance))
        },
        None => None,
    }
}

/// Nanoseconds between two steps at a difficulty in `1..=9`.
fn speed_for(difficulty: u16) -> (r: u64)
    requires
        1 <= difficulty <= 9,
    ensures
        r == step_interval(difficulty),
        r > 0,
{
    (350 - difficulty as u64 * 30) * NANOS_PER_MILLI
}

} // verus!
