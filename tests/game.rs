use snake_game::board::BoardPiece;
use snake_game::direction::Direction;
use snake_game::game::{Game, GameMode, Outcome, NANOS_PER_MILLI};
use snake_game::geometry::Cell;
use snake_game::rolls::Rolls;

const STEP_AT_FIVE: u64 = 200 * NANOS_PER_MILLI;

fn fixed_rolls() -> Rolls {
    Rolls { food_picks: [0, 0, 0], fruit_picks: [0, 0, 0], fruit_cooldown: 30 }
}

fn body_of(game: &Game) -> Vec<Cell> {
    game.snake().segments().clone()
}

fn step(game: &mut Game) -> Outcome {
    game.tick_with(game.speed(), &fixed_rolls())
}

#[test]
fn new_game_has_three_distinct_segments_and_free_food() {
    for _ in 0..20 {
        let game = Game::new((8, 16), 5);
        let body = body_of(&game);
        assert_eq!(body, vec![(0, 0), (0, 1), (0, 2)]);
        assert!(!body.contains(&game.food()));
        assert!(game.food().0 < 8 && game.food().1 < 16);
        assert_eq!(game.score(), 0);
        assert_eq!(game.fruit(), None);
        assert_eq!(game.mode(), GameMode::Game);
        assert_eq!(game.snake().direction, Direction::Down);
    }
}

#[test]
fn new_game_on_smallest_board() {
    let game = Game::new((3, 3), 1);
    let body = body_of(&game);
    assert_eq!(body.len(), 3);
    assert!(!body.contains(&game.food()));
    assert!(game.food().0 >= 1 && game.food().0 < 3);
}

#[test]
fn speed_follows_difficulty() {
    assert_eq!(Game::new((8, 16), 5).speed(), STEP_AT_FIVE);
    assert_eq!(Game::new((8, 16), 1).speed(), 320 * NANOS_PER_MILLI);
    assert_eq!(Game::new((8, 16), 9).speed(), 80 * NANOS_PER_MILLI);
}

#[test]
fn difficulty_is_clamped() {
    let low = Game::new((8, 16), 0);
    assert_eq!(low.difficulty(), 1);
    assert_eq!(low.speed(), 320 * NANOS_PER_MILLI);
    let high = Game::new((8, 16), 40);
    assert_eq!(high.difficulty(), 9);
    assert_eq!(high.speed(), 80 * NANOS_PER_MILLI);
}

#[test]
fn food_goes_to_the_farthest_sampled_cell() {
    let game = Game::new_with_picks((8, 16), 5, &[0, 0, 0]);
    assert_eq!(game.food(), (0, 5));
    let game = Game::new_with_picks((3, 3), 5, &[0, 0, 0]);
    assert_eq!(game.food(), (1, 2));
}

#[test]
fn first_step_moves_down_and_drops_the_tail() {
    let mut game = Game::new_with_picks((8, 16), 5, &[0, 0, 0]);
    assert_eq!(game.tick_with(STEP_AT_FIVE, &fixed_rolls()), Outcome::Continue);
    assert_eq!(body_of(&game), vec![(1, 0), (0, 0), (0, 1)]);
    assert_eq!(game.score(), 0);
}

#[test]
fn first_step_with_random_food() {
    let mut game = Game::new((8, 16), 5);
    assert_eq!(game.tick(STEP_AT_FIVE), Outcome::Continue);
    assert_eq!(body_of(&game), vec![(1, 0), (0, 0), (0, 1)]);
}

#[test]
fn head_wraps_from_last_row_to_first() {
    let mut game = Game::new_with_picks((8, 16), 5, &[0, 0, 0]);
    for _ in 0..7 {
        assert_eq!(step(&mut game), Outcome::Continue);
    }
    game.change_direction(Direction::Right);
    for _ in 0..5 {
        assert_eq!(step(&mut game), Outcome::Continue);
    }
    game.change_direction(Direction::Down);
    assert_eq!(body_of(&game)[0], (7, 5));
    assert_eq!(step(&mut game), Outcome::Continue);
    assert_eq!(body_of(&game)[0], (0, 5));
}

#[test]
fn head_wraps_from_first_column_to_last() {
    let mut game = Game::new_with_picks((8, 16), 5, &[0, 0, 0]);
    assert_eq!(step(&mut game), Outcome::Continue);
    game.change_direction(Direction::Left);
    assert_eq!(step(&mut game), Outcome::Continue);
    assert_eq!(body_of(&game)[0], (1, 15));
}

#[test]
fn eating_food_scores_difficulty_and_grows_next_step() {
    let mut game = Game::new_with_picks((3, 3), 5, &[0, 0, 0]);
    assert_eq!(game.food(), (1, 2));
    assert_eq!(step(&mut game), Outcome::Continue);
    game.change_direction(Direction::Right);
    assert_eq!(step(&mut game), Outcome::Continue);
    assert_eq!(game.score(), 0);
    assert_eq!(step(&mut game), Outcome::Continue);
    assert_eq!(body_of(&game), vec![(1, 2), (1, 1), (1, 0)]);
    assert_eq!(game.score(), 5);
    assert_eq!(game.food(), (0, 0));
    game.change_direction(Direction::Down);
    assert_eq!(step(&mut game), Outcome::Continue);
    assert_eq!(body_of(&game), vec![(2, 2), (1, 2), (1, 1), (1, 0)]);
    assert_eq!(game.score(), 5);
}

#[test]
fn running_into_the_body_is_a_collision_that_changes_nothing() {
    let mut game = Game::new_with_picks((3, 3), 5, &[0, 0, 0]);
    assert_eq!(step(&mut game), Outcome::Continue);
    game.change_direction(Direction::Right);
    assert_eq!(step(&mut game), Outcome::Continue);
    assert_eq!(step(&mut game), Outcome::Continue);
    let body = body_of(&game);
    let score = game.score();
    assert_eq!(body, vec![(1, 2), (1, 1), (1, 0)]);
    assert_eq!(step(&mut game), Outcome::Collision);
    assert_eq!(body_of(&game), body);
    assert_eq!(game.score(), score);
    assert_eq!(step(&mut game), Outcome::Collision);
    assert_eq!(body_of(&game), body);
}

#[test]
fn reversal_requests_are_ignored() {
    let mut game = Game::new_with_picks((8, 16), 5, &[0, 0, 0]);
    game.change_direction(Direction::Up);
    assert_eq!(game.snake().pending_direction(), None);
    assert_eq!(step(&mut game), Outcome::Continue);
    assert_eq!(body_of(&game)[0], (1, 0));
    assert_eq!(game.snake().direction, Direction::Down);
    game.change_direction(Direction::Down);
    assert_eq!(game.snake().pending_direction(), None);
    game.change_direction(Direction::Right);
    assert_eq!(game.snake().pending_direction(), Some(Direction::Right));
    assert_eq!(game.snake().direction, Direction::Down);
    assert_eq!(step(&mut game), Outcome::Continue);
    assert_eq!(game.snake().direction, Direction::Right);
    game.change_direction(Direction::Left);
    assert_eq!(game.snake().pending_direction(), None);
    assert_eq!(step(&mut game), Outcome::Continue);
    assert_eq!(body_of(&game)[0], (1, 2));
}

#[test]
fn ticks_below_the_interval_do_not_step() {
    let mut game = Game::new_with_picks((8, 16), 5, &[0, 0, 0]);
    let start = body_of(&game);
    let rolls = fixed_rolls();
    assert_eq!(game.tick_with(100 * NANOS_PER_MILLI, &rolls), Outcome::Continue);
    assert_eq!(game.tick_with(99 * NANOS_PER_MILLI, &rolls), Outcome::Continue);
    assert_eq!(game.tick_with(0, &rolls), Outcome::Continue);
    assert_eq!(body_of(&game), start);
    assert_eq!(game.tick_with(NANOS_PER_MILLI, &rolls), Outcome::Continue);
    assert_eq!(body_of(&game), vec![(1, 0), (0, 0), (0, 1)]);
    assert_eq!(game.tick_with(199 * NANOS_PER_MILLI, &rolls), Outcome::Continue);
    assert_eq!(body_of(&game), vec![(1, 0), (0, 0), (0, 1)]);
    assert_eq!(game.tick_with(NANOS_PER_MILLI, &rolls), Outcome::Continue);
    assert_eq!(body_of(&game), vec![(2, 0), (1, 0), (0, 0)]);
}

#[test]
fn zero_delta_never_steps() {
    let mut game = Game::new((8, 16), 9);
    for _ in 0..1000 {
        assert_eq!(game.tick(0), Outcome::Continue);
    }
    assert_eq!(body_of(&game), vec![(0, 0), (0, 1), (0, 2)]);
}

#[test]
fn paused_game_does_not_move() {
    let mut game = Game::new_with_picks((8, 16), 5, &[0, 0, 0]);
    game.pause_game();
    assert_eq!(game.mode(), GameMode::Pause);
    assert_eq!(game.tick_with(10 * STEP_AT_FIVE, &fixed_rolls()), Outcome::Continue);
    assert_eq!(body_of(&game), vec![(0, 0), (0, 1), (0, 2)]);
    game.unpause_game();
    assert_eq!(game.mode(), GameMode::Game);
    assert_eq!(game.tick_with(STEP_AT_FIVE, &fixed_rolls()), Outcome::Continue);
    assert_eq!(body_of(&game), vec![(1, 0), (0, 0), (0, 1)]);
}

#[test]
fn fruit_appears_counts_down_and_expires() {
    let mut game = Game::new_with_picks((8, 16), 5, &[0, 0, 0]);
    for _ in 0..120 {
        assert_eq!(step(&mut game), Outcome::Continue);
        assert_eq!(game.fruit(), None);
    }
    assert_eq!(step(&mut game), Outcome::Continue);
    assert_eq!(body_of(&game)[0], (1, 0));
    assert_eq!(game.fruit(), Some(((0, 3), 8)));
    for left in (0..8).rev() {
        assert_eq!(step(&mut game), Outcome::Continue);
        assert_eq!(game.fruit(), Some(((0, 3), left)));
    }
    assert_eq!(step(&mut game), Outcome::Continue);
    assert_eq!(game.fruit(), None);
    assert_eq!(game.score(), 0);
    for _ in 0..30 {
        assert_eq!(step(&mut game), Outcome::Continue);
        assert_eq!(game.fruit(), None);
    }
    assert_eq!(step(&mut game), Outcome::Continue);
    assert!(game.fruit().is_some());
}

#[test]
fn eating_fruit_scores_its_remaining_steps() {
    let mut game = Game::new_with_picks((8, 16), 5, &[0, 0, 0]);
    for _ in 0..121 {
        assert_eq!(step(&mut game), Outcome::Continue);
    }
    assert_eq!(game.fruit(), Some(((0, 3), 8)));
    game.change_direction(Direction::Right);
    for _ in 0..3 {
        assert_eq!(step(&mut game), Outcome::Continue);
    }
    assert_eq!(body_of(&game)[0], (1, 3));
    assert_eq!(game.fruit(), Some(((0, 3), 5)));
    game.change_direction(Direction::Up);
    assert_eq!(step(&mut game), Outcome::Continue);
    assert_eq!(body_of(&game)[0], (0, 3));
    assert_eq!(game.score(), 25);
    assert_eq!(game.fruit(), None);
    game.change_direction(Direction::Right);
    assert_eq!(step(&mut game), Outcome::Continue);
    assert_eq!(body_of(&game).len(), 4);
}

#[test]
fn board_pieces_show_snake_and_food() {
    let game = Game::new_with_picks((8, 16), 5, &[0, 0, 0]);
    let pieces = game.board_pieces();
    assert_eq!(pieces.len(), 8);
    assert!(pieces.iter().all(|row| row.len() == 16));
    assert_eq!(pieces[0][0], BoardPiece::SnakeHead);
    assert_eq!(pieces[0][1], BoardPiece::Snake);
    assert_eq!(pieces[0][2], BoardPiece::Snake);
    assert_eq!(pieces[0][5], BoardPiece::Food);
    let empty = pieces.iter().flatten().filter(|p| **p == BoardPiece::Empty).count();
    assert_eq!(empty, 8 * 16 - 4);
}

#[test]
fn random_draws_vary() {
    let draws: Vec<Rolls> = (0..20).map(|_| Rolls::draw()).collect();
    assert!(draws.iter().all(|r| (30..180).contains(&r.fruit_cooldown)));
    assert!(draws.iter().any(|r| r.food_picks[0] != 0));
    assert!(draws.iter().any(|r| r.fruit_picks != draws[0].fruit_picks));
}
