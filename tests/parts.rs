use snake_game::board::{decorate_with_walls, BoardPiece};
use snake_game::control::{key_direction, on_game_key, on_pause_key, outcome_signal, GameLoopSignal, Key};
use snake_game::direction::Direction;
use snake_game::game::{Game, GameMode, Outcome};
use snake_game::geometry::{manhattan_distance, next_position};
use snake_game::screen::{
    game_screen_starting_position, is_window_big_enough, menu_dimensions, menu_lines,
    pause_menu_origin,
};
use snake_game::snake::Snake;
use snake_game::spawner::element_spawn_candidate;

#[test]
fn opposite_directions() {
    assert_eq!(Direction::Up.opposite(), Direction::Down);
    assert_eq!(Direction::Down.opposite(), Direction::Up);
    assert_eq!(Direction::Left.opposite(), Direction::Right);
    assert_eq!(Direction::Right.opposite(), Direction::Left);
}

#[test]
fn manhattan_distance_values() {
    assert_eq!(manhattan_distance((0, 0), (0, 0)), 0);
    assert_eq!(manhattan_distance((1, 0), (0, 3)), 4);
    assert_eq!(manhattan_distance((7, 2), (3, 9)), 11);
    assert_eq!(manhattan_distance((0, 0), (65535, 65535)), 131070);
}

#[test]
fn next_position_wraps_at_every_edge() {
    let dims = (8, 16);
    assert_eq!(next_position((0, 4), Direction::Up, dims), (7, 4));
    assert_eq!(next_position((7, 5), Direction::Down, dims), (0, 5));
    assert_eq!(next_position((3, 0), Direction::Left, dims), (3, 15));
    assert_eq!(next_position((3, 15), Direction::Right, dims), (3, 0));
    assert_eq!(next_position((3, 4), Direction::Up, dims), (2, 4));
    assert_eq!(next_position((3, 4), Direction::Down, dims), (4, 4));
    assert_eq!(next_position((3, 4), Direction::Left, dims), (3, 3));
    assert_eq!(next_position((3, 4), Direction::Right, dims), (3, 5));
}

#[test]
fn snake_buffers_only_orthogonal_turns() {
    let mut snake = Snake::new(vec![(2, 2), (2, 1), (2, 0)], Direction::Right);
    snake.change_direction(Direction::Left);
    assert_eq!(snake.pending_direction(), None);
    snake.change_direction(Direction::Right);
    assert_eq!(snake.pending_direction(), None);
    snake.change_direction(Direction::Up);
    assert_eq!(snake.pending_direction(), Some(Direction::Up));
    snake.change_direction(Direction::Down);
    assert_eq!(snake.pending_direction(), Some(Direction::Down));
    assert_eq!(snake.direction, Direction::Right);
    assert_eq!(snake.upcoming_direction(), Direction::Down);
    assert_eq!(snake.next_direction(), Direction::Down);
    assert_eq!(snake.direction, Direction::Down);
    assert_eq!(snake.pending_direction(), None);
    assert_eq!(snake.next_direction(), Direction::Down);
    assert_eq!(snake.segments(), &vec![(2, 2), (2, 1), (2, 0)]);
}

#[test]
fn spawn_candidate_picks_farthest_sampled_cell() {
    let body = vec![(0, 0), (0, 1), (0, 2)];
    assert_eq!(element_spawn_candidate((3, 3), &body, (0, 0), None, &[0, 0, 0]), Some((1, 2)));
    assert_eq!(element_spawn_candidate((3, 3), &body, (0, 0), None, &[5, 0, 0]), Some((2, 2)));
    assert_eq!(element_spawn_candidate((3, 3), &body, (2, 2), None, &[5, 0, 0]), Some((1, 2)));
    assert_eq!(
        element_spawn_candidate((3, 3), &body, (0, 0), Some(((1, 2), 4)), &[0, 0, 0]),
        Some((2, 0))
    );
    assert_eq!(element_spawn_candidate((3, 3), &body, (0, 0), None, &[7, 7, 7]), Some((2, 2)));
}

#[test]
fn spawn_candidate_on_a_full_board() {
    let body = vec![(0, 0), (0, 1), (0, 2), (1, 2), (1, 1), (1, 0), (2, 0), (2, 1)];
    assert_eq!(element_spawn_candidate((3, 3), &body, (0, 0), None, &[9, 9, 9]), Some((2, 2)));
    assert_eq!(element_spawn_candidate((3, 3), &body, (2, 2), None, &[9, 9, 9]), None);
    assert_eq!(element_spawn_candidate((3, 3), &body, (0, 0), Some(((2, 2), 1)), &[0, 0, 0]), None);
}

#[test]
fn walls_surround_the_board() {
    let board = vec![vec![1, 2, 3], vec![4, 5, 6]];
    let walled = decorate_with_walls(&board, 0);
    assert_eq!(
        walled,
        vec![vec![0, 0, 0, 0, 0], vec![0, 1, 2, 3, 0], vec![0, 4, 5, 6, 0], vec![0, 0, 0, 0, 0]]
    );
    let pieces = Game::new_with_picks((3, 3), 1, &[0, 0, 0]).board_pieces();
    let walled = decorate_with_walls(&pieces, BoardPiece::Empty);
    assert_eq!(walled.len(), 5);
    assert_eq!(walled[1][1], BoardPiece::SnakeHead);
    assert_eq!(walled[2][3], BoardPiece::Food);
}

#[test]
fn window_size_checks() {
    let game = Game::new((8, 16), 5);
    assert!(is_window_big_enough(&game, (12, 20)));
    assert!(!is_window_big_enough(&game, (11, 20)));
    assert!(!is_window_big_enough(&game, (12, 19)));
    assert_eq!(game_screen_starting_position((24, 80), (8, 16)), (7, 31));
    assert_eq!(game_screen_starting_position((10, 18), (8, 16)), (0, 0));
}

#[test]
fn pause_menu_layout() {
    let lines = menu_lines();
    assert_eq!(lines, vec!["PAUSED", "", "<esc> - Resume game", "<q>   - Quit game"]);
    let dims = menu_dimensions(&lines);
    assert_eq!(dims, (10, 25));
    assert_eq!(pause_menu_origin((24, 80), dims), Some((7, 27)));
    assert_eq!(pause_menu_origin((10, 25), dims), Some((0, 0)));
    assert_eq!(pause_menu_origin((9, 80), dims), None);
    assert_eq!(pause_menu_origin((24, 24), dims), None);
}

#[test]
fn keys_map_to_directions() {
    assert_eq!(key_direction(Key::Up), Some(Direction::Up));
    assert_eq!(key_direction(Key::Char('k')), Some(Direction::Up));
    assert_eq!(key_direction(Key::Char('w')), Some(Direction::Up));
    assert_eq!(key_direction(Key::Down), Some(Direction::Down));
    assert_eq!(key_direction(Key::Char('j')), Some(Direction::Down));
    assert_eq!(key_direction(Key::Char('s')), Some(Direction::Down));
    assert_eq!(key_direction(Key::Left), Some(Direction::Left));
    assert_eq!(key_direction(Key::Char('h')), Some(Direction::Left));
    assert_eq!(key_direction(Key::Char('a')), Some(Direction::Left));
    assert_eq!(key_direction(Key::Right), Some(Direction::Right));
    assert_eq!(key_direction(Key::Char('l')), Some(Direction::Right));
    assert_eq!(key_direction(Key::Char('d')), Some(Direction::Right));
    assert_eq!(key_direction(Key::Char('q')), None);
    assert_eq!(key_direction(Key::Esc), None);
    assert_eq!(key_direction(Key::Other), None);
}

#[test]
fn game_keys_turn_and_pause() {
    let mut game = Game::new((8, 16), 5);
    on_game_key(&mut game, Key::Char('d'));
    assert_eq!(game.snake().pending_direction(), Some(Direction::Right));
    on_game_key(&mut game, Key::Char('q'));
    assert_eq!(game.mode(), GameMode::Game);
    on_game_key(&mut game, Key::Esc);
    assert_eq!(game.mode(), GameMode::Pause);
}

#[test]
fn pause_keys_resume_and_quit() {
    let mut game = Game::new((8, 16), 5);
    game.pause_game();
    assert_eq!(on_pause_key(&mut game, Key::Up), GameLoopSignal::Continue);
    assert_eq!(game.mode(), GameMode::Pause);
    assert_eq!(on_pause_key(&mut game, Key::Char('q')), GameLoopSignal::Exit);
    assert_eq!(on_pause_key(&mut game, Key::Char('x')), GameLoopSignal::Exit);
    assert_eq!(on_pause_key(&mut game, Key::Esc), GameLoopSignal::Continue);
    assert_eq!(game.mode(), GameMode::Game);
}

#[test]
fn failed_steps_end_the_run() {
    assert_eq!(outcome_signal(Outcome::Continue), GameLoopSignal::Continue);
    assert_eq!(outcome_signal(Outcome::Collision), GameLoopSignal::GameOver);
    assert_eq!(outcome_signal(Outcome::BoardFull), GameLoopSignal::GameOver);
}
