use snake::game::{
    delay_for_length, generate_apple, new_position, new_snake, sample_free_cell, snake_contains,
    Action, Direction, GameSettings, GameState, ObjectCoordinate, WallBehaviour, MAX_DELAY_MS,
};
use std::collections::VecDeque;

fn coord(x: i8, y: i8) -> ObjectCoordinate {
    ObjectCoordinate { x, y }
}

fn board8(wall: WallBehaviour) -> GameSettings {
    GameSettings { wall_behaviour: wall, size: [8, 8] }
}

fn deque(cells: &[(i8, i8)]) -> VecDeque<ObjectCoordinate> {
    cells.iter().map(|&(x, y)| coord(x, y)).collect()
}

fn live_state(
    apple: (i8, i8),
    cells: &[(i8, i8)],
    direction: Direction,
    next_step: Option<u64>,
    settings: GameSettings,
) -> GameState {
    GameState::GameState {
        apple: coord(apple.0, apple.1),
        snake: deque(cells),
        direction,
        next_step,
        settings,
    }
}

#[test]
fn add_direction_moves_one_cell() {
    let c = coord(4, 4);
    assert_eq!(c.add_direction(Direction::UP), coord(4, 3));
    assert_eq!(c.add_direction(Direction::DOWN), coord(4, 5));
    assert_eq!(c.add_direction(Direction::LEFT), coord(3, 4));
    assert_eq!(c.add_direction(Direction::RIGHT), coord(5, 4));
}

#[test]
fn elapsed_tick_moves_head_and_drops_tail() {
    let settings = board8(WallBehaviour::Death);
    let mut state = live_state((0, 0), &[(4, 4), (4, 5), (4, 6)], Direction::UP, Some(5), settings);
    state.step_time(10);
    match state {
        GameState::GameState { apple, snake, direction, next_step, .. } => {
            assert_eq!(snake, deque(&[(4, 3), (4, 4), (4, 5)]));
            assert_eq!(apple, coord(0, 0));
            assert_eq!(direction, Direction::UP);
            // delay for length 3 on an 8x8 board: 250 - 250*3/64 = 239
            assert_eq!(next_step, Some(10 + 239));
        }
        GameState::GameOver { .. } => panic!("the game should still be live"),
    }
}

#[test]
fn death_policy_ends_game_at_wall() {
    let settings = board8(WallBehaviour::Death);
    let mut state = live_state((7, 7), &[(0, 4), (1, 4), (2, 4)], Direction::LEFT, Some(5), settings);
    state.step_time(10);
    match state {
        GameState::GameOver { score, settings } => {
            assert_eq!(score, 3);
            assert_eq!(settings.size, [8, 8]);
        }
        GameState::GameState { .. } => panic!("the game should have ended at the wall"),
    }
}

#[test]
fn loop_policy_wraps_at_wall() {
    let settings = board8(WallBehaviour::Loop);
    let mut state = live_state((7, 7), &[(0, 4), (1, 4), (2, 4)], Direction::LEFT, Some(5), settings);
    state.step_time(10);
    match state {
        GameState::GameState { snake, .. } => {
            assert_eq!(snake, deque(&[(7, 4), (0, 4), (1, 4)]));
        }
        GameState::GameOver { .. } => panic!("the loop policy should wrap, not kill"),
    }
}

#[test]
fn eating_grows_by_one_and_resamples_apple() {
    let settings = board8(WallBehaviour::Death);
    let mut state = live_state((4, 3), &[(4, 4), (4, 5), (4, 6)], Direction::UP, Some(5), settings);
    state.step_time(10);
    match state {
        GameState::GameState { apple, snake, next_step, .. } => {
            assert_eq!(snake, deque(&[(4, 3), (4, 4), (4, 5), (4, 6)]));
            assert!(0 <= apple.x && apple.x < 8 && 0 <= apple.y && apple.y < 8);
            assert!(!snake.contains(&apple));
            // delay for length 4 on an 8x8 board: 250 - 250*4/64 = 235
            assert_eq!(next_step, Some(10 + 235));
        }
        GameState::GameOver { .. } => panic!("eating should keep the game live"),
    }
}

#[test]
fn self_collision_ends_game() {
    let settings = board8(WallBehaviour::Death);
    // the head turns straight into the segment behind it
    let mut state = live_state((0, 0), &[(4, 4), (4, 5), (4, 6)], Direction::DOWN, Some(5), settings);
    state.step_time(10);
    match state {
        GameState::GameOver { score, .. } => assert_eq!(score, 3),
        GameState::GameState { .. } => panic!("running into the body should end the game"),
    }
}

#[test]
fn first_tick_primes_deadline_without_moving() {
    let settings = board8(WallBehaviour::Death);
    let mut state = live_state((0, 0), &[(4, 4), (4, 5), (4, 6)], Direction::UP, None, settings);
    state.step_time(100);
    match state {
        GameState::GameState { snake, next_step, .. } => {
            assert_eq!(snake, deque(&[(4, 4), (4, 5), (4, 6)]));
            assert_eq!(next_step, Some(100 + 239));
        }
        GameState::GameOver { .. } => panic!("a priming tick never ends the game"),
    }
}

#[test]
fn tick_before_deadline_changes_nothing_twice() {
    let settings = board8(WallBehaviour::Death);
    let mut state = live_state((0, 0), &[(4, 4), (4, 5), (4, 6)], Direction::UP, Some(1000), settings);
    for _ in 0..2 {
        state.step_time(500);
        match &state {
            GameState::GameState { apple, snake, direction, next_step, .. } => {
                assert_eq!(*apple, coord(0, 0));
                assert_eq!(*snake, deque(&[(4, 4), (4, 5), (4, 6)]));
                assert_eq!(*direction, Direction::UP);
                assert_eq!(*next_step, Some(1000));
            }
            GameState::GameOver { .. } => panic!("an early tick never ends the game"),
        }
    }
}

#[test]
fn eating_the_last_free_cell_wins_and_ends_game() {
    let settings = GameSettings { wall_behaviour: WallBehaviour::Death, size: [2, 2] };
    let mut state = live_state((1, 0), &[(0, 0), (0, 1), (1, 1)], Direction::RIGHT, Some(5), settings);
    state.step_time(10);
    match state {
        GameState::GameOver { score, .. } => assert_eq!(score, 4),
        GameState::GameState { .. } => panic!("a full board should end the game"),
    }
}

#[test]
fn finished_game_ignores_ticks() {
    let settings = board8(WallBehaviour::Death);
    let mut state = GameState::GameOver { score: 7, settings };
    state.step_time(10_000);
    match state {
        GameState::GameOver { score, .. } => assert_eq!(score, 7),
        GameState::GameState { .. } => panic!("a finished game never comes back by ticking"),
    }
}

#[test]
fn perform_changes_pending_direction() {
    let settings = board8(WallBehaviour::Death);
    let mut state = live_state((0, 0), &[(4, 4), (4, 5), (4, 6)], Direction::UP, Some(5), settings);
    state.perform(Action::LEFT);
    match state {
        GameState::GameState { direction, snake, .. } => {
            assert_eq!(direction, Direction::LEFT);
            assert_eq!(snake, deque(&[(4, 4), (4, 5), (4, 6)]));
        }
        GameState::GameOver { .. } => panic!("a direction change never ends the game"),
    }
}

#[test]
fn perform_is_ignored_when_over() {
    let settings = board8(WallBehaviour::Death);
    let mut state = GameState::GameOver { score: 3, settings };
    state.perform(Action::DOWN);
    match state {
        GameState::GameOver { score, .. } => assert_eq!(score, 3),
        GameState::GameState { .. } => panic!("a finished game ignores input"),
    }
}

#[test]
fn delay_has_exact_values_and_clamps_at_zero() {
    let settings = board8(WallBehaviour::Death);
    assert_eq!(delay_for_length(0, &settings), MAX_DELAY_MS);
    assert_eq!(delay_for_length(3, &settings), 239);
    assert_eq!(delay_for_length(32, &settings), 125);
    assert_eq!(delay_for_length(64, &settings), 0);
    assert_eq!(delay_for_length(1000, &settings), 0);
}

#[test]
fn delay_never_increases_with_length() {
    let settings = GameSettings { wall_behaviour: WallBehaviour::Loop, size: [13, 9] };
    let mut previous = delay_for_length(0, &settings);
    for length in 1..200u32 {
        let current = delay_for_length(length, &settings);
        assert!(current <= previous);
        previous = current;
    }
}

#[test]
fn new_snake_sits_at_board_center() {
    let settings = board8(WallBehaviour::Death);
    assert_eq!(new_snake(&settings), deque(&[(4, 4), (4, 5), (4, 6)]));
    let odd = GameSettings { wall_behaviour: WallBehaviour::Death, size: [9, 7] };
    assert_eq!(new_snake(&odd), deque(&[(4, 3), (4, 4), (4, 5)]));
}

#[test]
fn new_position_respects_both_policies() {
    let death = board8(WallBehaviour::Death);
    let wrap = board8(WallBehaviour::Loop);
    assert_eq!(new_position(coord(4, 4), Direction::UP, &death), Some(coord(4, 3)));
    assert_eq!(new_position(coord(0, 4), Direction::LEFT, &death), None);
    assert_eq!(new_position(coord(4, 0), Direction::UP, &death), None);
    assert_eq!(new_position(coord(7, 4), Direction::RIGHT, &death), None);
    assert_eq!(new_position(coord(4, 7), Direction::DOWN, &death), None);
    assert_eq!(new_position(coord(0, 4), Direction::LEFT, &wrap), Some(coord(7, 4)));
    assert_eq!(new_position(coord(4, 0), Direction::UP, &wrap), Some(coord(4, 7)));
    assert_eq!(new_position(coord(7, 4), Direction::RIGHT, &wrap), Some(coord(0, 4)));
    assert_eq!(new_position(coord(4, 7), Direction::DOWN, &wrap), Some(coord(4, 0)));
}

#[test]
fn generate_apple_stays_on_board() {
    let settings = board8(WallBehaviour::Death);
    for _ in 0..200 {
        let apple = generate_apple(&settings);
        assert!(0 <= apple.x && apple.x < 8 && 0 <= apple.y && apple.y < 8);
    }
    // on a one-cell board the only possible draw is the origin
    let tiny = GameSettings { wall_behaviour: WallBehaviour::Death, size: [1, 1] };
    assert_eq!(generate_apple(&tiny), coord(0, 0));
}

#[test]
fn snake_contains_finds_segments() {
    let snake = deque(&[(4, 4), (4, 5), (4, 6)]);
    assert!(snake_contains(&snake, coord(4, 5)));
    assert!(!snake_contains(&snake, coord(5, 4)));
    assert!(!snake_contains(&VecDeque::new(), coord(0, 0)));
}

#[test]
fn sample_free_cell_avoids_snake_and_detects_full_boards() {
    let tiny = GameSettings { wall_behaviour: WallBehaviour::Death, size: [2, 2] };
    let full = deque(&[(0, 0), (1, 0), (0, 1), (1, 1)]);
    assert_eq!(sample_free_cell(&tiny, &full), None);
    let almost = deque(&[(0, 0), (1, 0), (0, 1)]);
    assert_eq!(sample_free_cell(&tiny, &almost), Some(coord(1, 1)));
    let settings = board8(WallBehaviour::Death);
    let snake = deque(&[(4, 4), (4, 5), (4, 6)]);
    for _ in 0..50 {
        let cell = sample_free_cell(&settings, &snake).expect("an 8x8 board has free cells");
        assert!(0 <= cell.x && cell.x < 8 && 0 <= cell.y && cell.y < 8);
        assert!(!snake.contains(&cell));
    }
}

#[test]
fn new_game_starts_live_with_free_apple() {
    let settings = board8(WallBehaviour::Death);
    match GameState::new(settings) {
        GameState::GameState { apple, snake, direction, next_step, settings } => {
            assert_eq!(snake, deque(&[(4, 4), (4, 5), (4, 6)]));
            assert_eq!(direction, Direction::UP);
            assert_eq!(next_step, None);
            assert_eq!(settings.size, [8, 8]);
            assert!(0 <= apple.x && apple.x < 8 && 0 <= apple.y && apple.y < 8);
            assert!(!snake.contains(&apple));
        }
        GameState::GameOver { .. } => panic!("a fresh game starts live"),
    }
}

#[test]
fn default_settings_are_a_death_walled_square() {
    let settings = GameSettings::default();
    assert_eq!(settings.size, [32, 32]);
    assert_eq!(settings.wall_behaviour, WallBehaviour::Death);
    assert_eq!(WallBehaviour::default(), WallBehaviour::Death);
}

#[test]
fn wall_behaviour_names() {
    assert_eq!(WallBehaviour::Death.name(), "Death");
    assert_eq!(WallBehaviour::Loop.name(), "Loop");
}

#[test]
fn played_game_keeps_distinct_segments() {
    // drive a fresh game through a few elapsed ticks and watch the invariant
    let settings = GameSettings { wall_behaviour: WallBehaviour::Loop, size: [8, 8] };
    let mut state = GameState::new(settings);
    let mut now: u64 = 0;
    for _ in 0..20 {
        now += MAX_DELAY_MS;
        state.step_time(now);
        if let GameState::GameState { ref snake, .. } = state {
            for i in 0..snake.len() {
                for j in 0..i {
                    assert_ne!(snake[i], snake[j]);
                }
            }
        }
    }
}
