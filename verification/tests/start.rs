use snake_game_rust::{
    Direction, GameState, Status, BLOCK_SIZE, COLS, INITIAL_LENGTH, MAX_SNAKE_LENGTH, ROWS,
};

#[test]
fn capacity_is_the_number_of_blocks() {
    assert_eq!(MAX_SNAKE_LENGTH, ROWS * COLS / (BLOCK_SIZE * BLOCK_SIZE));
    assert_eq!(MAX_SNAKE_LENGTH, 500);
    assert_eq!(INITIAL_LENGTH, 10);
}

#[test]
fn new_session_starts_in_the_middle() {
    let game = GameState::new();
    assert_eq!(game.snake[0], (ROWS as u16 / 2, COLS as u16 / 2));
    assert_eq!(game.snake[0], (12, 40));
    assert_eq!(game.length, 10);
    assert_eq!(game.direction, Direction::Right);
    assert_eq!(game.score, 0);
    assert_eq!(game.status, Status::Running);
    assert!(!game.is_over());
    assert_eq!(game.collision(), None);
    assert!(game.is_valid());
}

#[test]
fn new_session_parks_the_body_in_the_corner() {
    let game = GameState::new();
    let body = game.segments();
    assert_eq!(body.len(), 10);
    assert_eq!(body[0], (12, 40));
    for segment in &body[1..] {
        assert_eq!(*segment, (0, 0));
    }
}

#[test]
fn new_session_has_food_one_step_down_the_diagonal() {
    let game = GameState::new();
    assert_eq!(game.food, (1, 1));
    assert!(!game.is_snake_on_position(game.food));
}

#[test]
fn accessors_read_the_fields() {
    let mut game = GameState::new();
    game.score = 7;
    game.direction = Direction::Up;
    assert_eq!(game.head(), (12, 40));
    assert_eq!(game.length(), 10);
    assert_eq!(game.direction(), Direction::Up);
    assert_eq!(game.food(), (1, 1));
    assert_eq!(game.score(), 7);
}

#[test]
fn reset_gives_the_starting_state() {
    let mut game = GameState::new();
    game.update_direction(Direction::Down);
    assert!(game.is_valid());
    game.update();
    game.spawn_food();
    game.score = 3;
    game.reset();
    let fresh = GameState::new();
    assert_eq!(game.segments(), fresh.segments());
    assert_eq!(game.length, fresh.length);
    assert_eq!(game.direction, fresh.direction);
    assert_eq!(game.food, fresh.food);
    assert_eq!(game.score, 0);
    assert_eq!(game.status, Status::Running);
}

#[test]
fn opposite_turns_each_heading_round() {
    assert_eq!(Direction::Up.opposite(), Direction::Down);
    assert_eq!(Direction::Down.opposite(), Direction::Up);
    assert_eq!(Direction::Left.opposite(), Direction::Right);
    assert_eq!(Direction::Right.opposite(), Direction::Left);
}

#[test]
fn opposite_twice_is_the_heading_itself() {
    for d in [Direction::Up, Direction::Down, Direction::Left, Direction::Right] {
        assert_eq!(d.opposite().opposite(), d);
        assert_ne!(d.opposite(), d);
    }
}
