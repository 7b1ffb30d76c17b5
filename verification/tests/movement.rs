use snake_game_rust::grid::{is_aligned, is_in_grid, next_probe, step};
use snake_game_rust::{Collision, Direction, GameState, Position, Status};

fn game_with(segments: &[Position], direction: Direction, food: Position) -> GameState {
    let mut game = GameState::new();
    for (i, segment) in segments.iter().enumerate() {
        game.snake[i] = *segment;
    }
    game.length = segments.len();
    game.direction = direction;
    game.food = food;
    assert!(game.is_valid());
    game
}

#[test]
fn step_moves_by_one_block() {
    assert_eq!(step((12, 40), Direction::Up), (10, 40));
    assert_eq!(step((12, 40), Direction::Down), (14, 40));
    assert_eq!(step((12, 40), Direction::Left), (12, 38));
    assert_eq!(step((12, 40), Direction::Right), (12, 42));
}

#[test]
fn step_wraps_below_zero() {
    assert_eq!(step((0, 6), Direction::Up), (65534, 6));
    assert_eq!(step((6, 0), Direction::Left), (6, 65534));
    assert_eq!(step((1, 6), Direction::Up), (65535, 6));
}

#[test]
fn step_wraps_above_the_largest_coordinate() {
    assert_eq!(step((65535, 6), Direction::Down), (1, 6));
    assert_eq!(step((6, 65534), Direction::Right), (6, 0));
}

#[test]
fn grid_bounds_are_exclusive() {
    assert!(is_in_grid((0, 0)));
    assert!(is_in_grid((24, 79)));
    assert!(!is_in_grid((25, 0)));
    assert!(!is_in_grid((0, 80)));
    assert!(!is_in_grid((65534, 0)));
}

#[test]
fn lattice_cells_have_even_coordinates() {
    assert!(is_aligned((0, 0)));
    assert!(is_aligned((12, 40)));
    assert!(!is_aligned((12, 41)));
    assert!(!is_aligned((13, 40)));
    assert!(is_aligned((65534, 2)));
}

#[test]
fn probe_walks_down_the_diagonal_and_folds_back() {
    assert_eq!(next_probe((0, 0)), (1, 1));
    assert_eq!(next_probe((24, 10)), (0, 11));
    assert_eq!(next_probe((10, 79)), (11, 0));
    assert_eq!(next_probe((24, 79)), (0, 0));
}

#[test]
fn plain_step_to_the_right() {
    let mut game = GameState::new();
    game.update();
    assert_eq!(game.snake[0], (12, 42));
    assert_eq!(game.length, 10);
    assert_eq!(game.score, 0);
    assert_eq!(game.status, Status::Running);
    assert_eq!(game.food, (1, 1));
    assert_eq!(game.direction, Direction::Right);
}

#[test]
fn body_follows_the_head() {
    let mut game = game_with(
        &[(12, 40), (12, 38), (12, 36), (12, 34)],
        Direction::Down,
        (1, 1),
    );
    game.update();
    assert_eq!(game.segments(), vec![(14, 40), (12, 40), (12, 38), (12, 36)]);
    game.update_direction(Direction::Left);
    game.update();
    assert_eq!(game.segments(), vec![(14, 38), (14, 40), (12, 40), (12, 38)]);
    assert_eq!(game.status, Status::Running);
}

#[test]
fn plain_steps_in_all_directions() {
    let cases = [
        (Direction::Up, (10, 40)),
        (Direction::Down, (14, 40)),
        (Direction::Left, (12, 38)),
        (Direction::Right, (12, 42)),
    ];
    for (direction, expected) in cases {
        let mut game = game_with(&[(12, 40)], direction, (1, 1));
        game.update();
        assert_eq!(game.snake[0], expected);
        assert_eq!(game.length, 1);
        assert_eq!(game.status, Status::Running);
    }
}

#[test]
fn right_wall_ends_the_session() {
    let mut game = game_with(&[(12, 78), (12, 76)], Direction::Right, (1, 1));
    game.update();
    assert_eq!(game.status, Status::Over(Collision::Wall));
    assert!(game.is_over());
    assert_eq!(game.collision(), Some(Collision::Wall));
    assert_eq!(game.score, 0);
    assert_eq!(game.length, 2);
    assert_eq!(game.segments(), vec![(12, 80), (12, 78)]);
}

#[test]
fn bottom_wall_ends_the_session() {
    let mut game = game_with(&[(24, 40), (22, 40)], Direction::Down, (1, 1));
    game.update();
    assert_eq!(game.status, Status::Over(Collision::Wall));
    assert_eq!(game.snake[0], (26, 40));
}

#[test]
fn top_wall_is_found_by_wrapping() {
    let mut game = game_with(&[(0, 40), (2, 40)], Direction::Up, (1, 1));
    game.update();
    assert_eq!(game.status, Status::Over(Collision::Wall));
    assert_eq!(game.snake[0], (65534, 40));
    assert!(game.is_valid());
}

#[test]
fn left_wall_is_found_by_wrapping() {
    let mut game = game_with(&[(12, 0), (12, 2)], Direction::Left, (1, 1));
    game.update();
    assert_eq!(game.status, Status::Over(Collision::Wall));
    assert_eq!(game.snake[0], (12, 65534));
}

#[test]
fn last_cell_before_the_wall_is_still_inside() {
    let mut game = game_with(&[(12, 76)], Direction::Right, (1, 1));
    game.update();
    assert_eq!(game.status, Status::Running);
    assert_eq!(game.snake[0], (12, 78));
    game.update();
    assert_eq!(game.status, Status::Over(Collision::Wall));
}

#[test]
fn new_session_reaches_the_right_wall_after_twenty_ticks() {
    let mut game = GameState::new();
    for _ in 0..19 {
        game.update();
        assert_eq!(game.status, Status::Running);
    }
    assert_eq!(game.snake[0], (12, 78));
    game.update();
    assert_eq!(game.status, Status::Over(Collision::Wall));
}

#[test]
fn direction_is_overwritten_whatever_it_was() {
    let all = [Direction::Up, Direction::Down, Direction::Left, Direction::Right];
    for before in all {
        for after in all {
            let mut game = GameState::new();
            game.direction = before;
            game.update_direction(after);
            assert_eq!(game.direction(), after);
            assert_eq!(game.direction, after);
        }
    }
}

#[test]
fn direction_change_touches_nothing_else() {
    let mut game = GameState::new();
    game.update_direction(Direction::Left);
    assert_eq!(game.direction, Direction::Left);
    assert_eq!(game.segments(), GameState::new().segments());
    assert_eq!(game.food, (1, 1));
    assert_eq!(game.score, 0);
    assert_eq!(game.status, Status::Running);
}

#[test]
fn reversal_is_accepted_and_runs_into_the_neck() {
    let mut game = game_with(
        &[(12, 40), (12, 38), (12, 36), (12, 34)],
        Direction::Right,
        (1, 1),
    );
    game.update_direction(Direction::Right.opposite());
    assert_eq!(game.direction, Direction::Left);
    game.update();
    assert_eq!(game.status, Status::Over(Collision::Body));
}

#[test]
fn direction_can_be_set_after_the_end() {
    let mut game = game_with(&[(12, 78)], Direction::Right, (1, 1));
    game.update();
    assert!(game.is_over());
    game.update_direction(Direction::Up);
    assert_eq!(game.direction(), Direction::Up);
    game.update();
    assert_eq!(game.snake[0], (12, 80));
    assert_eq!(game.status, Status::Over(Collision::Wall));
}
