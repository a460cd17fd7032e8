use snake_evolution::direction::Direction;
use snake_evolution::game::Game;
use snake_evolution::position::Position;
use std::collections::VecDeque;

fn game_with_food_at_origin(size: isize) -> Game {
    let mut game = Game::new(size);
    game.set_food(Position { x: 0, y: 0 });
    game
}

#[test]
fn test_initial_snake_placement() {
    let game = Game::new(10);
    assert_eq!(*game.snake(), VecDeque::from([Position { x: 5, y: 5 }]));

    let game = Game::new(3);
    assert_eq!(*game.snake(), VecDeque::from([Position { x: 1, y: 1 }]));
}

#[test]
fn test_initial_food_placement() {
    let size = 3;
    let game = Game::new(size);
    assert_ne!(game.food(), Position { x: 1, y: 1 });
    assert!((0..size).contains(&game.food().x));
    assert!((0..size).contains(&game.food().y));

    let size = 10;
    let game = Game::new(size);
    assert_ne!(game.food(), Position { x: 5, y: 5 });
    assert!((0..size).contains(&game.food().x));
    assert!((0..size).contains(&game.food().y));
}

#[test]
fn test_move() {
    let mut game = game_with_food_at_origin(3);

    game.move_snake(Direction::Left);
    assert_eq!(
        *game.snake(),
        VecDeque::from([Position { x: 1, y: 1 }, Position { x: 0, y: 1 }])
    );

    game.move_snake(Direction::Down);
    assert_eq!(
        *game.snake(),
        VecDeque::from([Position { x: 0, y: 1 }, Position { x: 0, y: 2 }])
    );

    game.move_snake(Direction::Right);
    assert_eq!(
        *game.snake(),
        VecDeque::from([Position { x: 0, y: 2 }, Position { x: 1, y: 2 }])
    );

    game.move_snake(Direction::Up);
    assert_eq!(
        *game.snake(),
        VecDeque::from([Position { x: 1, y: 2 }, Position { x: 1, y: 1 }])
    );
}

#[test]
fn test_wall_collisions() {
    let mut game = game_with_food_at_origin(3);
    game.move_snake(Direction::Left);
    game.move_snake(Direction::Left);
    assert!(game.finished());

    let mut game = game_with_food_at_origin(3);
    game.move_snake(Direction::Up);
    game.move_snake(Direction::Up);
    assert!(game.finished());

    let mut game = game_with_food_at_origin(3);
    game.move_snake(Direction::Right);
    game.move_snake(Direction::Right);
    assert!(game.finished());

    let mut game = game_with_food_at_origin(3);
    game.move_snake(Direction::Down);
    game.move_snake(Direction::Down);
    assert!(game.finished());
}

#[test]
fn test_snake_collision() {
    let mut game = game_with_food_at_origin(3);

    game.move_snake(Direction::Left);
    game.move_snake(Direction::Right);
    assert!(game.finished());
}

#[test]
fn test_food_collision() {
    let mut game = game_with_food_at_origin(3);

    game.move_snake(Direction::Left);
    game.move_snake(Direction::Up);
    assert_eq!(game.snake().len(), 3);
    assert_eq!(
        *game.snake(),
        VecDeque::from([
            Position { x: 1, y: 1 },
            Position { x: 0, y: 1 },
            Position { x: 0, y: 0 }
        ])
    );
    assert_eq!(game.score(), 1);
}

#[test]
fn test_place_food() {
    let size = 3;
    let mut game = Game::new(size);
    game.set_food(Position { x: 0, y: 1 });
    game.move_snake(Direction::Left);

    assert!((0..3).contains(&game.food().x));
    assert!((0..3).contains(&game.food().y));
    assert!(!game.snake().contains(&game.food()));
}

#[test]
fn new_game_starts_with_its_budget() {
    let game = Game::new(10);
    assert_eq!(game.size(), 10);
    assert_eq!(game.food(), Position { x: 0, y: 0 });
    assert_eq!(game.score(), 0);
    assert_eq!(game.step_count(), 0);
    assert_eq!(game.remaining_moves(), 200);
    assert!(!game.finished());
}

#[test]
fn small_sizes_give_a_grid_of_three() {
    for size in [-5, 0, 1, 2, 3] {
        let game = Game::new(size);
        assert_eq!(game.size(), 3);
        assert_eq!(*game.snake(), VecDeque::from([Position { x: 1, y: 1 }]));
    }
}

#[test]
fn finished_game_ignores_moves() {
    let mut game = game_with_food_at_origin(3);
    game.move_snake(Direction::Left);
    game.move_snake(Direction::Left);
    assert!(game.finished());

    let body = game.snake().clone();
    let steps = game.step_count();
    let left = game.remaining_moves();
    game.move_snake(Direction::Down);
    game.move_snake(Direction::Right);
    assert!(game.finished());
    assert_eq!(*game.snake(), body);
    assert_eq!(game.step_count(), steps);
    assert_eq!(game.remaining_moves(), left);
}

#[test]
fn moves_tick_the_counters() {
    let mut game = Game::new(5);
    game.set_food(Position { x: 4, y: 4 });
    game.move_snake(Direction::Left);
    game.move_snake(Direction::Up);
    assert_eq!(game.step_count(), 2);
    assert_eq!(game.remaining_moves(), 198);
    assert_eq!(game.score(), 0);
    assert!(!game.finished());
}

#[test]
fn eating_scores_grows_and_moves_the_food() {
    let mut game = game_with_food_at_origin(3);
    game.move_snake(Direction::Left);
    let length = game.snake().len();
    game.move_snake(Direction::Up);

    assert_eq!(game.score(), 1);
    assert_eq!(game.snake().len(), length + 1);
    assert_eq!(game.remaining_moves(), 200 - 2 + 100);
    assert!(!game.finished());
    // The first free cell, reading row by row: (0, 0) holds the head.
    assert_eq!(game.food(), Position { x: 1, y: 0 });
    assert!(!game.snake().contains(&game.food()));
}

#[test]
fn budget_runs_out_after_two_hundred_moves() {
    let mut game = Game::new(4);
    game.set_food(Position { x: 3, y: 3 });
    // Round and round a square of four cells that holds no food.
    let circle = [
        Direction::Left,
        Direction::Up,
        Direction::Right,
        Direction::Down,
    ];
    for i in 0..199 {
        game.move_snake(circle[i % 4]);
        assert!(!game.finished(), "after move {}", i + 1);
    }
    game.move_snake(circle[199 % 4]);
    assert!(game.finished());
    assert_eq!(game.step_count(), 200);
    assert_eq!(game.remaining_moves(), 0);
}

#[test]
fn diagonal_step_over_an_edge_ends_the_game() {
    let mut game = game_with_food_at_origin(3);
    game.move_snake(Direction::Left);
    assert!(!game.finished());
    game.move_snake(Direction::DownLeft);
    assert!(game.finished());
}

#[test]
fn display_draws_frame_cells_and_score() {
    let mut game = game_with_food_at_origin(3);
    game.move_snake(Direction::Left);

    let expected = "|---------|\n\
                    | \u{2022}       |\n\
                    | \u{25A1}  \u{25A0}    |\n\
                    |         |\n\
                    |---------|\n\
                    Score: 0";
    assert_eq!(game.display(), expected);
}

#[test]
fn display_writes_scores_of_several_digits() {
    assert_eq!(snake_evolution::render::decimal_text(0), "0");
    assert_eq!(snake_evolution::render::decimal_text(7), "7");
    assert_eq!(snake_evolution::render::decimal_text(10), "10");
    assert_eq!(snake_evolution::render::decimal_text(120_945), "120945");
}

#[test]
fn filling_the_grid_ends_the_game() {
    let mut game = Game::new(3);
    // A path from the centre through every other cell.
    let path = [
        (Direction::Up, Position { x: 1, y: 0 }),
        (Direction::Left, Position { x: 0, y: 0 }),
        (Direction::Down, Position { x: 0, y: 1 }),
        (Direction::Down, Position { x: 0, y: 2 }),
        (Direction::Right, Position { x: 1, y: 2 }),
        (Direction::Right, Position { x: 2, y: 2 }),
        (Direction::Up, Position { x: 2, y: 1 }),
        (Direction::Up, Position { x: 2, y: 0 }),
    ];
    for (i, (direction, cell)) in path.iter().enumerate() {
        assert!(!game.finished(), "before meal {}", i + 1);
        game.set_food(*cell);
        game.move_snake(*direction);
        assert_eq!(game.score(), i + 1);
        assert_eq!(game.snake().len(), i + 2);
    }
    assert!(game.finished());
    assert_eq!(game.snake().len(), 9);
    assert_eq!(game.food(), Position { x: 2, y: 0 });
    assert_eq!(game.remaining_moves(), 200 - 8 + 800);
}

#[test]
fn food_goes_to_the_first_free_cell_row_by_row() {
    let mut game = Game::new(3);
    game.set_food(Position { x: 1, y: 0 });
    game.move_snake(Direction::Up);
    // (0, 0) is free and comes first.
    assert_eq!(game.food(), Position { x: 0, y: 0 });
    game.move_snake(Direction::Left);
    // Now the body holds (1, 1), (1, 0) and (0, 0): the first free cell is
    // the last of the first row.
    assert_eq!(game.score(), 2);
    assert_eq!(game.food(), Position { x: 2, y: 0 });
}
