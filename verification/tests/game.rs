use snake::entity::{Block, Config, Direction, Food, FoodType, GameState, Snake};
use snake::game::{Game, Key};

#[test]
fn test_calculate_speed() {
    let config = Config {
        initial_speed: 100,
        maximum_speed: 10,
        speed_increase_per_level: 10,
        score_per_level: 10,
        ..Config::default()
    };
    let game = Game {
        config,
        state: GameState {
            food: None,
            snake: Snake::new(&config),
            score: 10,
            level: 0,
            speed: 100,
            game_over: false,
        },
    };
    assert_eq!(game.calculate_speed(), 90);
    let game = Game {
        config,
        state: GameState {
            food: None,
            snake: Snake::new(&config),
            score: 100,
            level: 0,
            speed: 100,
            game_over: false,
        },
    };
    assert_eq!(game.calculate_speed(), 10);
    let game = Game {
        config,
        state: GameState {
            food: None,
            snake: Snake::new(&config),
            score: 1000,
            level: 0,
            speed: 100,
            game_over: false,
        },
    };
    assert_eq!(game.calculate_speed(), 10);
}

fn small_config() -> Config {
    Config {
        grid_size: (10, 10),
        starting_position: (5, 5),
        initial_size: 1,
        initial_speed: 100,
        maximum_speed: 30,
        speed_increase_per_level: 10,
        score_per_level: 10,
        ..Config::default()
    }
}

#[test]
fn test_tick_moves_snake_and_returns_speed() {
    let mut game = Game::new(small_config());
    game.setup();
    // Keep the food away from the snake's path for this tick.
    game.state.food = Some(Food { type_: FoodType::Cherry, position: Block(9, 9) });
    let r = game.tick();
    assert_eq!(game.state.snake.body[0], Block(4, 5));
    assert_eq!(game.state.score, 0);
    assert!(!game.state.game_over);
    assert_eq!(r, 100);
}

#[test]
fn test_tick_eats_food() {
    let mut game = Game::new(small_config());
    game.state.food = Some(Food { type_: FoodType::Cherry, position: Block(4, 5) });
    let r = game.tick();
    assert_eq!(game.state.score, 1);
    assert_eq!(game.state.snake.eat, 2);
    assert_eq!(game.state.level, 0);
    assert_eq!(game.state.speed, 100);
    assert!(game.state.food.is_some());
    let f = game.state.food.as_ref().unwrap();
    assert!(f.position.0 < 10 && f.position.1 < 10);
    assert_eq!(r, 100);
}

#[test]
fn test_tick_level_and_speed_rise_with_score() {
    let mut game = Game::new(small_config());
    game.state.score = 9;
    game.state.food = Some(Food { type_: FoodType::Banana, position: Block(4, 5) });
    let r = game.tick();
    assert_eq!(game.state.score, 12);
    assert_eq!(game.state.level, 1);
    assert_eq!(game.state.speed, 90);
    assert_eq!(r, 90);
}

#[test]
fn test_tick_self_collision_sets_game_over_once() {
    let mut game = Game::new(small_config());
    // A snake curled in a square: moving up, its head steps onto its tail
    // cell while one tick of growth keeps that cell occupied.
    game.state.snake = Snake {
        body: vec![Block(1, 1), Block(0, 1), Block(0, 0), Block(1, 0)],
        direction: Direction::Up,
        eat: 1,
    };
    let r = game.tick();
    assert!(game.state.game_over);
    assert_eq!(r, 0);
    // Once over, further ticks change nothing.
    let body_before = game.state.snake.body.clone();
    let score_before = game.state.score;
    let r2 = game.tick();
    assert_eq!(r2, 0);
    assert!(game.state.game_over);
    assert_eq!(game.state.snake.body, body_before);
    assert_eq!(game.state.score, score_before);
}

#[test]
fn test_keypress_mappings() {
    // From the starting direction (left), the vertical keys act directly.
    let cases = [
        (Key::Up, Direction::Up),
        (Key::W, Direction::Up),
        (Key::Down, Direction::Down),
        (Key::S, Direction::Down),
    ];
    for (key, dir) in cases {
        let mut game = Game::new(small_config());
        game.keypress(key);
        assert_eq!(game.state.snake.direction, dir);
    }
    // The horizontal keys act once the snake is moving vertically.
    for key in [Key::Right, Key::D] {
        let mut game = Game::new(small_config());
        game.keypress(Key::Up);
        game.keypress(key);
        assert_eq!(game.state.snake.direction, Direction::Right);
    }
    for key in [Key::Left, Key::A] {
        let mut game = Game::new(small_config());
        game.keypress(Key::Up);
        game.keypress(key);
        assert_eq!(game.state.snake.direction, Direction::Left);
    }
}

#[test]
fn test_keypress_opposite_ignored() {
    // The snake starts moving left; a request for the exact opposite is a
    // no-op.
    let mut game = Game::new(small_config());
    game.keypress(Key::Right);
    assert_eq!(game.state.snake.direction, Direction::Left);
    game.keypress(Key::D);
    assert_eq!(game.state.snake.direction, Direction::Left);
    game.keypress(Key::Up);
    game.keypress(Key::S);
    assert_eq!(game.state.snake.direction, Direction::Up);
}

#[test]
fn test_create_food_stays_on_grid() {
    let mut game = Game::new(Config {
        grid_size: (3, 2),
        starting_position: (1, 1),
        ..Config::default()
    });
    for _ in 0..50 {
        game.create_food();
        let f = game.state.food.as_ref().unwrap();
        assert!(f.position.0 < 3);
        assert!(f.position.1 < 2);
    }
}

#[test]
fn test_eating_food_checks_head() {
    let mut game = Game::new(small_config());
    assert!(!game.eating_food());
    game.state.food = Some(Food { type_: FoodType::Apple, position: Block(5, 5) });
    assert!(game.eating_food());
    game.state.food = Some(Food { type_: FoodType::Apple, position: Block(4, 5) });
    assert!(!game.eating_food());
}
