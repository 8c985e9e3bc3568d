use snake::entity::{Block, Config, Direction, Food, FoodType, Snake};

#[test]
fn entity_test_snake_new() {
    let config = Config { initial_size: 4, ..Config::default() };
    let snake = Snake::new(&config);
    assert_eq!(snake.body.len(), 1);
    assert_eq!(snake.direction, Direction::Left);
    assert_eq!(snake.eat, 3);
    assert_eq!(snake.head(), &Block(40, 30));
}

#[test]
fn entity_test_snake_update() {
    let config = Config {
        grid_size: (80, 60),
        starting_position: (40, 30),
        initial_size: 2,
        ..Config::default()
    };
    let mut snake = Snake::new(&config);
    assert_eq!(snake.body[0], Block(40, 30));
    assert_eq!(snake.body.len(), 1);
    snake.update(&config);
    assert_eq!(snake.body[0], Block(39, 30));
    assert_eq!(snake.body[1], Block(40, 30));
    assert_eq!(snake.body.len(), 2);
    snake.update(&config);
    assert_eq!(snake.body[0], Block(38, 30));
    assert_eq!(snake.body[1], Block(39, 30));
    assert_eq!(snake.body.len(), 2);
}

#[test]
fn entity_test_snake_cd() {
    let config = Config { initial_size: 2, ..Config::default() };
    let mut snake = Snake::new(&config);
    assert_eq!(snake.body[0], Block(40, 30));
    assert_eq!(snake.body.len(), 1);
    snake.cd(Direction::Up);
    snake.update(&config);
    assert_eq!(snake.body[0], Block(40, 29));
    assert_eq!(snake.body[1], Block(40, 30));
    assert_eq!(snake.body.len(), 2);
    snake.cd(Direction::Right);
    snake.update(&config);
    assert_eq!(snake.body[0], Block(41, 29));
    assert_eq!(snake.body[1], Block(40, 29));
    assert_eq!(snake.body.len(), 2);
    snake.cd(Direction::Down);
    snake.update(&config);
    assert_eq!(snake.body[0], Block(41, 30));
    assert_eq!(snake.body[1], Block(41, 29));
    assert_eq!(snake.body.len(), 2);
}

#[test]
fn entity_test_snake_eat() {
    let config = Config {
        grid_size: (10, 10),
        starting_position: (5, 5),
        initial_size: 1,
        ..Config::default()
    };
    let mut snake = Snake::new(&config);

    assert_eq!(snake.body[0], Block(5, 5));
    snake.grow(3);
    assert_eq!(snake.eat, 3);
    snake.update(&config);
    assert_eq!(snake.body.len(), 2);
    assert_eq!(snake.body[0], Block(4, 5));
    assert_eq!(snake.body[1], Block(5, 5));
    assert_eq!(snake.eat, 2);
    snake.update(&config);
    assert_eq!(snake.body.len(), 3);
    assert_eq!(snake.body[0], Block(3, 5));
    assert_eq!(snake.body[1], Block(4, 5));
    assert_eq!(snake.body[2], Block(5, 5));
    assert_eq!(snake.eat, 1);
    snake.update(&config);
    assert_eq!(snake.body.len(), 4);
    assert_eq!(snake.body[0], Block(2, 5));
    assert_eq!(snake.body[1], Block(3, 5));
    assert_eq!(snake.body[2], Block(4, 5));
    assert_eq!(snake.body[3], Block(5, 5));
    assert_eq!(snake.eat, 0);
}

#[test]
fn entity_test_snake_mode_edge() {
    let config = Config {
        grid_size: (10, 10),
        starting_position: (0, 0),
        initial_size: 1,
        ..Config::default()
    };
    let mut snake = Snake::new(&config);

    assert_eq!(snake.body[0], Block(0, 0));
    snake.update(&config);
    assert_eq!(snake.body[0], Block(9, 0));
    snake.cd(Direction::Up);
    snake.update(&config);
    assert_eq!(snake.body[0], Block(9, 9));
}

#[test]
fn entity_test_create_food() {
    let config = Config { grid_size: (10, 10), ..Config::default() };
    let food = Food::new(&config);
    assert_eq!(food.position.0 < config.grid_size.0, true);
    assert_eq!(food.position.1 < config.grid_size.1, true);
}

#[test]
fn entity_test_create_food_with_empty_screen() {
    let config = Config { grid_size: (1, 1), ..Config::default() };
    let food = Food::new(&config);
    assert_eq!(food.position.0, 0);
    assert_eq!(food.position.1, 0);
}

#[test]
fn test_snake_tail_removed_after_growth_spent() {
    // One further step after the growth is spent keeps the length constant.
    let config = Config {
        grid_size: (10, 10),
        starting_position: (5, 5),
        initial_size: 1,
        ..Config::default()
    };
    let mut snake = Snake::new(&config);
    snake.grow(3);
    snake.update(&config);
    snake.update(&config);
    snake.update(&config);
    assert_eq!(snake.body.len(), 4);
    assert_eq!(snake.eat, 0);
    snake.update(&config);
    assert_eq!(snake.body.len(), 4);
    assert_eq!(snake.body[0], Block(1, 5));
    assert_eq!(snake.body[3], Block(4, 5));
}

#[test]
fn test_snake_wraps_right_and_down() {
    let config = Config {
        grid_size: (10, 10),
        starting_position: (9, 4),
        initial_size: 1,
        ..Config::default()
    };
    let mut snake = Snake::new(&config);
    snake.cd(Direction::Up);
    snake.update(&config);
    assert_eq!(snake.body[0], Block(9, 3));
    snake.cd(Direction::Right);
    snake.update(&config);
    assert_eq!(snake.body[0], Block(0, 3));
    snake.cd(Direction::Down);
    for _ in 0..7 {
        snake.update(&config);
    }
    assert_eq!(snake.body[0], Block(0, 0));
}

#[test]
fn test_food_type_for_roll_boundaries() {
    assert_eq!(snake::entity::food_type_for_roll(0), FoodType::Cherry);
    assert_eq!(snake::entity::food_type_for_roll(59), FoodType::Cherry);
    assert_eq!(snake::entity::food_type_for_roll(60), FoodType::Banana);
    assert_eq!(snake::entity::food_type_for_roll(89), FoodType::Banana);
    assert_eq!(snake::entity::food_type_for_roll(90), FoodType::Apple);
    assert_eq!(snake::entity::food_type_for_roll(99), FoodType::Apple);
}

#[test]
fn test_food_type_values() {
    assert_eq!(FoodType::Cherry.score(), 1);
    assert_eq!(FoodType::Banana.score(), 3);
    assert_eq!(FoodType::Apple.score(), 5);
    assert_eq!(FoodType::Cherry.increase(), 2);
    assert_eq!(FoodType::Banana.increase(), 5);
    assert_eq!(FoodType::Apple.increase(), 8);
    assert_eq!(FoodType::Cherry.probality(), 60);
    assert_eq!(FoodType::Banana.probality(), 30);
    assert_eq!(FoodType::Apple.probality(), 10);
    assert_eq!(FoodType::Cherry.texture(), "resources/cherry.png");
    assert_eq!(FoodType::Banana.texture(), "resources/banana.png");
    assert_eq!(FoodType::Apple.texture(), "resources/apple.png");
}

#[test]
fn test_food_category_distribution() {
    // Weighted selection over many spawns stays close to the configured
    // 60/30/10 split.
    let config = Config { grid_size: (10, 10), ..Config::default() };
    let trials = 20000;
    let mut cherries = 0u32;
    let mut bananas = 0u32;
    let mut apples = 0u32;
    for _ in 0..trials {
        match Food::new(&config).type_ {
            FoodType::Cherry => cherries += 1,
            FoodType::Banana => bananas += 1,
            FoodType::Apple => apples += 1,
        }
    }
    let t = trials as f64;
    assert!((cherries as f64 / t - 0.60).abs() < 0.05);
    assert!((bananas as f64 / t - 0.30).abs() < 0.05);
    assert!((apples as f64 / t - 0.10).abs() < 0.05);
}

#[test]
fn test_config_default_values() {
    let c = Config::default();
    assert_eq!(c.grid_size, (80, 60));
    assert_eq!(c.grid_resolution, 10);
    assert_eq!(c.initial_speed, 100);
    assert_eq!(c.maximum_speed, 30);
    assert_eq!(c.initial_size, 3);
    assert_eq!(c.starting_position, (40, 30));
    assert_eq!(c.speed_increase_per_level, 10);
    assert_eq!(c.score_per_level, 10);
}

#[test]
fn test_game_state_new() {
    let config = Config::default();
    let state = snake::entity::GameState::new(&config);
    assert!(state.food.is_none());
    assert_eq!(state.snake.body.len(), 1);
    assert_eq!(state.score, 0);
    assert_eq!(state.level, 0);
    assert_eq!(state.speed, 100);
    assert!(!state.game_over);
    assert!(state.valid(&config));
}

#[test]
fn test_game_state_valid_rejects_off_grid() {
    let config = Config {
        grid_size: (10, 10),
        starting_position: (5, 5),
        ..Config::default()
    };
    let mut state = snake::entity::GameState::new(&config);
    assert!(state.valid(&config));
    state.snake.body[0] = Block(10, 3);
    assert!(!state.valid(&config));
    state.snake.body.clear();
    assert!(!state.valid(&config));
}
