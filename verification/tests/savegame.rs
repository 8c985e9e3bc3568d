use snake::entity::{Block, Config, Direction, Food, FoodType, GameState, Snake};
use snake::savegame::{decode_game_state, encode_game_state};

fn sample_state() -> GameState {
    GameState {
        food: Some(Food { type_: FoodType::Banana, position: Block(7, 2) }),
        snake: Snake {
            body: vec![Block(4, 5), Block(5, 5), Block(6, 5)],
            direction: Direction::Up,
            eat: 2,
        },
        score: 37,
        level: 3,
        speed: 70,
        game_over: false,
    }
}

#[test]
fn test_roundtrip_full_state() {
    // A state with a non-empty body, food present, and non-zero score,
    // level and speed comes back field for field, body order included.
    let state = sample_state();
    let bytes = encode_game_state(&state);
    let back = decode_game_state(&bytes).expect("a fresh encoding must decode");
    assert_eq!(back.snake.body, state.snake.body);
    assert_eq!(back.snake.direction, state.snake.direction);
    assert_eq!(back.snake.eat, state.snake.eat);
    assert_eq!(back.food.as_ref().unwrap().type_, FoodType::Banana);
    assert_eq!(back.food.as_ref().unwrap().position, Block(7, 2));
    assert_eq!(back.score, 37);
    assert_eq!(back.level, 3);
    assert_eq!(back.speed, 70);
    assert_eq!(back.game_over, false);
}

#[test]
fn test_roundtrip_fresh_state() {
    let config = Config::default();
    let state = GameState::new(&config);
    let bytes = encode_game_state(&state);
    let back = decode_game_state(&bytes).expect("a fresh encoding must decode");
    assert!(back.food.is_none());
    assert_eq!(back.snake.body, vec![Block(40, 30)]);
    assert_eq!(back.snake.direction, Direction::Left);
    assert_eq!(back.snake.eat, 2);
    assert_eq!(back.score, 0);
    assert_eq!(back.level, 0);
    assert_eq!(back.speed, 100);
    assert_eq!(back.game_over, false);
}

#[test]
fn test_roundtrip_game_over_and_extremes() {
    let state = GameState {
        food: None,
        snake: Snake {
            body: vec![Block(0, 0), Block(u32::MAX, u32::MAX)],
            direction: Direction::Right,
            eat: u32::MAX,
        },
        score: u32::MAX,
        level: 1,
        speed: 0,
        game_over: true,
    };
    let bytes = encode_game_state(&state);
    let back = decode_game_state(&bytes).expect("a fresh encoding must decode");
    assert_eq!(back.snake.body, state.snake.body);
    assert_eq!(back.snake.eat, u32::MAX);
    assert_eq!(back.score, u32::MAX);
    assert_eq!(back.speed, 0);
    assert_eq!(back.game_over, true);
}

#[test]
fn test_encode_exact_layout() {
    // The document is one zero-padded number per line: direction code,
    // growth counter, body length, the body cells, the food fields, then
    // score, level, speed and the game-over flag.
    let state = sample_state();
    let bytes = encode_game_state(&state);
    let expected: String = [
        0u32, // Direction::Up
        2,    // eat
        3,    // body length
        4, 5, // head
        5, 5, //
        6, 5, // tail
        1,    // food present
        1,    // FoodType::Banana
        7, 2, // food cell
        37, 3, 70, // score, level, speed
        0,  // not game over
    ]
    .iter()
    .map(|n| format!("{:010}\n", n))
    .collect();
    assert_eq!(bytes, expected.into_bytes());
}

#[test]
fn test_decode_garbage_is_none() {
    assert!(decode_game_state(&Vec::new()).is_none());
    assert!(decode_game_state(&b"not a save file".to_vec()).is_none());
    assert!(decode_game_state(&vec![0u8; 200]).is_none());
}

#[test]
fn test_decode_truncated_is_none() {
    let bytes = encode_game_state(&sample_state());
    for cut in [1, 11, 40, bytes.len() - 1] {
        let shorter = bytes[..cut].to_vec();
        assert!(decode_game_state(&shorter).is_none());
    }
}

#[test]
fn test_decode_trailing_bytes_is_none() {
    let mut bytes = encode_game_state(&sample_state());
    bytes.push(b'\n');
    assert!(decode_game_state(&bytes).is_none());
}

#[test]
fn test_decode_corrupt_field_is_none() {
    let mut bytes = encode_game_state(&sample_state());
    bytes[0] = b'7'; // direction code 7 names no direction
    assert!(decode_game_state(&bytes).is_none());
    let mut bytes = encode_game_state(&sample_state());
    bytes[5] = b'x'; // not a digit
    assert!(decode_game_state(&bytes).is_none());
}
