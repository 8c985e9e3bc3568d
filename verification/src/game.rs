//! The tick/input orchestrator: one discrete simulation step per timer
//! tick, direction changes from key presses, and the score, level and
//! speed rules.

use vstd::prelude::*;

use crate::entity::{
    opposite, snake_step, spec_increase, spec_score, Block, Config, Direction, Food, GameState,
    GameStateModel,
};

verus! {

/// The eight logical direction keys: the four arrows and their letter
/// bindings.
#[derive(Clone, Copy, Debug, PartialEq, Eq, Structural)]
pub enum Key {
    Up,
    W,
    Down,
    S,
    Left,
    A,
    Right,
    D,
}

/// The direction a key requests.
pub open spec fn key_direction(k: Key) -> Direction {
    match k {
        Key::Up => Direction::Up,
        Key::W => Direction::Up,
        Key::Down => Direction::Down,
        Key::S => Direction::Down,
        Key::Left => Direction::Left,
        Key::A => Direction::Left,
        Key::Right => Direction::Right,
        Key::D => Direction::Right,
    }
}

/// The level that a score reaches: one level per `score_per_level` points.
pub open spec fn spec_level(score: u32, config: Config) -> u32 {
    (score as int / config.score_per_level as int) as u32
}

/// The tick delay that a score dictates: the initial delay shrinks by
/// `speed_increase_per_level` per level, but never below `maximum_speed`.
pub open spec fn spec_speed(score: u32, config: Config) -> u32 {
    let raw = config.initial_speed - spec_level(score, config)
        * config.speed_increase_per_level;
    if raw < config.maximum_speed {
        config.maximum_speed
    } else {
        raw as u32
    }
}

/// Whether the snake's head sits on the food.
pub open spec fn spec_eating(state: GameStateModel) -> bool {
    state.food matches Some(f) && state.snake.body[0] == f.position
}

/// Whether the head cell occurs again anywhere behind it.
pub open spec fn spec_collision(body: Seq<Block>) -> bool {
    exists|i: int| 1 <= i < body.len() && #[trigger] body[i] == body[0]
}

/// The running game: the mutable session state and the immutable
/// configuration.
pub struct Game {
    pub state: GameState, // Game state
    pub config: Config, // Game config
}

impl Game {
    pub open spec fn wf(&self) -> bool {
        &&& self.config.wf()
        &&& self.state.wf(&self.config)
    }

    /// Headroom left by the machine's integers: whatever food is on the
    /// board, eating it overflows neither the score nor the growth counter.
    pub open spec fn tick_headroom(&self) -> bool {
        self.state.food matches Some(f) ==> self.state.score + spec_score(f.type_) <= u32::MAX
            && self.state.snake@.eat + spec_increase(f.type_) <= u32::MAX
    }

    /// A fresh session over `config`.
    pub fn new(config: Config) -> (g: Game)
        requires
            config.wf(),
        ensures
            g.config == config,
            g.state.food is None,
            g.state.snake@.body == seq![
                Block(config.starting_position.0, config.starting_position.1),
            ],
            g.state.snake@.direction == Direction::Left,
            g.state.snake@.eat == config.initial_size - 1,
            g.state.score == 0,
            g.state.level == 0,
            g.state.speed == config.initial_speed,
            g.state.game_over == false,
            g.wf(),
    {
        let state = GameState::new(&config);
        Game { state, config }
    }

    /// Begin a session: put the first food item on the board.
    pub fn setup(&mut self)
        requires
            old(self).config.wf(),
        ensures
            final(self).config == old(self).config,
            final(self).state.snake == old(self).state.snake,
            final(self).state.score == old(self).state.score,
            final(self).state.level == old(self).state.level,
            final(self).state.speed == old(self).state.speed,
            final(self).state.game_over == old(self).state.game_over,
            final(self).state.food matches Some(f) && f.position.0 < old(self).config.grid_size.0
                && f.position.1 < old(self).config.grid_size.1,
    {
        self.create_food();
    }

    /// Put a freshly spawned food item on the board, replacing any
    /// previous one.
    pub fn create_food(&mut self)
        requires
            old(self).config.wf(),
        ensures
            final(self).config == old(self).config,
            final(self).state.snake == old(self).state.snake,
            final(self).state.score == old(self).state.score,
            final(self).state.level == old(self).state.level,
            final(self).state.speed == old(self).state.speed,
            final(self).state.game_over == old(self).state.game_over,
            final(self).state.food matches Some(f) && f.position.0 < old(self).config.grid_size.0
                && f.position.1 < old(self).config.grid_size.1,
    {
        self.state.food = Some(Food::new(&self.config));
    }

    /// Whether the snake's head currently sits on the food.
    pub fn eating_food(&mut self) -> (r: bool)
        requires
            old(self).state.snake@.body.len() >= 1,
        ensures
            *final(self) == *old(self),
            r == spec_eating(old(self).state@),
    {
        match self.state.food {
            None => false,
            Some(ref food) => *self.state.snake.head() == food.position,
        }
    }

    /// The level the current score has reached.
    pub fn calculate_level(&self) -> (r: u32)
        requires
            self.config.score_per_level >= 1,
        ensures
            r == spec_level(self.state.score, self.config),
    {
        self.state.score / self.config.score_per_level
    }

    /// The tick delay the current score dictates.
    pub fn calculate_speed(&self) -> (r: u32)
        requires
            self.config.score_per_level >= 1,
        ensures
            r == spec_speed(self.state.score, self.config),
    {
        let level = self.calculate_level();
        proof {
            assert((level as int) * (self.config.speed_increase_per_level as int)
                <= u64::MAX) by (nonlinear_arith)
                requires
                    level <= u32::MAX,
                    self.config.speed_increase_per_level <= u32::MAX,
            ;
        }
        let deduction: u64 = (level as u64) * (self.config.speed_increase_per_level as u64);
        if deduction >= self.config.initial_speed as u64 {
            self.config.maximum_speed
        } else {
            let speed = self.config.initial_speed - (deduction as u32);
            if speed < self.config.maximum_speed {
                self.config.maximum_speed
            } else {
                speed
            }
        }
    }

    /// Consume the food when the head sits on it: grow the snake, add the
    /// food's score, recompute level and speed, and spawn a replacement.
    fn handle_food_eat(&mut self)
        requires
            old(self).wf(),
            old(self).tick_headroom(),
        ensures
            final(self).config == old(self).config,
            final(self).wf(),
            final(self).state.game_over == old(self).state.game_over,
            final(self).state.snake@.body == old(self).state.snake@.body,
            final(self).state.snake@.direction == old(self).state.snake@.direction,
            !spec_eating(old(self).state@) ==> *final(self) == *old(self),
            spec_eating(old(self).state@) ==> ({
                let f = old(self).state.food->Some_0;
                &&& final(self).state.snake@.eat == old(self).state.snake@.eat + spec_increase(
                    f.type_,
                )
                &&& final(self).state.score == old(self).state.score + spec_score(f.type_)
                &&& final(self).state.level == spec_level(final(self).state.score, old(self).config)
                &&& final(self).state.speed == spec_speed(final(self).state.score, old(self).config)
                &&& final(self).state.food matches Some(nf) && nf.position.0 < old(
                    self,
                ).config.grid_size.0 && nf.position.1 < old(self).config.grid_size.1
            }),
    {
        if !self.eating_food() {
            return ;
        }
        let food = match self.state.food {
            Some(food) => food,
            None => { return ; },
        };
        self.state.snake.grow(food.type_.increase());
        self.state.score = self.state.score + food.type_.score();
        self.state.level = self.calculate_level();
        self.state.speed = self.calculate_speed();
        self.create_food();
    }

    /// Detect self-collision: the game ends when any body cell behind the
    /// head coincides with it. Once over, a game stays over.
    fn handle_collisions(&mut self)
        requires
            old(self).state.snake@.body.len() >= 1,
        ensures
            final(self).config == old(self).config,
            final(self).state.snake == old(self).state.snake,
            final(self).state.food == old(self).state.food,
            final(self).state.score == old(self).state.score,
            final(self).state.level == old(self).state.level,
            final(self).state.speed == old(self).state.speed,
            final(self).state.game_over == (old(self).state.game_over || spec_collision(
                old(self).state.snake@.body,
            )),
    {
        let ghost body = self.state.snake@.body;
        let head = self.state.snake.body[0];
        let mut found = false;
        let mut i: usize = 1;
        while i < self.state.snake.body.len()
            invariant
                1 <= i <= body.len(),
                body == self.state.snake@.body,
                head == body[0],
                found == exists|j: int| 1 <= j < i && #[trigger] body[j] == body[0],
            decreases body.len() - i,
        {
            if head == self.state.snake.body[i] {
                found = true;
                assert(1 <= i < body.len() && body[i as int] == body[0]);
            }
            i = i + 1;
        }
        if found {
            self.state.game_over = true;
        }
    }

    /// One simulation step. Once the game is over nothing changes and the
    /// result is `0`, telling the scheduler to stop. Otherwise the snake
    /// advances one cell, food on the head cell is consumed, self-collision
    /// ends the game, and the result is the next tick delay, or `0` when
    /// the game just ended.
    pub fn tick(&mut self) -> (r: u32)
        requires
            old(self).wf(),
            old(self).tick_headroom(),
        ensures
            final(self).config == old(self).config,
            final(self).wf(),
            old(self).state.game_over ==> *final(self) == *old(self) && r == 0,
            !old(self).state.game_over ==> ({
                let stepped = snake_step(
                    old(self).state.snake@,
                    old(self).config.grid_size.0,
                    old(self).config.grid_size.1,
                );
                let ate = old(self).state.food matches Some(f) && stepped.body[0] == f.position;
                &&& final(self).state.snake@.body == stepped.body
                &&& final(self).state.snake@.direction == stepped.direction
                &&& final(self).state.game_over == spec_collision(stepped.body)
                &&& r == (if final(self).state.game_over {
                    0u32
                } else {
                    final(self).state.speed
                })
                &&& ate ==> ({
                    let f = old(self).state.food->Some_0;
                    &&& final(self).state.snake@.eat == stepped.eat + spec_increase(f.type_)
                    &&& final(self).state.score == old(self).state.score + spec_score(f.type_)
                    &&& final(self).state.level == spec_level(
                        final(self).state.score,
                        old(self).config,
                    )
                    &&& final(self).state.speed == spec_speed(
                        final(self).state.score,
                        old(self).config,
                    )
                    &&& final(self).state.food matches Some(nf) && nf.position.0 < old(
                        self,
                    ).config.grid_size.0 && nf.position.1 < old(self).config.grid_size.1
                })
                &&& !ate ==> ({
                    &&& final(self).state.snake@.eat == stepped.eat
                    &&& final(self).state.score == old(self).state.score
                    &&& final(self).state.level == old(self).state.level
                    &&& final(self).state.speed == old(self).state.speed
                    &&& final(self).state.food == old(self).state.food
                })
            }),
    {
        if self.state.game_over {
            return 0;
        }
        let config = self.config;
        self.state.snake.update(&config);
        self.handle_food_eat();
        self.handle_collisions();
        if self.state.game_over {
            return 0;
        }
        self.state.speed
    }

    /// Route a direction key to the snake; a request for the exact
    /// opposite of the current direction is ignored.
    pub fn keypress(&mut self, key: Key)
        ensures
            final(self).config == old(self).config,
            final(self).state.snake@.body == old(self).state.snake@.body,
            final(self).state.snake@.eat == old(self).state.snake@.eat,
            final(self).state.food == old(self).state.food,
            final(self).state.score == old(self).state.score,
            final(self).state.level == old(self).state.level,
            final(self).state.speed == old(self).state.speed,
            final(self).state.game_over == old(self).state.game_over,
            final(self).state.snake@.direction == (if key_direction(key) == opposite(
                old(self).state.snake@.direction,
            ) {
                old(self).state.snake@.direction
            } else {
                key_direction(key)
            }),
    {
        match key {
            Key::Up => self.state.snake.cd(Direction::Up),
            Key::W => self.state.snake.cd(Direction::Up),
            Key::Down => self.state.snake.cd(Direction::Down),
            Key::S => self.state.snake.cd(Direction::Down),
            Key::Left => self.state.snake.cd(Direction::Left),
            Key::A => self.state.snake.cd(Direction::Left),
            Key::Right => self.state.snake.cd(Direction::Right),
            Key::D => self.state.snake.cd(Direction::Right),
        }
    }
}

} // verus!
