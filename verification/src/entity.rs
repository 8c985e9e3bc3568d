//! The board entities: directions, grid cells, the snake, food and the
//! game configuration.

use vstd::prelude::*;

verus! {

/// Relies on rand::random_range over `0..n`: it panics on an empty range
/// and otherwise returns a value drawn from the range.
#[verifier::external_body]
fn random_below(n: u32) -> (r: u32)
    requires
        n >= 1,
    ensures
        r < n,
{
    rand::random_range(0..n)
}

/// The four directions the snake can travel in.
#[derive(Clone, Copy, Debug, PartialEq, Eq, Structural)]
pub enum Direction {
    Up,
    Down,
    Left,
    Right,
}

/// One grid cell, as a pair of column and row.
#[derive(Clone, Copy, Debug, PartialEq, Eq, Structural)]
pub struct Block(pub u32, pub u32);

/// The food categories; each carries its own score value, growth amount and
/// spawn weight.
#[derive(Clone, Copy, Debug, PartialEq, Eq, Structural)]
pub enum FoodType {
    Cherry,
    Banana,
    Apple,
}

/// Path of the image drawn for a food category.
pub open spec fn spec_texture(t: FoodType) -> Seq<char> {
    match t {
        FoodType::Cherry => "resources/cherry.png"@,
        FoodType::Banana => "resources/banana.png"@,
        FoodType::Apple => "resources/apple.png"@,
    }
}

/// Points awarded when a category is eaten.
pub open spec fn spec_score(t: FoodType) -> u32 {
    match t {
        FoodType::Cherry => 1,
        FoodType::Banana => 3,
        FoodType::Apple => 5,
    }
}

/// Blocks the snake grows by when a category is eaten.
pub open spec fn spec_increase(t: FoodType) -> u32 {
    match t {
        FoodType::Cherry => 2,
        FoodType::Banana => 5,
        FoodType::Apple => 8,
    }
}

/// Spawn weight of a category, in percent; the three weights sum to 100.
pub open spec fn spec_probality(t: FoodType) -> u32 {
    match t {
        FoodType::Cherry => 60,
        FoodType::Banana => 30,
        FoodType::Apple => 10,
    }
}

impl FoodType {
    pub fn texture(&self) -> (r: String)
        ensures
            r@ == spec_texture(*self),
    {
        match self {
            FoodType::Cherry => "resources/cherry.png".to_string(),
            FoodType::Banana => "resources/banana.png".to_string(),
            FoodType::Apple => "resources/apple.png".to_string(),
        }
    }

    pub fn score(&self) -> (r: u32)
        ensures
            r == spec_score(*self),
    {
        match self {
            FoodType::Cherry => 1,
            FoodType::Banana => 3,
            FoodType::Apple => 5,
        }
    }

    pub fn increase(&self) -> (r: u32)
        ensures
            r == spec_increase(*self),
    {
        match self {
            FoodType::Cherry => 2,
            FoodType::Banana => 5,
            FoodType::Apple => 8,
        }
    }

    pub fn probality(&self) -> (r: u32)
        ensures
            r == spec_probality(*self),
    {
        match self {
            FoodType::Cherry => 60,
            FoodType::Banana => 30,
            FoodType::Apple => 10,
        }
    }
}

/// An RGB colour, consumed only by rendering.
#[derive(Clone, Copy, Debug, PartialEq, Eq, Structural)]
pub struct Color {
    pub r: u8,
    pub g: u8,
    pub b: u8,
}

impl Color {
    pub fn new(r: u8, g: u8, b: u8) -> (c: Color)
        ensures
            c == (Color { r, g, b }),
    {
        Color { r, g, b }
    }
}

/// The immutable per-session configuration, constructed once and passed by
/// reference into each component.
#[derive(Clone, Copy, Debug, PartialEq)]
pub struct Config {
    pub grid_size: (u32, u32),         // Grid size in cells
    pub grid_resolution: u32,          // Pixels per cell, used only by rendering
    pub initial_speed: u32,            // Initial tick delay
    pub maximum_speed: u32,            // Smallest tick delay (speed floor)
    pub initial_size: u32,             // Initial size of the snake
    pub starting_position: (u32, u32), // Starting cell of the snake
    pub speed_increase_per_level: u32, // Tick-delay decrease per level
    pub score_per_level: u32,          // Points needed per level
    pub background_color: Color,       // Background colour
    pub snake_color: Color,            // Snake colour
    pub food_color: Color,             // Food colour
}

impl Config {
    /// A configuration the simulation is total over: a non-empty grid, a
    /// starting cell on it, at least one starting block, and a non-zero
    /// level threshold.
    pub open spec fn wf(&self) -> bool {
        &&& self.grid_size.0 >= 1
        &&& self.grid_size.1 >= 1
        &&& self.initial_size >= 1
        &&& self.score_per_level >= 1
        &&& self.starting_position.0 < self.grid_size.0
        &&& self.starting_position.1 < self.grid_size.1
    }

    pub fn default() -> (c: Config)
        ensures
            c == (Config {
                grid_size: (80u32, 60u32),
                grid_resolution: 10u32,
                initial_speed: 100u32,
                maximum_speed: 30u32,
                initial_size: 3u32,
                starting_position: (40u32, 30u32),
                speed_increase_per_level: 10u32,
                score_per_level: 10u32,
                background_color: Color { r: 0, g: 0, b: 0 },
                snake_color: Color { r: 0, g: 255, b: 0 },
                food_color: Color { r: 255, g: 0, b: 0 },
            }),
            c.wf(),
    {
        Config {
            grid_size: (80, 60),
            grid_resolution: 10,
            initial_speed: 100,
            maximum_speed: 30,
            initial_size: 3,
            starting_position: (40, 30),
            speed_increase_per_level: 10,
            score_per_level: 10,
            background_color: Color::new(0, 0, 0),
            snake_color: Color::new(0, 255, 0),
            food_color: Color::new(255, 0, 0),
        }
    }
}

/// The cell one step from `b` in direction `dir` on a `w` by `h` grid,
/// wrapping around at every edge.
pub open spec fn step_block(b: Block, dir: Direction, w: u32, h: u32) -> Block
    recommends
        w >= 1,
        h >= 1,
{
    match dir {
        Direction::Up => Block(b.0, if b.1 == 0 { (h - 1) as u32 } else { (b.1 - 1) as u32 }),
        Direction::Down => Block(b.0, if b.1 + 1 >= h { 0 } else { (b.1 + 1) as u32 }),
        Direction::Left => Block(if b.0 == 0 { (w - 1) as u32 } else { (b.0 - 1) as u32 }, b.1),
        Direction::Right => Block(if b.0 + 1 >= w { 0 } else { (b.0 + 1) as u32 }, b.1),
    }
}

/// The direction exactly opposite to `d`.
pub open spec fn opposite(d: Direction) -> Direction {
    match d {
        Direction::Up => Direction::Down,
        Direction::Down => Direction::Up,
        Direction::Left => Direction::Right,
        Direction::Right => Direction::Left,
    }
}

/// Mathematical model of a snake: its cells head-first, its travel
/// direction, and the pending-growth counter.
pub struct SnakeModel {
    pub body: Seq<Block>,
    pub direction: Direction,
    pub eat: u32,
}

impl SnakeModel {
    /// A snake that is never empty and lies on the `w` by `h` grid.
    pub open spec fn wf(self, w: u32, h: u32) -> bool {
        &&& self.body.len() >= 1
        &&& forall|i: int|
            0 <= i < self.body.len() ==> (#[trigger] self.body[i]).0 < w && self.body[i].1 < h
    }
}

/// One movement step: the head advances one cell (wrapping at the edges)
/// and is pushed onto the front; the tail is dropped unless growth is
/// pending, in which case the counter goes down by one instead.
pub open spec fn snake_step(s: SnakeModel, w: u32, h: u32) -> SnakeModel
    recommends
        s.body.len() >= 1,
        w >= 1,
        h >= 1,
{
    let new_head = step_block(s.body[0], s.direction, w, h);
    if s.eat == 0 {
        SnakeModel { body: seq![new_head] + s.body.drop_last(), direction: s.direction, eat: 0 }
    } else {
        SnakeModel {
            body: seq![new_head] + s.body,
            direction: s.direction,
            eat: (s.eat - 1) as u32,
        }
    }
}

/// `n` movement steps in a row.
pub open spec fn snake_step_n(s: SnakeModel, w: u32, h: u32, n: nat) -> SnakeModel
    decreases n,
{
    if n == 0 {
        s
    } else {
        snake_step(snake_step_n(s, w, h, (n - 1) as nat), w, h)
    }
}

/// One step is a translation: the head advances exactly one cell in the
/// travel direction, and every other cell moves into the place its
/// predecessor held before the step.
pub proof fn lemma_step_translates(s: SnakeModel, w: u32, h: u32)
    requires
        s.body.len() >= 1,
    ensures
        snake_step(s, w, h).body[0] == step_block(s.body[0], s.direction, w, h),
        forall|i: int|
            1 <= i < snake_step(s, w, h).body.len() ==> snake_step(s, w, h).body[i] == s.body[i
                - 1],
{
}

/// Away from the grid edges no wrapping happens: a step moves the head to
/// the adjacent cell in the travel direction.
pub proof fn lemma_step_block_interior(b: Block, d: Direction, w: u32, h: u32)
    requires
        1 <= b.0,
        b.0 + 1 < w,
        1 <= b.1,
        b.1 + 1 < h,
    ensures
        step_block(b, d, w, h) == (match d {
            Direction::Up => Block(b.0, (b.1 - 1) as u32),
            Direction::Down => Block(b.0, (b.1 + 1) as u32),
            Direction::Left => Block((b.0 - 1) as u32, b.1),
            Direction::Right => Block((b.0 + 1) as u32, b.1),
        }),
{
}

/// Wrap-around at every edge: stepping right off the last column lands on
/// column zero, stepping left off column zero lands on the last column, and
/// symmetrically for the rows.
pub proof fn lemma_step_block_wraps(x: u32, y: u32, w: u32, h: u32)
    requires
        w >= 1,
        h >= 1,
        x < w,
        y < h,
    ensures
        step_block(Block((w - 1) as u32, y), Direction::Right, w, h) == Block(0u32, y),
        step_block(Block(0u32, y), Direction::Left, w, h) == (Block((w - 1) as u32, y)),
        step_block(Block(x, (h - 1) as u32), Direction::Down, w, h) == Block(x, 0u32),
        step_block(Block(x, 0u32), Direction::Up, w, h) == (Block(x, (h - 1) as u32)),
{
}

/// While growth is pending, each step lengthens the body by one cell and
/// takes the counter down by one.
proof fn lemma_step_n_growing(s: SnakeModel, w: u32, h: u32, j: nat)
    requires
        s.body.len() >= 1,
        j <= s.eat,
    ensures
        snake_step_n(s, w, h, j).body.len() == s.body.len() + j,
        snake_step_n(s, w, h, j).eat == s.eat - j,
        snake_step_n(s, w, h, j).direction == s.direction,
    decreases j,
{
    if j > 0 {
        lemma_step_n_growing(s, w, h, (j - 1) as nat);
    }
}

/// Granting `n` ticks of growth to a snake with none pending and then
/// stepping `n` times yields a body exactly `n` cells longer with the
/// counter back at zero, and the step after that leaves the length
/// unchanged.
pub proof fn lemma_grow_then_steps(s: SnakeModel, w: u32, h: u32, n: u32)
    requires
        s.body.len() >= 1,
        s.eat == 0,
    ensures
        ({
            let grown = SnakeModel { body: s.body, direction: s.direction, eat: n };
            let after = snake_step_n(grown, w, h, n as nat);
            &&& after.body.len() == s.body.len() + n
            &&& after.eat == 0
            &&& snake_step(after, w, h).body.len() == after.body.len()
        }),
{
    let grown = SnakeModel { body: s.body, direction: s.direction, eat: n };
    lemma_step_n_growing(grown, w, h, n as nat);
}

/// The snake: an ordered sequence of occupied cells (the first element is
/// the head), the current direction, and how many future ticks keep the
/// tail.
#[derive(Debug)]
pub struct Snake {
    pub body: Vec<Block>, // Snake body cells, head first
    pub direction: Direction, // Direction the snake is moving
    pub eat: u32, // Ticks the tail is kept, growing the snake
}

impl View for Snake {
    type V = SnakeModel;

    open spec fn view(&self) -> SnakeModel {
        SnakeModel { body: self.body@, direction: self.direction, eat: self.eat }
    }
}

impl Snake {
    pub open spec fn wf(&self, config: &Config) -> bool {
        self@.wf(config.grid_size.0, config.grid_size.1)
    }

    /// A single starting block at the configured position, travelling left,
    /// with `initial_size - 1` ticks of growth pending.
    pub fn new(config: &Config) -> (s: Snake)
        requires
            config.wf(),
        ensures
            s@.body == seq![
                Block(config.starting_position.0, config.starting_position.1),
            ],
            s@.direction == Direction::Left,
            s@.eat == config.initial_size - 1,
            s.wf(config),
    {
        let eat = config.initial_size - 1;
        let mut body: Vec<Block> = Vec::new();
        body.push(Block(config.starting_position.0, config.starting_position.1));
        proof {
            assert(body@ =~= seq![
                Block(config.starting_position.0, config.starting_position.1),
            ]);
        }
        Snake { body, direction: Direction::Left, eat }
    }

    /// Advance the snake one tick, as `snake_step` describes.
    pub fn update(&mut self, config: &Config)
        requires
            old(self).wf(config),
            config.wf(),
        ensures
            final(self)@ == snake_step(old(self)@, config.grid_size.0, config.grid_size.1),
            final(self).wf(config),
    {
        let w = config.grid_size.0;
        let h = config.grid_size.1;
        let Block(head_x, head_y) = self.body[0];

        // A new head one cell onward, wrapping around the grid edges.
        let new_head: Block = match self.direction {
            Direction::Up => Block(head_x, if head_y == 0 { h - 1 } else { head_y - 1 }),
            Direction::Down => Block(head_x, if head_y + 1 >= h { 0 } else { head_y + 1 }),
            Direction::Left => Block(if head_x == 0 { w - 1 } else { head_x - 1 }, head_y),
            Direction::Right => Block(if head_x + 1 >= w { 0 } else { head_x + 1 }, head_y),
        };
        assert(new_head == step_block(old(self)@.body[0], old(self)@.direction, w, h));

        self.body.insert(0, new_head); // Insert the new head

        if self.eat == 0 {
            self.body.pop(); // Remove the tail when no growth is pending
            proof {
                assert(old(self).body@.insert(0, new_head) =~= seq![new_head] + old(self).body@);
                assert((seq![new_head] + old(self).body@).drop_last() =~= seq![new_head]
                    + old(self).body@.drop_last());
            }
        } else {
            self.eat = self.eat - 1;
            proof {
                assert(old(self).body@.insert(0, new_head) =~= seq![new_head] + old(self).body@);
            }
        }
    }

    /// Change the travel direction; a request for the exact opposite of the
    /// current direction is ignored, so the snake can never reverse into
    /// itself.
    pub fn cd(&mut self, direction: Direction)
        ensures
            final(self)@.body == old(self)@.body,
            final(self)@.eat == old(self)@.eat,
            final(self)@.direction == if direction == opposite(old(self)@.direction) {
                old(self)@.direction
            } else {
                direction
            },
    {
        if self.direction == Direction::Up && direction == Direction::Down {
            return ;
        }
        if self.direction == Direction::Down && direction == Direction::Up {
            return ;
        }
        if self.direction == Direction::Left && direction == Direction::Right {
            return ;
        }
        if self.direction == Direction::Right && direction == Direction::Left {
            return ;
        }
        self.direction = direction;
    }

    /// Add `count` ticks of pending growth.
    pub fn grow(&mut self, count: u32)
        requires
            old(self)@.eat + count <= u32::MAX,
        ensures
            final(self)@.body == old(self)@.body,
            final(self)@.direction == old(self)@.direction,
            final(self)@.eat == old(self)@.eat + count,
    {
        self.eat = self.eat + count;
    }

    /// The head cell.
    pub fn head(&self) -> (r: &Block)
        requires
            self@.body.len() >= 1,
        ensures
            *r == self@.body[0],
    {
        &self.body[0]
    }
}

/// The category selected by a weighted roll in `0..100`: the weights are
/// cumulative, so a roll below 60 is a cherry, below 60 + 30 a banana, and
/// anything above that an apple.
pub open spec fn spec_food_type_for_roll(roll: u32) -> FoodType {
    if roll < spec_probality(FoodType::Cherry) {
        FoodType::Cherry
    } else if roll < spec_probality(FoodType::Cherry) + spec_probality(FoodType::Banana) {
        FoodType::Banana
    } else {
        FoodType::Apple
    }
}

/// The food category that a weighted roll in `0..100` selects.
pub fn food_type_for_roll(roll: u32) -> (t: FoodType)
    ensures
        t == spec_food_type_for_roll(roll),
{
    if roll < FoodType::Cherry.probality() {
        FoodType::Cherry
    } else if roll < FoodType::Cherry.probality() + FoodType::Banana.probality() {
        FoodType::Banana
    } else {
        FoodType::Apple
    }
}

/// A single food item: its category and the cell it occupies.
#[derive(Clone, Copy, Debug, PartialEq, Eq, Structural)]
pub struct Food {
    pub type_: FoodType, // Food category
    pub position: Block, // Food cell on the grid
}

impl Food {
    /// Spawn a food item: the category comes from a weighted roll, the cell
    /// from two independent uniform draws over the grid. The cell may fall
    /// under the snake body; no exclusion is applied.
    pub fn new(config: &Config) -> (f: Food)
        requires
            config.grid_size.0 >= 1,
            config.grid_size.1 >= 1,
        ensures
            f.position.0 < config.grid_size.0,
            f.position.1 < config.grid_size.1,
    {
        // Weighted category roll
        let random_value = random_below(100);
        let type_ = food_type_for_roll(random_value);
        // Uniform position on the grid
        let x = random_below(config.grid_size.0);
        let y = random_below(config.grid_size.1);
        Food { type_, position: Block(x, y) }
    }
}

/// The serializable aggregate of all mutable session progress.
#[derive(Debug)]
pub struct GameState {
    pub food: Option<Food>, // The active food item, if one has been spawned
    pub snake: Snake, // The snake
    pub score: u32, // Score of the game
    pub level: u32, // Level of the game
    pub speed: u32, // Tick delay of the game; smaller is faster
    pub game_over: bool, // Game over flag
}

/// Mathematical model of a game state.
pub struct GameStateModel {
    pub food: Option<Food>,
    pub snake: SnakeModel,
    pub score: u32,
    pub level: u32,
    pub speed: u32,
    pub game_over: bool,
}

impl View for GameState {
    type V = GameStateModel;

    open spec fn view(&self) -> GameStateModel {
        GameStateModel {
            food: self.food,
            snake: self.snake@,
            score: self.score,
            level: self.level,
            speed: self.speed,
            game_over: self.game_over,
        }
    }
}

impl GameState {
    pub open spec fn wf(&self, config: &Config) -> bool {
        self.snake.wf(config)
    }

    /// A fresh session: no food yet, a newly placed snake, zero score and
    /// level, the configured initial speed, and the game not over.
    pub fn new(config: &Config) -> (g: GameState)
        requires
            config.wf(),
        ensures
            g.food is None,
            g.snake@.body == seq![
                Block(config.starting_position.0, config.starting_position.1),
            ],
            g.snake@.direction == Direction::Left,
            g.snake@.eat == config.initial_size - 1,
            g.score == 0,
            g.level == 0,
            g.speed == config.initial_speed,
            g.game_over == false,
            g.wf(config),
    {
        let snake = Snake::new(config);
        let speed = config.initial_speed;
        GameState { food: None, snake, score: 0, level: 0, speed, game_over: false }
    }

    /// Whether a state lies on the configured grid, so that every simulation
    /// step is total over it. A state read back from a save must pass this
    /// check before it is resumed.
    pub fn valid(&self, config: &Config) -> (r: bool)
        ensures
            r == self.wf(config),
    {
        let w = config.grid_size.0;
        let h = config.grid_size.1;
        if self.snake.body.len() == 0 {
            return false;
        }
        let mut i: usize = 0;
        while i < self.snake.body.len()
            invariant
                i <= self.snake.body@.len(),
                forall|j: int|
                    0 <= j < i ==> (#[trigger] self.snake.body@[j]).0 < w
                        && self.snake.body@[j].1 < h,
                w == config.grid_size.0,
                h == config.grid_size.1,
            decreases self.snake.body@.len() - i,
        {
            let b = self.snake.body[i];
            if b.0 >= w || b.1 >= h {
                return false;
            }
            i = i + 1;
        }
        true
    }
}

} // verus!
