//! The snake's grid and the rules of the game.

use vstd::arithmetic::div_mod::lemma_fundamental_div_mod_converse;
use vstd::prelude::*;
use vstd::std_specs::vecdeque::VecDequeAdditionalSpecFns;
use crate::snake::food::{colour_text, Food};
use crate::snake::pos::{Cell, Pos};
use crate::snake::snake::{stepped, Snake};
use crate::text::same_text;

verus! {

/// The four ways the snake can go.
#[derive(Debug, Clone, Copy, PartialEq, Eq, Structural)]
pub enum Direction {
    Up,
    Down,
    Left,
    Right,
}

impl Direction {
    /// The vector of one step: rows grow downward.
    pub open spec fn step(self) -> Cell {
        match self {
            Direction::Down => (0, 1),
            Direction::Up => (0, -1),
            Direction::Left => (-1, 0),
            Direction::Right => (1, 0),
        }
    }

    /// The direction that the key with the given code stands for: one for
    /// each of the four arrows, and none for any other key.
    pub open spec fn of_code(code: Seq<char>) -> Option<Direction> {
        if code == "ArrowLeft"@ {
            Some(Direction::Left)
        } else if code == "ArrowRight"@ {
            Some(Direction::Right)
        } else if code == "ArrowUp"@ {
            Some(Direction::Up)
        } else if code == "ArrowDown"@ {
            Some(Direction::Down)
        } else {
            None
        }
    }

    /// The direction that the key with the given code stands for.
    pub fn from_key_code(code: &str) -> (direction: Option<Direction>)
        ensures
            direction == Direction::of_code(code@),
    {
        if same_text(code, "ArrowLeft") {
            Some(Direction::Left)
        } else if same_text(code, "ArrowRight") {
            Some(Direction::Right)
        } else if same_text(code, "ArrowUp") {
            Some(Direction::Up)
        } else if same_text(code, "ArrowDown") {
            Some(Direction::Down)
        } else {
            None
        }
    }

    /// The vector of one step.
    pub fn step_pos(self) -> (v: Pos)
        ensures
            v@ == self.step(),
    {
        match self {
            Direction::Down => Pos(0, 1),
            Direction::Up => Pos(0, -1),
            Direction::Left => Pos(-1, 0),
            Direction::Right => Pos(1, 0),
        }
    }
}

/// A game of snake: the grid's size, the snake, the food, and whether the
/// snake has run into a wall.
#[derive(Debug, Clone)]
pub struct GameBoard<'a> {
    pub width: u32,
    pub height: u32,
    pub snake: Snake<'a>,
    pub is_failed: bool,
    pub food: Food<'a>,
}

impl GameBoard<'static> {
    /// A new game on a grid of the given size with the given food: the
    /// snake alive, three cells long, its head in the middle of the grid
    /// and its body to the right of it.
    pub fn with_food(width: u32, height: u32, food: Food<'static>) -> (game: GameBoard<'static>)
        requires
            width <= 0x7fff_ffff,
            height <= 0x7fff_ffff,
        ensures
            game.wf(),
            game.width == width,
            game.height == height,
            !game.is_failed,
            game.food == food,
            !game.snake.is_dead,
            game.snake.positions@ == seq![
                Pos((width / 2) as i32, (height / 2) as i32),
                Pos((width / 2 + 1) as i32, (height / 2) as i32),
                Pos((width / 2 + 2) as i32, (height / 2) as i32),
            ],
    {
        let x: i32 = width as i32 / 2;
        let y: i32 = height as i32 / 2;
        let mut body: Vec<Pos> = Vec::new();
        body.push(Pos(x, y));
        body.push(Pos(x + 1, y));
        body.push(Pos(x + 2, y));
        let snake = Snake::new(body);
        assert(snake.positions@ =~= seq![Pos(x, y), Pos((x + 1) as i32, y), Pos((x + 2) as i32, y)]);
        GameBoard { width, height, snake, is_failed: false, food }
    }

    /// A new game on a grid of the given size, as
    /// [`GameBoard::with_food`], the food being drawn on the grid.
    pub fn new(width: u32, height: u32) -> (game: GameBoard<'static>)
        requires
            width <= 0x7fff_ffff,
            height <= 0x7fff_ffff,
        ensures
            game.wf(),
            game.width == width,
            game.height == height,
            !game.is_failed,
            game.food.lies_on(width as int, height as int),
            exists|i: int| 0 <= i < 7 && game.food.food_color@ == #[trigger] colour_text(i),
            !game.snake.is_dead,
            game.snake.positions@ == seq![
                Pos((width / 2) as i32, (height / 2) as i32),
                Pos((width / 2 + 1) as i32, (height / 2) as i32),
                Pos((width / 2 + 2) as i32, (height / 2) as i32),
            ],
    {
        GameBoard::with_food(width, height, Food::random(width, height))
    }
}

impl<'a> GameBoard<'a> {
    /// A game is well formed when no side of its grid has more cells than a
    /// [`Pos`] can number, and its snake has a head and a neck.
    pub open spec fn wf(&self) -> bool {
        &&& self.width <= 0x8000_0000
        &&& self.height <= 0x8000_0000
        &&& self.snake.positions@.len() >= 2
    }

    /// Whether the cell `c` lies on the grid.
    pub open spec fn on_grid(&self, c: Cell) -> bool {
        0 <= c.0 < self.width && 0 <= c.1 < self.height
    }

    /// Whether a step in the given direction would take the head back onto
    /// the neck.
    pub open spec fn turns_back(&self, direction: Direction) -> bool {
        self.snake.positions@[1]@ == self.snake.ahead(direction)
    }

    /// Every cell of the grid, row by row from the top, each row from the
    /// left.
    pub open spec fn all_cells(&self) -> Seq<Cell> {
        Seq::new(
            (self.width * self.height) as nat,
            |k: int| (k % (self.width as int), k / (self.width as int)),
        )
    }

    /// The text shown at the cell `pos`: the food's glyph where the food
    /// lies, else the colour of the snake where its body lies, else the
    /// empty text.
    pub open spec fn label_at(&self, pos: Pos) -> Seq<char> {
        if self.food.pos == pos {
            self.food.food_color@
        } else if self.snake.positions@.contains(pos) {
            self.snake.color@
        } else {
            Seq::empty()
        }
    }

    /// Whether the cell `head_next_position` lies on the grid.
    pub fn is_in_bounds(&self, head_next_position: Pos) -> (inside: bool)
        ensures
            inside == self.on_grid(head_next_position@),
    {
        head_next_position.0 >= 0 && (head_next_position.0 as u32) < self.width
            && head_next_position.1 >= 0 && (head_next_position.1 as u32) < self.height
    }

    /// Whether `after` is the game one step in the given direction later,
    /// where `next_food` is the food that is laid out if the snake steps
    /// onto the present one.
    ///
    /// A step back onto the neck is ignored. A step off the grid ends the
    /// game and kills the snake, which stays where it is. Any other step is
    /// the snake's own, as [`Snake::try_move`] says, and if it leads onto
    /// the food, `next_food` takes the food's place.
    pub open spec fn steps_to(
        &self,
        direction: Direction,
        next_food: Food<'a>,
        after: GameBoard<'a>,
    ) -> bool {
        let ahead = self.snake.ahead(direction);
        let body = self.snake.positions@;
        &&& after.width == self.width
        &&& after.height == self.height
        &&& after.snake.color == self.snake.color
        &&& after.snake.head_color == self.snake.head_color
        &&& if self.turns_back(direction) {
            after == *self
        } else if !self.on_grid(ahead) {
            &&& after.is_failed
            &&& after.snake.is_dead
            &&& after.snake.positions@ == body
            &&& after.food == self.food
        } else {
            let next = Pos(ahead.0 as i32, ahead.1 as i32);
            &&& after.is_failed == self.is_failed
            &&& after.snake.is_dead == (self.snake.is_dead || body.contains(next))
            &&& after.snake.positions@ == if body.contains(next) {
                body
            } else {
                stepped(body, next, next == self.food.pos)
            }
            &&& after.food == if self.eats(direction) {
                next_food
            } else {
                self.food
            }
        }
    }

    /// Whether a step in the given direction leads onto the food: the step
    /// is not one back onto the neck, and the food lies ahead, on the grid.
    pub open spec fn eats(&self, direction: Direction) -> bool {
        &&& !self.turns_back(direction)
        &&& self.on_grid(self.snake.ahead(direction))
        &&& self.food.pos@ == self.snake.ahead(direction)
    }

    /// Whether a step in the given direction leads onto the food.
    pub fn will_eat(&self, direction: Direction) -> (eats: bool)
        requires
            self.wf(),
        ensures
            eats == self.eats(direction),
    {
        let step: Pos = direction.step_pos();
        let head: Pos = self.snake.positions[0];
        match head.checked_plus(&step) {
            Some(ahead) => {
                let neck: Pos = self.snake.positions[1];
                neck != ahead && self.is_in_bounds(ahead) && ahead == self.food.pos
            },
            None => false,
        }
    }

    /// One step of the snake in the given direction, where `next_food` is
    /// the food that is laid out if the snake steps onto the present one:
    /// see [`GameBoard::steps_to`].
    pub fn try_move_with(&mut self, direction: Direction, next_food: Food<'a>)
        requires
            old(self).wf(),
        ensures
            final(self).wf(),
            old(self).steps_to(direction, next_food, *final(self)),
    {
        let step: Pos = direction.step_pos();
        let head: Pos = self.snake.positions[0];
        let head_next_position: Pos = match head.checked_plus(&step) {
            Some(p) => p,
            None => {
                self.is_failed = true;
                self.snake.is_dead = true;
                return;
            },
        };
        let neck: Pos = self.snake.positions[1];
        if neck == head_next_position {
            return;
        }
        if self.is_in_bounds(head_next_position) {
            self.snake.try_move(direction, &self.food);
            if head_next_position == self.food.pos {
                self.food = next_food;
            }
        } else {
            self.is_failed = true;
            self.snake.is_dead = true;
        }
    }

    /// One step of the snake in the given direction: as
    /// [`GameBoard::try_move_with`], the next food being drawn on the grid
    /// when the snake steps onto the present one.
    pub fn try_move(&mut self, direction: Direction)
        requires
            old(self).wf(),
        ensures
            final(self).wf(),
            exists|next_food: Food<'a>|
                next_food.lies_on(old(self).width as int, old(self).height as int)
                    && #[trigger] old(self).steps_to(direction, next_food, *final(self)),
    {
        let next_food: Food<'a> = if self.will_eat(direction) {
            Food::random(self.width, self.height)
        } else {
            Food { pos: Pos(0, 0), food_color: self.food.food_color }
        };
        self.try_move_with(direction, next_food);
    }

    /// The text shown at the cell `pos`: the food's glyph where the food
    /// lies, else the colour of the snake where its body lies, else the
    /// empty text.
    pub fn get_position(&self, pos: &Pos) -> (label: &'a str)
        ensures
            label@ == self.label_at(*pos),
    {
        if self.food.pos == *pos {
            return self.food.food_color;
        }
        if self.snake.is_eat_self(pos) {
            return self.snake.color;
        }
        proof {
            reveal_strlit("");
        }
        let label: &'static str = "";
        assert(label@ =~= Seq::<char>::empty());
        label
    }

    /// Every cell of the grid, row by row from the top, each row from the
    /// left.
    pub fn iter_positions(&self) -> (cells: Vec<Pos>)
        requires
            self.width <= 0x8000_0000,
            self.height <= 0x8000_0000,
        ensures
            cells.len() == self.all_cells().len(),
            forall|k: int| 0 <= k < cells.len() ==> (#[trigger] cells[k])@ == self.all_cells()[k],
    {
        let mut cells: Vec<Pos> = Vec::new();
        let mut y: u32 = 0;
        while y < self.height
            invariant
                self.width <= 0x8000_0000,
                self.height <= 0x8000_0000,
                y <= self.height,
                cells.len() == y * self.width,
                forall|k: int|
                    0 <= k < cells.len() ==> (#[trigger] cells[k])@ == (
                        k % (self.width as int),
                        k / (self.width as int),
                    ),
            decreases self.height - y,
        {
            let mut x: u32 = 0;
            while x < self.width
                invariant
                    self.width <= 0x8000_0000,
                    self.height <= 0x8000_0000,
                    y < self.height,
                    x <= self.width,
                    cells.len() == y * self.width + x,
                    forall|k: int|
                        0 <= k < cells.len() ==> (#[trigger] cells[k])@ == (
                            k % (self.width as int),
                            k / (self.width as int),
                        ),
                decreases self.width - x,
            {
                proof {
                    lemma_fundamental_div_mod_converse(
                        y * self.width + x,
                        self.width as int,
                        y as int,
                        x as int,
                    );
                }
                cells.push(Pos(x as i32, y as i32));
                x += 1;
            }
            assert(y * self.width + self.width == (y + 1) * self.width) by (nonlinear_arith);
            y += 1;
        }
        assert(self.height * self.width == self.width * self.height) by (nonlinear_arith);
        cells
    }
}

} // verus!
