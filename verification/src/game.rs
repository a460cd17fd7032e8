//! The grid game: a body that moves one cell a turn, grows when it eats, and
//! ends the game when it leaves the grid, runs into itself or runs out of
//! moves.

use std::collections::VecDeque;
use vstd::prelude::*;
use crate::direction::Direction;
use crate::grid::{all_near, all_within, first_free, lemma_distinct_cells_fit, lemma_first_free};
use crate::position::Position;

verus! {

/// Smallest edge a grid can have.
pub const MIN_GRID_SIZE: isize = 3;

/// A body longer than this loses its tail on a move that eats nothing.
pub const MIN_SNAKE_LENGTH: usize = 2;

/// Moves a new game may make before it ends.
pub const INITIAL_MOVES: usize = 200;

/// Moves that each meal adds.
pub const MOVES_PER_FOOD: usize = 100;

/// The edge of the grid of a game asked for with edge `size`: `size`, or 3
/// if `size` is less.
pub open spec fn grid_edge(size: int) -> int {
    if size < MIN_GRID_SIZE {
        MIN_GRID_SIZE as int
    } else {
        size
    }
}

/// The game as a mathematical value.
pub struct GameState {
    /// Edge of the grid.
    pub size: int,
    /// Cells of the body, tail first and head last.
    pub body: Seq<Position>,
    /// The cell that holds the food.
    pub food: Position,
    /// Meals eaten.
    pub score: nat,
    /// Moves made.
    pub step_count: nat,
    /// Moves left before the game ends.
    pub remaining_moves: nat,
    /// Whether the game is over.
    pub finished: bool,
}

impl GameState {
    /// The head: the last cell of the body.
    pub open spec fn head(self) -> Position {
        self.body.last()
    }

    /// The cell one step from the head in direction `d`.
    pub open spec fn target(self, d: Direction) -> Position {
        Position { x: (self.head().x + d.dx()) as isize, y: (self.head().y + d.dy()) as isize }
    }

    /// Whether a step in direction `d` takes the head over the left or the
    /// right edge.
    pub open spec fn crosses_side(self, d: Direction) -> bool {
        !(0 <= self.head().x + d.dx() < self.size)
    }

    /// Whether a step in direction `d` takes the head over the top or the
    /// bottom edge.
    pub open spec fn leaves_rows(self, d: Direction) -> bool {
        !(0 <= self.head().y + d.dy() < self.size)
    }

    /// Whether a step in direction `d` ends on a cell of the body.
    pub open spec fn hits_body(self, d: Direction) -> bool {
        self.body.contains(self.target(d))
    }

    /// Whether a step in direction `d` ends on the food.
    pub open spec fn eats(self, d: Direction) -> bool {
        self.target(d) == self.food
    }

    /// The state with the food on `food`.
    pub open spec fn with_food(self, food: Position) -> GameState {
        GameState { food, ..self }
    }

    /// The state after the food has been eaten: the food lies on the first
    /// free cell, reading the grid row by row; if no cell is free the food
    /// stays and the game is over.
    pub open spec fn with_food_replaced(self) -> GameState {
        match first_free(self.size, self.body) {
            Some(p) => GameState { food: p, ..self },
            None => GameState { finished: true, ..self },
        }
    }

    /// The state after a move in direction `d`. A finished game stays as it
    /// is. Otherwise the head advances, the counters tick, and the game ends
    /// if the head left the grid, ran into the body or used the last move;
    /// on the food the body keeps its tail, the score and the budget grow and
    /// the food is replaced, elsewhere a body of more than two cells drops
    /// its tail.
    pub open spec fn after_move(self, d: Direction) -> GameState {
        if self.finished {
            self
        } else {
            let grown = self.body.push(self.target(d));
            let over = self.crosses_side(d) || self.leaves_rows(d) || self.hits_body(d)
                || self.remaining_moves == 1;
            let moved = GameState {
                body: grown,
                step_count: self.step_count + 1,
                remaining_moves: (self.remaining_moves - 1) as nat,
                finished: over,
                ..self
            };
            if self.eats(d) {
                (GameState {
                    score: self.score + 1,
                    remaining_moves: moved.remaining_moves + MOVES_PER_FOOD as nat,
                    ..moved
                }).with_food_replaced()
            } else if grown.len() > MIN_SNAKE_LENGTH {
                GameState { body: grown.drop_first(), ..moved }
            } else {
                moved
            }
        }
    }

    /// What holds of every game, over or not.
    pub open spec fn wf(self) -> bool {
        &&& MIN_GRID_SIZE <= self.size
        &&& INITIAL_MOVES + MOVES_PER_FOOD * (self.size * self.size) <= usize::MAX
        &&& self.size < isize::MAX
        &&& 1 <= self.body.len()
        &&& self.score + 1 <= self.body.len() <= self.score + 2
        &&& self.score <= self.size * self.size
        &&& self.step_count + self.remaining_moves == INITIAL_MOVES + MOVES_PER_FOOD * self.score
        &&& all_near(self.body, self.size)
        &&& self.food.within(self.size)
        &&& self.finished ==> self.step_count >= 1
        &&& !self.finished ==> self.alive()
    }

    /// What holds while the game goes on: the body lies on the grid and
    /// crosses itself nowhere, the food lies off the body, a move is left.
    pub open spec fn alive(self) -> bool {
        &&& !self.finished
        &&& all_within(self.body, self.size)
        &&& self.body.no_duplicates()
        &&& !self.body.contains(self.food)
        &&& self.remaining_moves >= 1
    }

    /// The state of a new game on a grid of edge `size`, or of edge 3 if
    /// `size` is less: the one cell of the body in the centre, the food on
    /// the first free cell.
    pub open spec fn initial(size: int) -> GameState {
        let size = grid_edge(size);
        GameState {
            size,
            body: seq![Position { x: (size / 2) as isize, y: (size / 2) as isize }],
            food: Position { x: 0, y: 0 },
            score: 0,
            step_count: 0,
            remaining_moves: INITIAL_MOVES as nat,
            finished: false,
        }
    }
}

/// The game.
pub struct Game {
    size: isize,
    snake: VecDeque<Position>,
    food: Position,
    score: usize,
    step_count: usize,
    remaining_moves: usize,
    finished: bool,
}

impl View for Game {
    type V = GameState;

    closed spec fn view(&self) -> GameState {
        GameState {
            size: self.size as int,
            body: self.snake@,
            food: self.food,
            score: self.score as nat,
            step_count: self.step_count as nat,
            remaining_moves: self.remaining_moves as nat,
            finished: self.finished,
        }
    }
}

/// Whether `cell` is one of `cells`.
pub fn occupies(cells: &VecDeque<Position>, cell: Position) -> (b: bool)
    ensures
        b == cells@.contains(cell),
{
    let mut i: usize = 0;
    while i < cells.len()
        invariant
            i <= cells@.len(),
            forall|j: int| 0 <= j < i ==> cells@[j] != cell,
        decreases cells@.len() - i,
    {
        if cells[i] == cell {
            return true;
        }
        i += 1;
    }
    false
}

/// The first cell of the grid with edge `size` that is not one of `cells`,
/// reading row by row; `None` if there is none.
pub fn find_free_cell(size: isize, cells: &VecDeque<Position>) -> (found: Option<Position>)
    requires
        0 <= size,
    ensures
        found == first_free(size as int, cells@),
{
    let mut y: isize = 0;
    while y < size
        invariant
            0 <= y <= size,
            first_free(size as int, cells@) == crate::grid::first_free_from(
                size as int,
                cells@,
                0,
                y as int,
            ),
        decreases size - y,
    {
        let mut x: isize = 0;
        while x < size
            invariant
                0 <= x <= size,
                0 <= y < size,
                first_free(size as int, cells@) == crate::grid::first_free_from(
                    size as int,
                    cells@,
                    x as int,
                    y as int,
                ),
            decreases size - x,
        {
            let cell = Position { x, y };
            if !occupies(cells, cell) {
                return Some(cell);
            }
            x += 1;
        }
        y += 1;
    }
    None
}

/// Every move keeps a well-formed game well-formed.
pub proof fn lemma_move_keeps_wf(s: GameState, d: Direction)
    requires
        s.wf(),
    ensures
        s.after_move(d).wf(),
{
    if !s.finished {
        let t = s.after_move(d);
        let target = s.target(d);
        let grown = s.body.push(target);
        let head = s.head();
        assert(head == s.body[s.body.len() - 1]);
        assert(head.within(s.size));
        assert(target.x == head.x + d.dx() && target.y == head.y + d.dy());
        lemma_distinct_cells_fit(s.body, s.size);
        assert forall|i: int| 0 <= i < grown.len() implies {
            &&& -1 <= (#[trigger] grown[i]).x <= s.size
            &&& -1 <= grown[i].y <= s.size
        } by {
            if i < s.body.len() {
                assert(grown[i] == s.body[i]);
                assert(s.body[i].within(s.size));
            }
        }
        let clear = !s.crosses_side(d) && !s.leaves_rows(d) && !s.hits_body(d);
        if clear {
            assert(target.within(s.size));
            assert forall|i: int| 0 <= i < grown.len() implies (#[trigger] grown[i]).within(
                s.size,
            ) by {
                if i < s.body.len() {
                    assert(grown[i] == s.body[i]);
                }
            }
            assert(grown.no_duplicates()) by {
                assert forall|i: int, j: int|
                    0 <= i < grown.len() && 0 <= j < grown.len() && i != j implies grown[i]
                    != grown[j] by {
                    if i < s.body.len() && j < s.body.len() {
                        assert(grown[i] == s.body[i] && grown[j] == s.body[j]);
                    } else if i < s.body.len() {
                        assert(s.body.contains(s.body[i]));
                    } else {
                        assert(s.body.contains(s.body[j]));
                    }
                }
            }
            lemma_distinct_cells_fit(grown, s.size);
        }
        if s.eats(d) {
            assert(clear);
            lemma_first_free(s.size, grown);
            assert(t.score <= s.size * s.size);
            assert(MOVES_PER_FOOD * (s.score + 1) == MOVES_PER_FOOD * s.score + MOVES_PER_FOOD)
                by (nonlinear_arith);
        } else if grown.len() > MIN_SNAKE_LENGTH {
            let rest = grown.drop_first();
            assert forall|i: int| 0 <= i < rest.len() implies {
                &&& -1 <= (#[trigger] rest[i]).x <= s.size
                &&& -1 <= rest[i].y <= s.size
            } by {
                assert(rest[i] == grown[i + 1]);
            }
            if !t.finished {
                assert forall|i: int| 0 <= i < rest.len() implies (#[trigger] rest[i]).within(
                    s.size,
                ) by {
                    assert(rest[i] == grown[i + 1]);
                }
                assert forall|i: int, j: int|
                    0 <= i < rest.len() && 0 <= j < rest.len() && i != j implies rest[i]
                    != rest[j] by {
                    assert(rest[i] == grown[i + 1] && rest[j] == grown[j + 1]);
                }
                if rest.contains(s.food) {
                    let i = choose|i: int| 0 <= i < rest.len() && rest[i] == s.food;
                    assert(rest[i] == grown[i + 1]);
                    if i + 1 < s.body.len() {
                        assert(s.body.contains(s.body[i + 1]));
                    }
                }
            }
        } else {
            if !t.finished {
                if grown.contains(s.food) {
                    let i = choose|i: int| 0 <= i < grown.len() && grown[i] == s.food;
                    if i < s.body.len() {
                        assert(s.body.contains(s.body[i]));
                    }
                }
            }
        }
    }
}

/// A finished game stays as it is, whatever the move.
pub proof fn lemma_finished_is_terminal(s: GameState, d: Direction)
    requires
        s.finished,
    ensures
        s.after_move(d) == s,
{
}

/// A move whose step leaves the grid, over any of the four edges, ends the
/// game.
pub proof fn lemma_wall_ends_game(s: GameState, d: Direction)
    requires
        s.wf(),
        !(0 <= s.head().x + d.dx() < s.size) || !(0 <= s.head().y + d.dy() < s.size),
    ensures
        s.after_move(d).finished,
{
    assert(s.head() == s.body[s.body.len() - 1]);
    if !s.finished && s.eats(d) {
        assert(s.target(d).within(s.size));
    }
}

/// A move whose step ends on a cell of the body ends the game.
pub proof fn lemma_collision_ends_game(s: GameState, d: Direction)
    requires
        s.wf(),
        s.hits_body(d),
    ensures
        s.after_move(d).finished,
{
}

/// A move onto the food scores one, keeps the tail so that the body is one
/// cell longer with the head on the old food, adds a hundred moves less the
/// one made, and, unless that ends the game, leaves the food on a cell of
/// the grid off the body.
pub proof fn lemma_eating(s: GameState, d: Direction)
    requires
        s.wf(),
        !s.finished,
        s.eats(d),
    ensures
        s.after_move(d).score == s.score + 1,
        s.after_move(d).body == s.body.push(s.food),
        s.after_move(d).body.len() == s.body.len() + 1,
        s.after_move(d).remaining_moves == s.remaining_moves - 1 + MOVES_PER_FOOD,
        !s.after_move(d).finished ==> s.after_move(d).food.within(s.size)
            && !s.after_move(d).body.contains(s.after_move(d).food),
        s.after_move(d).finished <==> s.remaining_moves == 1 || first_free(
            s.size,
            s.body.push(s.food),
        ) is None,
{
    lemma_move_keeps_wf(s, d);
    assert(s.head() == s.body[s.body.len() - 1]);
    assert(s.target(d).within(s.size));
}

/// A move that neither eats nor ends the game shifts the body: the head
/// advances and, once the body has two cells, the tail follows.
pub proof fn lemma_plain_move(s: GameState, d: Direction)
    requires
        s.wf(),
        !s.finished,
        !s.eats(d),
    ensures
        s.after_move(d).score == s.score,
        s.after_move(d).food == s.food,
        s.after_move(d).head() == s.target(d),
        s.after_move(d).body.len() == if s.body.len() < MIN_SNAKE_LENGTH {
            s.body.len() + 1
        } else {
            s.body.len()
        },
        s.after_move(d).step_count == s.step_count + 1,
        s.after_move(d).remaining_moves == s.remaining_moves - 1,
{
}

impl Game {
    /// A new game on a grid of edge `size`, or of edge 3 if `size` is less.
    pub fn new(size: isize) -> (game: Game)
        requires
            INITIAL_MOVES + MOVES_PER_FOOD * (grid_edge(size as int) * grid_edge(size as int))
                <= usize::MAX,
        ensures
            game@ == GameState::initial(size as int),
            game@.wf(),
            !game@.finished,
    {
        let size = if size < MIN_GRID_SIZE {
            MIN_GRID_SIZE
        } else {
            size
        };
        assert(size * size >= size && size * size >= 9) by (nonlinear_arith)
            requires
                size >= 3,
        ;
        let center = size / 2;
        let center_square = Position::new(center, center);
        let mut snake: VecDeque<Position> = VecDeque::new();
        snake.push_back(center_square);
        proof {
            lemma_first_free(size as int, snake@);
            let origin = Position { x: 0, y: 0 };
            assert(!snake@.contains(origin));
            assert(first_free(size as int, snake@) == Some(origin)) by {
                reveal_with_fuel(crate::grid::first_free_from, 2);
            }
        }
        let found = find_free_cell(size, &snake);
        let food = match found {
            Some(cell) => cell,
            None => Position::new(0, 0),
        };
        Game {
            size,
            snake,
            food,
            score: 0,
            step_count: 0,
            remaining_moves: INITIAL_MOVES,
            finished: false,
        }
    }

    /// Moves the head one step in direction `direction`, as
    /// [`GameState::after_move`] says.
    pub fn move_snake(&mut self, direction: Direction)
        requires
            old(self)@.wf(),
        ensures
            final(self)@ == old(self)@.after_move(direction),
            final(self)@.wf(),
    {
        if self.finished {
            return ;
        }
        let head = self.snake[self.snake.len() - 1];
        let offset = direction.value();
        if head.x + offset.x < 0 || head.x + offset.x >= self.size {
            self.game_over();
        }
        let target = head.add(offset);
        let struck = occupies(&self.snake, target);
        self.snake.push_back(target);
        proof {
            lemma_distinct_cells_fit(old(self)@.body, old(self)@.size);
            lemma_move_keeps_wf(old(self)@, direction);
        }
        self.step(struck);
    }

    /// The second half of a move, after the head has advanced: `struck` says
    /// whether the head landed on the body.
    fn step(&mut self, struck: bool)
        requires
            old(self)@.body.len() >= 2,
            old(self)@.remaining_moves >= 1,
            old(self)@.score + 1 < old(self)@.body.len() <= old(self)@.score + 3,
            old(self)@.body.len() <= old(self)@.size * old(self)@.size + 1,
            0 <= old(self)@.size,
            INITIAL_MOVES + MOVES_PER_FOOD * (old(self)@.size * old(self)@.size) <= usize::MAX,
            old(self)@.step_count + old(self)@.remaining_moves == INITIAL_MOVES + MOVES_PER_FOOD
                * old(self)@.score,
        ensures
            final(self)@ == Self::stepped(old(self)@, struck),
    {
        let head = self.snake[self.snake.len() - 1];
        if !(0 <= head.y && head.y < self.size) {
            self.game_over();
        }
        if struck {
            self.game_over();
        }
        self.step_count += 1;
        self.remaining_moves -= 1;
        if self.remaining_moves == 0 {
            self.game_over();
        }
        if head == self.food {
            self.score += 1;
            self.remaining_moves += MOVES_PER_FOOD;
            self.place_food();
        } else if self.snake.len() > MIN_SNAKE_LENGTH {
            let _ = self.snake.pop_front();
        }
    }

    /// What [`Game::step`] makes of a state whose head has advanced.
    spec fn stepped(s: GameState, struck: bool) -> GameState {
        let over = s.finished || !(0 <= s.head().y < s.size) || struck || s.remaining_moves == 1;
        let moved = GameState {
            step_count: s.step_count + 1,
            remaining_moves: (s.remaining_moves - 1) as nat,
            finished: over,
            ..s
        };
        if s.head() == s.food {
            (GameState {
                score: s.score + 1,
                remaining_moves: moved.remaining_moves + MOVES_PER_FOOD as nat,
                ..moved
            }).with_food_replaced()
        } else if s.body.len() > MIN_SNAKE_LENGTH {
            GameState { body: s.body.drop_first(), ..moved }
        } else {
            moved
        }
    }

    /// Puts the food on the first free cell, reading the grid row by row; if
    /// no cell is free the food stays and the game is over.
    fn place_food(&mut self)
        requires
            0 <= old(self)@.size,
        ensures
            final(self)@ == old(self)@.with_food_replaced(),
    {
        match find_free_cell(self.size, &self.snake) {
            Some(cell) => {
                self.food = cell;
            },
            None => {
                self.game_over();
            },
        }
    }

    /// Ends the game.
    fn game_over(&mut self)
        ensures
            final(self)@ == (GameState { finished: true, ..old(self)@ }),
    {
        self.finished = true;
    }

    /// Whether the game is over.
    pub fn finished(&self) -> (b: bool)
        ensures
            b == self@.finished,
    {
        self.finished
    }

    /// Meals eaten.
    pub fn score(&self) -> (n: usize)
        ensures
            n == self@.score,
    {
        self.score
    }

    /// Moves made.
    pub fn step_count(&self) -> (n: usize)
        ensures
            n == self@.step_count,
    {
        self.step_count
    }

    /// Moves left before the game ends.
    pub fn remaining_moves(&self) -> (n: usize)
        ensures
            n == self@.remaining_moves,
    {
        self.remaining_moves
    }

    /// The body, tail first and head last.
    pub fn snake(&self) -> (body: &VecDeque<Position>)
        ensures
            body@ == self@.body,
    {
        &self.snake
    }

    /// The head.
    pub fn head(&self) -> (p: Position)
        requires
            self@.body.len() >= 1,
        ensures
            p == self@.head(),
    {
        self.snake[self.snake.len() - 1]
    }

    /// The cell that holds the food.
    pub fn food(&self) -> (p: Position)
        ensures
            p == self@.food,
    {
        self.food
    }

    /// Edge of the grid.
    pub fn size(&self) -> (n: isize)
        ensures
            n == self@.size,
    {
        self.size
    }

    /// Moves the food to `food`, a cell of the grid off the body.
    pub fn set_food(&mut self, food: Position)
        requires
            old(self)@.wf(),
            food.within(old(self)@.size),
            !old(self)@.body.contains(food),
        ensures
            final(self)@ == old(self)@.with_food(food),
            final(self)@.wf(),
    {
        self.food = food;
    }
}

} // verus!
