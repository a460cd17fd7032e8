//! An agent: a game, the brain that plays it, and the pictures of the game
//! after each of its moves.

use vstd::prelude::*;
use crate::brain::{Brain, BRAIN_WEIGHTS};
use crate::chromosome::Chromosome;
use crate::direction::{Direction, MOVE_COUNT};
use crate::game::{grid_edge, Game, GameState, INITIAL_MOVES, MOVES_PER_FOOD};
use crate::network::Network;
use crate::render::rendering;
use crate::vision::{vision_of, VISION_LENGTH};

verus! {

/// What one meal adds to the fitness, in hundredths.
pub const FITNESS_PER_FOOD: u32 = 1000;

/// The fitness of a game in hundredths: ten for each meal and a hundredth
/// for each move made.
pub open spec fn fitness_of(s: GameState) -> int {
    FITNESS_PER_FOOD * s.score + s.step_count
}

/// The most that the fitness of a game on a grid of edge `size` can be.
pub open spec fn fitness_bound(size: int) -> int {
    (FITNESS_PER_FOOD + MOVES_PER_FOOD) * (size * size) + INITIAL_MOVES
}

/// The pictures in `history` as sequences of characters.
pub open spec fn frames(history: Seq<String>) -> Seq<Seq<char>> {
    history.map_values(|frame: String| frame@)
}

/// An agent with a brain of weights of type `W`.
pub struct Snake<W> {
    game: Game,
    brain: Brain<W>,
    history: Vec<String>,
}

/// An agent as a mathematical value.
pub struct SnakeModel<W> {
    /// The game.
    pub game: GameState,
    /// The weights of the brain, in stream order.
    pub weights: Seq<W>,
    /// The picture of the game after each move made.
    pub history: Seq<Seq<char>>,
}

impl<W: Copy> SnakeModel<W> {
    /// The agent after the move with index `action`: a finished game stays
    /// as it is; otherwise the game makes the move and its picture joins the
    /// history.
    pub open spec fn acted(self, action: int) -> SnakeModel<W> {
        if self.game.finished {
            self
        } else {
            let game = self.game.after_move(Direction::nth(action));
            SnakeModel { game, history: self.history.push(rendering(game)), ..self }
        }
    }
}

impl<W: Copy> View for Snake<W> {
    type V = SnakeModel<W>;

    closed spec fn view(&self) -> SnakeModel<W> {
        SnakeModel {
            game: self.game@,
            weights: self.brain.weights(),
            history: frames(self.history@),
        }
    }
}

impl<W: Copy> Snake<W> {
    /// The brain as a value.
    pub closed spec fn brain_model(&self) -> Brain<W> {
        self.brain
    }

    /// What holds of every agent: its game and its brain are well-formed,
    /// and the grid is small enough for the fitness to fit in 32 bits.
    pub open spec fn wf(&self) -> bool {
        &&& self@.game.wf()
        &&& self.brain_model().wf()
        &&& self.brain_model().weights() == self@.weights
        &&& fitness_bound(self@.game.size) <= u32::MAX
    }

    /// Whether one tick with `decide` can take this agent to `after`: a
    /// finished game stays as it is, and any other makes the move that
    /// `decide` gave for the network and the vision vector.
    pub open spec fn ticked<F: Fn(&Network<W>, &Vec<usize>) -> usize>(
        &self,
        decide: &F,
        after: SnakeModel<W>,
    ) -> bool {
        if self@.game.finished {
            after == self@
        } else {
            exists|seen: Vec<usize>, action: usize|
                #![trigger decide.ensures((&self.brain_model().nn_value(), &seen), action)]
                {
                    &&& seen@ == vision_of(self@.game)
                    &&& decide.ensures((&self.brain_model().nn_value(), &seen), action)
                    &&& action < MOVE_COUNT
                    &&& after == self@.acted(action as int)
                }
        }
    }

    /// A new agent on a grid of edge `grid_size` (at least 3) whose brain is
    /// made of the random draws `draws`.
    pub fn random(draws: &Vec<W>, grid_size: isize) -> (snake: Snake<W>)
        requires
            draws@.len() == BRAIN_WEIGHTS,
            fitness_bound(grid_edge(grid_size as int)) <= u32::MAX,
        ensures
            snake.wf(),
            snake@.game == GameState::initial(grid_size as int),
            snake@.history.len() == 0,
            crate::network::draws_of(snake.brain_model().network()) == draws@,
    {
        proof {
            lemma_bound_allows_game(grid_edge(grid_size as int));
        }
        let game = Game::new(grid_size);
        let brain = Brain::random(draws);
        let snake = Snake { game, brain, history: Vec::new() };
        assert(frames(snake.history@) =~= Seq::empty());
        snake
    }

    /// The game.
    pub fn game(&self) -> (game: &Game)
        ensures
            game@ == self@.game,
    {
        &self.game
    }

    /// The brain.
    pub fn brain(&self) -> (brain: &Brain<W>)
        ensures
            *brain == self.brain_model(),
    {
        &self.brain
    }

    /// The picture of the game after each move made.
    pub fn history(&self) -> (history: &Vec<String>)
        ensures
            frames(history@) == self@.history,
    {
        &self.history
    }

    /// What the agent sees of its game.
    pub fn process_vision(&self) -> (seen: Vec<usize>)
        requires
            self.wf(),
        ensures
            seen@ == vision_of(self@.game),
            seen@.len() == VISION_LENGTH,
    {
        self.game.vision()
    }

    /// Makes the move with index `action_index`, unless the game is over,
    /// and records the picture of the game after it.
    pub fn act(&mut self, action_index: usize)
        requires
            old(self).wf(),
            action_index < MOVE_COUNT,
        ensures
            final(self).wf(),
            final(self)@ == old(self)@.acted(action_index as int),
            final(self).brain_model() == old(self).brain_model(),
    {
        if self.game.finished() {
            return ;
        }
        let direction = Direction::from_index(action_index);
        self.game.move_snake(direction);
        let picture = self.game.display();
        let ghost before = frames(self.history@);
        self.history.push(picture);
        assert(frames(self.history@) =~= before.push(picture@));
    }

    /// One tick: unless the game is over, the agent looks, `decide` picks
    /// the index of a move from the network and what the agent sees, and the
    /// agent makes that move.
    pub fn make_move<F: Fn(&Network<W>, &Vec<usize>) -> usize>(&mut self, decide: &F)
        requires
            old(self).wf(),
            forall|nn: &Network<W>, seen: &Vec<usize>|
                seen@.len() == VISION_LENGTH ==> #[trigger] decide.requires((nn, seen)),
            forall|nn: &Network<W>, seen: &Vec<usize>, action: usize|
                #[trigger] decide.ensures((nn, seen), action) ==> action < MOVE_COUNT,
        ensures
            final(self).wf(),
            final(self).brain_model() == old(self).brain_model(),
            old(self).ticked(decide, final(self)@),
    {
        if self.game.finished() {
            return ;
        }
        let vision = self.process_vision();
        let action_index = decide(self.brain.nn(), &vision);
        self.act(action_index);
    }

    /// The fitness in hundredths: a thousand for each meal and one for each
    /// move made.
    pub fn fitness(&self) -> (fitness: u32)
        requires
            self.wf(),
        ensures
            fitness == fitness_of(self@.game),
    {
        proof {
            lemma_fitness_bounded(self@.game);
        }
        let score = self.game.score();
        let steps = self.game.step_count();
        assert(1000 * score <= 1000 * score + steps) by (nonlinear_arith)
            requires
                steps >= 0,
        ;
        (score as u32) * FITNESS_PER_FOOD + steps as u32
    }

    /// The weights of the brain as a chromosome.
    pub fn as_chromosome(&self) -> (chromosome: Chromosome<W>)
        ensures
            chromosome@ == self@.weights,
    {
        self.brain.as_chromosome()
    }

    /// A new agent on a grid of edge `grid_size` whose brain has the genes
    /// of `chromosome` for weights.
    pub fn from_chromosome(chromosome: Chromosome<W>, grid_size: isize) -> (snake: Snake<W>)
        requires
            chromosome@.len() == BRAIN_WEIGHTS,
            fitness_bound(grid_edge(grid_size as int)) <= u32::MAX,
        ensures
            snake.wf(),
            snake@.game == GameState::initial(grid_size as int),
            snake@.weights == chromosome@,
            snake@.history.len() == 0,
    {
        proof {
            lemma_bound_allows_game(grid_edge(grid_size as int));
        }
        let game = Game::new(grid_size);
        let brain = Brain::from_chromosome(chromosome);
        let snake = Snake { game, brain, history: Vec::new() };
        assert(frames(snake.history@) =~= Seq::empty());
        snake
    }
}

/// A grid whose fitness fits in 32 bits is one a game can be played on.
pub proof fn lemma_bound_allows_game(size: int)
    requires
        fitness_bound(size) <= u32::MAX,
    ensures
        INITIAL_MOVES + MOVES_PER_FOOD * (size * size) <= usize::MAX,
{
    assert(size * size >= 0) by (nonlinear_arith);
    assert(1100 * (size * size) >= 100 * (size * size)) by (nonlinear_arith)
        requires
            size * size >= 0,
    ;
}

/// The fitness of a well-formed game is within the bound of its grid.
pub proof fn lemma_fitness_bounded(s: GameState)
    requires
        s.wf(),
    ensures
        0 <= fitness_of(s) <= fitness_bound(s.size),
        s.step_count >= 1 ==> fitness_of(s) >= 1,
{
    assert(1000 * s.score + 100 * s.score <= 1100 * (s.size * s.size)) by (nonlinear_arith)
        requires
            s.score <= s.size * s.size,
    ;
}

} // verus!
