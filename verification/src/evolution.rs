//! The evolution of a population of agents: every agent plays its game tick
//! by tick, and at the end of a generation the genetic algorithm makes the
//! next one.

use rand::RngCore;
use vstd::prelude::*;
use crate::brain::{lemma_brain_chromosome_len, BRAIN_WEIGHTS};
use crate::chromosome::Chromosome;
use crate::crossover::{inherits, CrossoverMethod, UniformCrossover};
use crate::direction::MOVE_COUNT;
use crate::game::{grid_edge, GameState};
use crate::genetic::GeneticAlgorithm;
use crate::individual::{uniform_length, Individual};
use crate::mutation::MutationMethod;
use crate::network::Network;
use crate::selection::{
    lemma_total_fitness_bounds,
    total_fitness,
    RouletteWheelSelection,
    SelectionMethod,
};
use crate::snake::{fitness_bound, fitness_of, lemma_fitness_bounded, Snake};
use crate::snake_individual::SnakeIndividual;
use crate::vision::VISION_LENGTH;

verus! {

/// Number of agents in a population of the game as shipped.
pub const POPULATION_SIZE: usize = 2000;

/// Number of ticks in a generation.
pub const GENERATION_LENGTH: usize = 10_000;

/// Which agent's history to show again.
#[derive(Clone, Copy, Debug, PartialEq, Eq, Structural)]
pub enum Replay {
    Best,
    Worst,
}

/// Whether `k` is the place of the fittest of `fitness`, the last of them if
/// several are as fit.
pub open spec fn is_best(fitness: Seq<int>, k: int) -> bool {
    &&& 0 <= k < fitness.len()
    &&& forall|j: int| 0 <= j < fitness.len() ==> fitness[j] <= fitness[k]
    &&& forall|j: int| k < j < fitness.len() ==> fitness[j] < fitness[k]
}

/// Whether `k` is the place of the least fit of `fitness`, the first of them
/// if several are as unfit.
pub open spec fn is_worst(fitness: Seq<int>, k: int) -> bool {
    &&& 0 <= k < fitness.len()
    &&& forall|j: int| 0 <= j < fitness.len() ==> fitness[k] <= fitness[j]
    &&& forall|j: int| 0 <= j < k ==> fitness[k] < fitness[j]
}

/// The fitnesses of `population`, agent by agent.
pub open spec fn fitnesses<W: Copy>(population: Seq<Snake<W>>) -> Seq<int> {
    Seq::new(population.len(), |i: int| fitness_of(population[i]@.game))
}

/// A population, the genetic algorithm that renews it, and its age in ticks.
pub struct Evolution<W, M> {
    population: Vec<Snake<W>>,
    ga: GeneticAlgorithm<RouletteWheelSelection, UniformCrossover, M>,
    age: usize,
    grid_size: isize,
}

impl<W: Copy, M: MutationMethod<W>> Evolution<W, M> {
    /// The agents.
    pub closed spec fn snakes(&self) -> Seq<Snake<W>> {
        self.population@
    }

    /// Ticks since the generation began.
    pub closed spec fn ticks(&self) -> nat {
        self.age as nat
    }

    /// The edge that new games are asked for with.
    pub closed spec fn grid_size_value(&self) -> isize {
        self.grid_size
    }

    /// Edge of the grid of every game.
    pub open spec fn edge(&self) -> int {
        grid_edge(self.grid_size_value() as int)
    }

    /// The state of a new game of this evolution.
    pub open spec fn fresh_game(&self) -> GameState {
        GameState::initial(self.grid_size_value() as int)
    }

    /// What holds of every evolution: there are agents, all well-formed and
    /// on grids of one size; their fitnesses add up within 32 bits whatever
    /// they come to; and once a tick has passed every agent has moved.
    pub open spec fn wf(&self) -> bool {
        &&& self.snakes().len() >= 1
        &&& forall|i: int|
            0 <= i < self.snakes().len() ==> {
                &&& (#[trigger] self.snakes()[i]).wf()
                &&& self.snakes()[i]@.game.size == self.edge()
                &&& self.ticks() >= 1 ==> self.snakes()[i]@.game.step_count >= 1
            }
        &&& self.snakes().len() * fitness_bound(self.edge()) <= u32::MAX
    }

    /// The mutation method of the genetic algorithm.
    pub closed spec fn mutation(&self) -> M {
        self.ga.mutation()
    }

    /// Whether `weights` can be the weights of an agent of the generation
    /// after this one: some chromosome that has every gene from one or the
    /// other of two agents of positive fitness, mutated.
    pub open spec fn offspring(&self, weights: Seq<W>) -> bool {
        offspring_of(self.snakes(), self.mutation(), weights)
    }

    /// Whether a next generation can be made: some agent has a fitness above
    /// zero.
    pub open spec fn can_evolve(&self) -> bool {
        exists|i: int| 0 <= i < self.snakes().len() && fitness_of(self.snakes()[i]@.game) > 0
    }

    /// A new evolution on grids of edge `game_grid_size`: one agent for each
    /// entry of `draws`, its brain made of the random draws of that entry.
    pub fn random(draws: &Vec<Vec<W>>, game_grid_size: isize, mutation_method: M) -> (evolution:
        Evolution<W, M>)
        requires
            draws@.len() >= 1,
            forall|i: int| 0 <= i < draws@.len() ==> (#[trigger] draws@[i])@.len() == BRAIN_WEIGHTS,
            draws@.len() * fitness_bound(grid_edge(game_grid_size as int)) <= u32::MAX,
        ensures
            evolution.wf(),
            evolution.ticks() == 0,
            evolution.grid_size_value() == game_grid_size,
            evolution.mutation() == mutation_method,
            evolution.snakes().len() == draws@.len(),
            forall|i: int|
                0 <= i < draws@.len() ==> {
                    &&& (#[trigger] evolution.snakes()[i])@.game == GameState::initial(
                        game_grid_size as int,
                    )
                    &&& evolution.snakes()[i]@.history.len() == 0
                    &&& crate::network::draws_of(evolution.snakes()[i].brain_model().network())
                        == draws@[i]@
                },
    {
        let ghost edge = grid_edge(game_grid_size as int);
        assert(fitness_bound(edge) <= u32::MAX) by (nonlinear_arith)
            requires
                draws@.len() >= 1,
                draws@.len() * fitness_bound(edge) <= u32::MAX,
                fitness_bound(edge) >= 0 || fitness_bound(edge) < 0,
        ;
        let mut population: Vec<Snake<W>> = Vec::with_capacity(draws.len());
        let mut i: usize = 0;
        while i < draws.len()
            invariant
                i <= draws@.len(),
                population@.len() == i,
                edge == grid_edge(game_grid_size as int),
                fitness_bound(edge) <= u32::MAX,
                forall|k: int|
                    0 <= k < draws@.len() ==> (#[trigger] draws@[k])@.len() == BRAIN_WEIGHTS,
                forall|k: int|
                    0 <= k < i ==> {
                        &&& (#[trigger] population@[k]).wf()
                        &&& population@[k]@.game == GameState::initial(game_grid_size as int)
                        &&& population@[k]@.history.len() == 0
                        &&& crate::network::draws_of(population@[k].brain_model().network())
                            == draws@[k]@
                    },
            decreases draws@.len() - i,
        {
            let snake = Snake::random(&draws[i], game_grid_size);
            population.push(snake);
            i += 1;
        }
        let ga = GeneticAlgorithm::new(
            RouletteWheelSelection::new(),
            UniformCrossover::new(),
            mutation_method,
        );
        Evolution { population, ga, age: 0, grid_size: game_grid_size }
    }

    /// The agents.
    pub fn population(&self) -> (population: &Vec<Snake<W>>)
        ensures
            population@ == self.snakes(),
    {
        &self.population
    }

    /// The edge that new games are asked for with.
    pub fn grid_size(&self) -> (size: isize)
        ensures
            size == self.grid_size_value(),
    {
        self.grid_size
    }

    /// Ticks since the generation began.
    pub fn age(&self) -> (age: usize)
        ensures
            age == self.ticks(),
    {
        self.age
    }

    /// One tick: every agent whose game goes on makes the move that `decide`
    /// picks for it.
    pub fn step<F: Fn(&Network<W>, &Vec<usize>) -> usize>(&mut self, decide: &F)
        requires
            old(self).wf(),
            old(self).ticks() < usize::MAX,
            forall|nn: &Network<W>, seen: &Vec<usize>|
                seen@.len() == VISION_LENGTH ==> #[trigger] decide.requires((nn, seen)),
            forall|nn: &Network<W>, seen: &Vec<usize>, action: usize|
                #[trigger] decide.ensures((nn, seen), action) ==> action < MOVE_COUNT,
        ensures
            final(self).wf(),
            final(self).ticks() == old(self).ticks() + 1,
            final(self).grid_size_value() == old(self).grid_size_value(),
            final(self).mutation() == old(self).mutation(),
            ticked_all(decide, old(self).snakes(), final(self).snakes()),
    {
        self.process_movement(decide);
        self.age += 1;
    }

    /// Every agent whose game goes on makes the move that `decide` picks for
    /// it.
    fn process_movement<F: Fn(&Network<W>, &Vec<usize>) -> usize>(&mut self, decide: &F)
        requires
            old(self).wf(),
            forall|nn: &Network<W>, seen: &Vec<usize>|
                seen@.len() == VISION_LENGTH ==> #[trigger] decide.requires((nn, seen)),
            forall|nn: &Network<W>, seen: &Vec<usize>, action: usize|
                #[trigger] decide.ensures((nn, seen), action) ==> action < MOVE_COUNT,
        ensures
            final(self).age == old(self).age,
            final(self).grid_size == old(self).grid_size,
            final(self).ga == old(self).ga,
            final(self).snakes().len() == old(self).snakes().len(),
            forall|i: int|
                0 <= i < old(self).snakes().len() ==> {
                    &&& (#[trigger] final(self).snakes()[i]).wf()
                    &&& old(self).snakes()[i].ticked(decide, final(self).snakes()[i]@)
                    &&& final(self).snakes()[i].brain_model() == old(self).snakes()[i].brain_model()
                },
    {
        let count = self.population.len();
        let mut i: usize = 0;
        while i < count
            invariant
                i <= count,
                count == self.population@.len(),
                count == old(self).population@.len(),
                self.age == old(self).age,
                self.grid_size == old(self).grid_size,
                self.ga == old(self).ga,
                forall|nn: &Network<W>, seen: &Vec<usize>|
                    seen@.len() == VISION_LENGTH ==> #[trigger] decide.requires((nn, seen)),
                forall|nn: &Network<W>, seen: &Vec<usize>, action: usize|
                    #[trigger] decide.ensures((nn, seen), action) ==> action < MOVE_COUNT,
                forall|k: int|
                    0 <= k < i ==> {
                        &&& (#[trigger] self.population@[k]).wf()
                        &&& old(self).population@[k].ticked(decide, self.population@[k]@)
                        &&& self.population@[k].brain_model() == old(self).population@[k].brain_model()
                    },
                forall|k: int|
                    i <= k < count ==> {
                        &&& (#[trigger] self.population@[k]).wf()
                        &&& self.population@[k] == old(self).population@[k]
                    },
            decreases count - i,
        {
            self.population[i].make_move(decide);
            i += 1;
        }
    }

    /// The fitness and chromosome of every agent.
    fn snapshot(&self) -> (individuals: Vec<SnakeIndividual<W>>)
        requires
            self.wf(),
        ensures
            individuals@.len() == self.snakes().len(),
            forall|i: int|
                0 <= i < individuals@.len() ==> {
                    &&& (#[trigger] individuals@[i]).fitness_value() == fitness_of(
                        self.snakes()[i]@.game,
                    )
                    &&& individuals@[i].genes() == self.snakes()[i]@.weights
                },
    {
        let mut individuals: Vec<SnakeIndividual<W>> = Vec::with_capacity(self.population.len());
        let mut i: usize = 0;
        while i < self.population.len()
            invariant
                i <= self.population@.len(),
                self.wf(),
                individuals@.len() == i,
                forall|k: int|
                    0 <= k < i ==> {
                        &&& (#[trigger] individuals@[k]).fitness_value() == fitness_of(
                            self.population@[k]@.game,
                        )
                        &&& individuals@[k].genes() == self.population@[k]@.weights
                    },
            decreases self.population@.len() - i,
        {
            assert(self.snakes()[i as int].wf());
            individuals.push(SnakeIndividual::from_snake(&self.population[i]));
            i += 1;
        }
        individuals
    }

    /// The end of a generation: the genetic algorithm makes as many
    /// chromosomes as there are agents out of the fitnesses and chromosomes
    /// of the agents, and a new agent with a new game, a brain of those
    /// weights and no history takes the place of each. The age is 0 again.
    pub fn process_evolution<R: RngCore + ?Sized>(&mut self, rng: &mut R)
        requires
            old(self).wf(),
            old(self).can_evolve(),
        ensures
            final(self).wf(),
            final(self).ticks() == 0,
            final(self).grid_size_value() == old(self).grid_size_value(),
            final(self).mutation() == old(self).mutation(),
            final(self).snakes().len() == old(self).snakes().len(),
            forall|i: int|
                0 <= i < final(self).snakes().len() ==> {
                    &&& (#[trigger] final(self).snakes()[i])@.game == old(self).fresh_game()
                    &&& final(self).snakes()[i]@.history.len() == 0
                    &&& final(self).snakes()[i]@.weights.len() == BRAIN_WEIGHTS
                    &&& old(self).offspring(final(self).snakes()[i]@.weights)
                },
    {
        self.age = 0;
        let current_population = self.snapshot();
        proof {
            let fit = choose|i: int|
                0 <= i < self.snakes().len() && fitness_of(self.snakes()[i]@.game) > 0;
            lemma_total_fitness_bounds(current_population@, fit);
            lemma_total_within(current_population@, fitness_bound(self.edge()));
            assert forall|i: int| 0 <= i < current_population@.len() implies (
            #[trigger] current_population@[i]).genes().len() == BRAIN_WEIGHTS by {
                assert(self.snakes()[i].wf());
                lemma_brain_chromosome_len(self.snakes()[i].brain_model());
            }
            assert(uniform_length(current_population@, BRAIN_WEIGHTS as nat));
            assert forall|i: int| 0 <= i < current_population@.len() implies (
            #[trigger] current_population@[i]).fitness_value() <= fitness_bound(self.edge()) by {
                assert(self.snakes()[i].wf());
                lemma_fitness_bounded(self.snakes()[i]@.game);
            }
        }
        let evolved_population = self.ga.step(rng, current_population.as_slice());
        let ghost edge = self.edge();
        assert(fitness_bound(edge) <= u32::MAX) by (nonlinear_arith)
            requires
                self.snakes().len() >= 1,
                self.snakes().len() * fitness_bound(edge) <= u32::MAX,
        ;
        let grid_size = self.grid_size;
        let mut population: Vec<Snake<W>> = Vec::with_capacity(evolved_population.len());
        let mut evolved = evolved_population;
        let ghost children = evolved@;
        let count = evolved.len();
        let mut i: usize = 0;
        while i < count
            invariant
                i <= count,
                children.len() == count,
                evolved@ == children.subrange(i as int, count as int),
                population@.len() == i,
                fitness_bound(grid_edge(grid_size as int)) <= u32::MAX,
                forall|k: int|
                    0 <= k < children.len() ==> (#[trigger] children[k]).genes().len()
                        == BRAIN_WEIGHTS,
                forall|k: int|
                    0 <= k < i ==> {
                        &&& (#[trigger] population@[k]).wf()
                        &&& population@[k]@.game == GameState::initial(grid_size as int)
                        &&& population@[k]@.history.len() == 0
                        &&& population@[k]@.weights == children[k].genes()
                    },
            decreases count - i,
        {
            assert(evolved@[0] == children[i as int]);
            let individual = evolved.remove(0);
            assert(evolved@ =~= children.subrange(i + 1, count as int));
            population.push(individual.into_snake(grid_size));
            i += 1;
        }
        proof {
            assert forall|k: int| 0 <= k < count implies self.offspring(
                #[trigger] children[k].genes(),
            ) by {
                self.lemma_offspring(current_population@, children[k]);
            }
        }
        self.population = population;
    }

    /// What the genetic algorithm makes of the snapshot of this population
    /// is offspring of this population.
    proof fn lemma_offspring(&self, individuals: Seq<SnakeIndividual<W>>, child: SnakeIndividual<W>)
        requires
            individuals.len() == self.snakes().len(),
            forall|i: int|
                0 <= i < individuals.len() ==> {
                    &&& (#[trigger] individuals[i]).fitness_value() == fitness_of(
                        self.snakes()[i]@.game,
                    )
                    &&& individuals[i].genes() == self.snakes()[i]@.weights
                },
            self.ga.descends(individuals, child),
        ensures
            self.offspring(child.genes()),
    {
        let (parent_a, parent_b) = choose|parent_a: SnakeIndividual<W>, parent_b: SnakeIndividual<W>|
            #![trigger self.ga.bred(parent_a.genes(), parent_b.genes(), child.genes())]
            {
                &&& self.ga.selection().may_select(individuals, parent_a)
                &&& self.ga.selection().may_select(individuals, parent_b)
                &&& individuals.contains(parent_a)
                &&& individuals.contains(parent_b)
                &&& self.ga.bred(parent_a.genes(), parent_b.genes(), child.genes())
            };
        let a = choose|a: int| 0 <= a < individuals.len() && individuals[a] == parent_a;
        let b = choose|b: int| 0 <= b < individuals.len() && individuals[b] == parent_b;
        let crossed = choose|crossed: Seq<W>|
            #![trigger self.ga.crossover().may_cross(parent_a.genes(), parent_b.genes(), crossed)]
            self.ga.crossover().may_cross(parent_a.genes(), parent_b.genes(), crossed)
                && self.ga.mutation().may_mutate(crossed, child.genes());
        assert(inherits(crossed, self.snakes()[a]@.weights, self.snakes()[b]@.weights));
    }

    /// Plays the generation to its end: ticks, each as [`Evolution::step`],
    /// until the age is that of a generation. Every brain stays as it was.
    pub fn play<F: Fn(&Network<W>, &Vec<usize>) -> usize>(&mut self, decide: &F)
        requires
            old(self).wf(),
            forall|nn: &Network<W>, seen: &Vec<usize>|
                seen@.len() == VISION_LENGTH ==> #[trigger] decide.requires((nn, seen)),
            forall|nn: &Network<W>, seen: &Vec<usize>, action: usize|
                #[trigger] decide.ensures((nn, seen), action) ==> action < MOVE_COUNT,
        ensures
            final(self).wf(),
            final(self).ticks() == old(self).ticks() + ticks_left(old(self).ticks()),
            final(self).grid_size_value() == old(self).grid_size_value(),
            final(self).mutation() == old(self).mutation(),
            final(self).snakes().len() == old(self).snakes().len(),
            reached(
                decide,
                old(self).snakes(),
                final(self).snakes(),
                ticks_left(old(self).ticks()),
            ),
            forall|i: int|
                0 <= i < final(self).snakes().len() ==> (#[trigger] final(self).snakes()[i])@.weights
                    == old(self).snakes()[i]@.weights,
    {
        while self.age < GENERATION_LENGTH
            invariant
                self.wf(),
                old(self).ticks() <= self.ticks(),
                self.ticks() <= old(self).ticks() + ticks_left(old(self).ticks()),
                self.grid_size_value() == old(self).grid_size_value(),
                self.mutation() == old(self).mutation(),
                self.snakes().len() == old(self).snakes().len(),
                reached(
                    decide,
                    old(self).snakes(),
                    self.snakes(),
                    (self.ticks() - old(self).ticks()) as nat,
                ),
                forall|i: int|
                    0 <= i < self.snakes().len() ==> (#[trigger] self.snakes()[i])@.weights
                        == old(self).snakes()[i]@.weights,
                forall|nn: &Network<W>, seen: &Vec<usize>|
                    seen@.len() == VISION_LENGTH ==> #[trigger] decide.requires((nn, seen)),
                forall|nn: &Network<W>, seen: &Vec<usize>, action: usize|
                    #[trigger] decide.ensures((nn, seen), action) ==> action < MOVE_COUNT,
            decreases GENERATION_LENGTH - self.age,
        {
            let ghost before = self.snakes();
            self.step(decide);
            proof {
                assert(ticked_all(decide, before, self.snakes()));
                assert forall|i: int| 0 <= i < self.snakes().len() implies (
                #[trigger] self.snakes()[i])@.weights == old(self).snakes()[i]@.weights by {
                    assert(before[i].ticked(decide, self.snakes()[i]@));
                }
            }
        }
    }

    /// Plays the generation to its end and makes the next one:
    /// [`Evolution::play`], then [`Evolution::process_evolution`] on the
    /// population as it stands after the last tick.
    pub fn train<R: RngCore + ?Sized, F: Fn(&Network<W>, &Vec<usize>) -> usize>(
        &mut self,
        rng: &mut R,
        decide: &F,
    )
        requires
            old(self).wf(),
            forall|nn: &Network<W>, seen: &Vec<usize>|
                seen@.len() == VISION_LENGTH ==> #[trigger] decide.requires((nn, seen)),
            forall|nn: &Network<W>, seen: &Vec<usize>, action: usize|
                #[trigger] decide.ensures((nn, seen), action) ==> action < MOVE_COUNT,
        ensures
            final(self).wf(),
            final(self).ticks() == 0,
            final(self).grid_size_value() == old(self).grid_size_value(),
            final(self).mutation() == old(self).mutation(),
            final(self).snakes().len() == old(self).snakes().len(),
            forall|i: int|
                0 <= i < final(self).snakes().len() ==> {
                    &&& (#[trigger] final(self).snakes()[i])@.game == old(self).fresh_game()
                    &&& final(self).snakes()[i]@.history.len() == 0
                    &&& final(self).snakes()[i]@.weights.len() == BRAIN_WEIGHTS
                    &&& bred_from(
                        old(self).snakes(),
                        old(self).mutation(),
                        final(self).snakes()[i]@.weights,
                    )
                },
            exists|played: Seq<Snake<W>>|
                {
                    &&& #[trigger] reached(
                        decide,
                        old(self).snakes(),
                        played,
                        ticks_left(old(self).ticks()),
                    )
                    &&& forall|i: int|
                        0 <= i < final(self).snakes().len() ==> offspring_of(
                            played,
                            old(self).mutation(),
                            (#[trigger] final(self).snakes()[i])@.weights,
                        )
                },
    {
        self.play(decide);
        let ghost played = self.snakes();
        proof {
            assert(self.snakes()[0].wf());
            lemma_fitness_bounded(self.snakes()[0]@.game);
        }
        self.process_evolution(rng);
        proof {
            assert forall|i: int| 0 <= i < self.snakes().len() implies bred_from(
                old(self).snakes(),
                old(self).mutation(),
                (#[trigger] self.snakes()[i])@.weights,
            ) by {
                let weights = self.snakes()[i]@.weights;
                assert(offspring_of(played, old(self).mutation(), weights));
                lemma_offspring_is_bred(played, old(self).snakes(), old(self).mutation(), weights);
            }
            assert(reached(decide, old(self).snakes(), played, ticks_left(old(self).ticks())));
        }
    }

    /// The place of the fittest agent, the last of them if several are as
    /// fit.
    pub fn best_index(&self) -> (best: usize)
        requires
            self.wf(),
        ensures
            is_best(fitnesses(self.snakes()), best as int),
    {
        let mut best: usize = 0;
        let mut best_fitness = self.fitness_at(0);
        let mut i: usize = 1;
        while i < self.population.len()
            invariant
                1 <= i <= self.population@.len(),
                self.wf(),
                best < i,
                best_fitness == fitnesses(self.snakes())[best as int],
                forall|j: int| 0 <= j < i ==> fitnesses(self.snakes())[j] <= best_fitness,
                forall|j: int| best < j < i ==> fitnesses(self.snakes())[j] < best_fitness,
            decreases self.population@.len() - i,
        {
            let fitness = self.fitness_at(i);
            if fitness >= best_fitness {
                best = i;
                best_fitness = fitness;
            }
            i += 1;
        }
        best
    }

    /// The place of the least fit agent, the first of them if several are as
    /// unfit.
    pub fn worst_index(&self) -> (worst: usize)
        requires
            self.wf(),
        ensures
            is_worst(fitnesses(self.snakes()), worst as int),
    {
        let mut worst: usize = 0;
        let mut worst_fitness = self.fitness_at(0);
        let mut i: usize = 1;
        while i < self.population.len()
            invariant
                1 <= i <= self.population@.len(),
                self.wf(),
                worst < i,
                worst_fitness == fitnesses(self.snakes())[worst as int],
                forall|j: int| 0 <= j < i ==> worst_fitness <= fitnesses(self.snakes())[j],
                forall|j: int| 0 <= j < worst ==> worst_fitness < fitnesses(self.snakes())[j],
            decreases self.population@.len() - i,
        {
            let fitness = self.fitness_at(i);
            if fitness < worst_fitness {
                worst = i;
                worst_fitness = fitness;
            }
            i += 1;
        }
        worst
    }

    /// The fitness of the agent at `index`.
    fn fitness_at(&self, index: usize) -> (fitness: u32)
        requires
            self.wf(),
            index < self.snakes().len(),
        ensures
            fitness == fitnesses(self.snakes())[index as int],
    {
        assert(self.snakes()[index as int].wf());
        self.population[index].fitness()
    }

    /// The fittest agent, the last of them if several are as fit.
    pub fn best_individual(&self) -> (best: &Snake<W>)
        requires
            self.wf(),
        ensures
            exists|k: int| is_best(fitnesses(self.snakes()), k) && self.snakes()[k] == *best,
    {
        &self.population[self.best_index()]
    }

    /// The least fit agent, the first of them if several are as unfit.
    pub fn worst_individual(&self) -> (worst: &Snake<W>)
        requires
            self.wf(),
        ensures
            exists|k: int| is_worst(fitnesses(self.snakes()), k) && self.snakes()[k] == *worst,
    {
        &self.population[self.worst_index()]
    }

    /// The pictures to show again: the history of the fittest agent or of
    /// the least fit, in the order in which they were recorded.
    pub fn replay(&self, which: Replay) -> (pictures: &Vec<String>)
        requires
            self.wf(),
        ensures
            exists|k: int|
                0 <= k < self.snakes().len() && crate::snake::frames(pictures@)
                    == self.snakes()[k]@.history && match which {
                    Replay::Best => is_best(fitnesses(self.snakes()), k),
                    Replay::Worst => is_worst(fitnesses(self.snakes()), k),
                },
    {
        match which {
            Replay::Best => self.best_individual().history(),
            Replay::Worst => self.worst_individual().history(),
        }
    }

    /// The chromosome of every agent, agent by agent: what there is to store
    /// of a population.
    pub fn save(&self) -> (chromosomes: Vec<Chromosome<W>>)
        ensures
            chromosomes@.len() == self.snakes().len(),
            forall|i: int|
                0 <= i < chromosomes@.len() ==> (#[trigger] chromosomes@[i])@
                    == self.snakes()[i]@.weights,
    {
        let mut chromosomes: Vec<Chromosome<W>> = Vec::with_capacity(self.population.len());
        let mut i: usize = 0;
        while i < self.population.len()
            invariant
                i <= self.population@.len(),
                chromosomes@.len() == i,
                forall|k: int|
                    0 <= k < i ==> (#[trigger] chromosomes@[k])@ == self.population@[k]@.weights,
            decreases self.population@.len() - i,
        {
            chromosomes.push(self.population[i].as_chromosome());
            i += 1;
        }
        chromosomes
    }
}

/// Ticks still to play of a generation that is `age` ticks old.
pub open spec fn ticks_left(age: nat) -> nat {
    if age < GENERATION_LENGTH {
        (GENERATION_LENGTH - age) as nat
    } else {
        0
    }
}

/// Whether one tick with `decide` can take the agents `before` to `after`:
/// each makes the move that `decide` gave for it, or stays as it is if its
/// game is over, and keeps its brain.
pub open spec fn ticked_all<W: Copy, F: Fn(&Network<W>, &Vec<usize>) -> usize>(
    decide: &F,
    before: Seq<Snake<W>>,
    after: Seq<Snake<W>>,
) -> bool {
    &&& after.len() == before.len()
    &&& forall|i: int|
        0 <= i < before.len() ==> {
            &&& (#[trigger] before[i]).ticked(decide, after[i]@)
            &&& after[i].brain_model() == before[i].brain_model()
        }
}

/// Whether `ticks` ticks with `decide` can take the agents `before` to
/// `after`.
pub open spec fn reached<W: Copy, F: Fn(&Network<W>, &Vec<usize>) -> usize>(
    decide: &F,
    before: Seq<Snake<W>>,
    after: Seq<Snake<W>>,
    ticks: nat,
) -> bool
    decreases ticks,
{
    if ticks == 0 {
        after == before
    } else {
        exists|middle: Seq<Snake<W>>|
            #![trigger ticked_all(decide, middle, after)]
            reached(decide, before, middle, (ticks - 1) as nat) && ticked_all(
                decide,
                middle,
                after,
            )
    }
}

/// Whether `weights` can be the weights of an agent of the generation after
/// `snakes`: some chromosome that has every gene from one or the other of
/// two agents of positive fitness, mutated by `mutation`.
pub open spec fn offspring_of<W: Copy, M: MutationMethod<W>>(
    snakes: Seq<Snake<W>>,
    mutation: M,
    weights: Seq<W>,
) -> bool {
    exists|a: int, b: int, crossed: Seq<W>|
        #![trigger inherits(crossed, snakes[a]@.weights, snakes[b]@.weights)]
        {
            &&& 0 <= a < snakes.len()
            &&& 0 <= b < snakes.len()
            &&& fitness_of(snakes[a]@.game) > 0
            &&& fitness_of(snakes[b]@.game) > 0
            &&& inherits(crossed, snakes[a]@.weights, snakes[b]@.weights)
            &&& mutation.may_mutate(crossed, weights)
        }
}

/// Whether `weights` can be bred from the brains of `snakes`: some
/// chromosome that has every gene from one or the other of two of them,
/// mutated by `mutation`.
pub open spec fn bred_from<W: Copy, M: MutationMethod<W>>(
    snakes: Seq<Snake<W>>,
    mutation: M,
    weights: Seq<W>,
) -> bool {
    exists|a: int, b: int, crossed: Seq<W>|
        #![trigger inherits(crossed, snakes[a]@.weights, snakes[b]@.weights)]
        {
            &&& 0 <= a < snakes.len()
            &&& 0 <= b < snakes.len()
            &&& inherits(crossed, snakes[a]@.weights, snakes[b]@.weights)
            &&& mutation.may_mutate(crossed, weights)
        }
}

/// Offspring of agents are bred from any agents with the same brains.
pub proof fn lemma_offspring_is_bred<W: Copy, M: MutationMethod<W>>(
    played: Seq<Snake<W>>,
    snakes: Seq<Snake<W>>,
    mutation: M,
    weights: Seq<W>,
)
    requires
        played.len() == snakes.len(),
        forall|i: int| 0 <= i < played.len() ==> (#[trigger] played[i])@.weights == snakes[i]@.weights,
        offspring_of(played, mutation, weights),
    ensures
        bred_from(snakes, mutation, weights),
{
    let (a, b, crossed) = choose|a: int, b: int, crossed: Seq<W>|
        #![trigger inherits(crossed, played[a]@.weights, played[b]@.weights)]
        {
            &&& 0 <= a < played.len()
            &&& 0 <= b < played.len()
            &&& fitness_of(played[a]@.game) > 0
            &&& fitness_of(played[b]@.game) > 0
            &&& inherits(crossed, played[a]@.weights, played[b]@.weights)
            &&& mutation.may_mutate(crossed, weights)
        };
    assert(played[a]@.weights == snakes[a]@.weights);
    assert(played[b]@.weights == snakes[b]@.weights);
    assert(inherits(crossed, snakes[a]@.weights, snakes[b]@.weights));
}

/// The fitnesses of a population add up to no more than the bound of one
/// times their number.
pub proof fn lemma_total_within<I: Individual<Fitness = u32>>(population: Seq<I>, bound: int)
    requires
        forall|i: int|
            0 <= i < population.len() ==> (#[trigger] population[i]).fitness_value() <= bound,
    ensures
        total_fitness(population) <= population.len() * bound,
    decreases population.len(),
{
    if population.len() > 0 {
        let rest = population.drop_last();
        assert forall|i: int| 0 <= i < rest.len() implies (#[trigger] rest[i]).fitness_value()
            <= bound by {
            assert(rest[i] == population[i]);
        }
        lemma_total_within(rest, bound);
        assert(population.last() == population[population.len() - 1]);
        assert((population.len() - 1) * bound + bound == population.len() * bound)
            by (nonlinear_arith);
    } else {
        assert(0 * bound == 0);
    }
}

} // verus!
