//! An agent as the genetic algorithm sees it: a fitness and a chromosome.

use vstd::prelude::*;
use crate::brain::BRAIN_WEIGHTS;
use crate::chromosome::Chromosome;
use crate::game::{grid_edge, GameState};
use crate::individual::Individual;
use crate::snake::{fitness_bound, fitness_of, Snake};

verus! {

/// The fitness and the chromosome of an agent.
pub struct SnakeIndividual<W> {
    fitness: u32,
    chromosome: Chromosome<W>,
}

impl<W: Copy> Individual for SnakeIndividual<W> {
    type Gene = W;

    type Fitness = u32;

    closed spec fn genes(&self) -> Seq<W> {
        self.chromosome@
    }

    closed spec fn fitness_value(&self) -> u32 {
        self.fitness
    }

    fn fitness(&self) -> (fitness: u32) {
        self.fitness
    }

    fn chromosome(&self) -> (chromosome: &Chromosome<W>) {
        &self.chromosome
    }

    /// An individual with the given chromosome and no fitness yet.
    fn create(chromosome: Chromosome<W>) -> (individual: SnakeIndividual<W>)
        ensures
            individual.fitness_value() == 0,
    {
        SnakeIndividual { fitness: 0, chromosome }
    }
}

impl<W: Copy> SnakeIndividual<W> {
    /// The fitness and the chromosome of `snake`.
    pub fn from_snake(snake: &Snake<W>) -> (individual: SnakeIndividual<W>)
        requires
            snake.wf(),
        ensures
            individual.fitness_value() == fitness_of(snake@.game),
            individual.genes() == snake@.weights,
    {
        SnakeIndividual { fitness: snake.fitness(), chromosome: snake.as_chromosome() }
    }

    /// A new agent on a grid of edge `grid_size` with this chromosome.
    pub fn into_snake(self, grid_size: isize) -> (snake: Snake<W>)
        requires
            self.genes().len() == BRAIN_WEIGHTS,
            fitness_bound(grid_edge(grid_size as int)) <= u32::MAX,
        ensures
            snake.wf(),
            snake@.game == GameState::initial(grid_size as int),
            snake@.weights == self.genes(),
            snake@.history.len() == 0,
    {
        Snake::from_chromosome(self.chromosome, grid_size)
    }
}

} // verus!
