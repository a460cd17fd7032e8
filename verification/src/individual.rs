//! What the genetic algorithm asks of a member of a population.

use vstd::prelude::*;
use crate::chromosome::Chromosome;

verus! {

/// A member of a population: it has a fitness and a chromosome, and a new
/// one can be made from a chromosome.
pub trait Individual: Sized {
    /// The type of a gene.
    type Gene: Copy;

    /// The type of a fitness.
    type Fitness;

    /// The genes of this individual. An implementation says what they are;
    /// of one that does not, nothing is known.
    open spec fn genes(&self) -> Seq<Self::Gene> {
        arbitrary()
    }

    /// The fitness of this individual as a mathematical value. An
    /// implementation says what it is; of one that does not, nothing is
    /// known.
    open spec fn fitness_value(&self) -> Self::Fitness {
        arbitrary()
    }

    /// How fit this individual is.
    fn fitness(&self) -> (fitness: Self::Fitness)
        ensures
            fitness == self.fitness_value(),
    ;

    /// The chromosome of this individual.
    fn chromosome(&self) -> (chromosome: &Chromosome<Self::Gene>)
        ensures
            chromosome@ == self.genes(),
    ;

    /// An individual with the given chromosome.
    fn create(chromosome: Chromosome<Self::Gene>) -> (individual: Self)
        ensures
            individual.genes() == chromosome@,
    ;
}

/// Whether all of `population` have chromosomes of length `length`.
pub open spec fn uniform_length<I: Individual>(population: Seq<I>, length: nat) -> bool {
    forall|i: int| 0 <= i < population.len() ==> (#[trigger] population[i]).genes().len() == length
}

} // verus!
