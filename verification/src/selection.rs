//! Selection: picking a parent out of a population.

use rand::seq::SliceRandom;
use rand::RngCore;
use vstd::prelude::*;
use crate::individual::Individual;

verus! {

/// A way of picking one member of a population.
pub trait SelectionMethod<I: Individual> {
    /// Whether this method can pick from `population`. A method that asks
    /// for more than a member to pick says so here.
    open spec fn can_select(&self, population: Seq<I>) -> bool {
        population.len() > 0
    }

    /// Whether this method can pick `chosen` from `population`. A method
    /// that never picks some members says so here.
    open spec fn may_select(&self, population: Seq<I>, chosen: I) -> bool {
        population.contains(chosen)
    }

    /// One member of `population`.
    fn select<'a, R: RngCore + ?Sized>(&self, rng: &mut R, population: &'a [I]) -> (chosen: &'a I)
        requires
            self.can_select(population@),
        ensures
            population@.contains(*chosen),
            self.may_select(population@, *chosen),
    ;
}

/// The sum of the fitnesses of `population`.
pub open spec fn total_fitness<I: Individual<Fitness = u32>>(population: Seq<I>) -> nat
    decreases population.len(),
{
    if population.len() == 0 {
        0
    } else {
        total_fitness(population.drop_last()) + population.last().fitness_value() as nat
    }
}

/// Whether a roulette wheel can be spun over `population`: it has a member
/// of positive fitness, and the fitnesses add up within `u32`.
pub open spec fn spinnable<I: Individual<Fitness = u32>>(population: Seq<I>) -> bool {
    0 < total_fitness(population) <= u32::MAX
}

/// Roulette-wheel selection: a member is picked with a probability in
/// proportion to its fitness, so one of fitness 0 is never picked.
#[derive(Clone, Copy, Debug)]
pub struct RouletteWheelSelection;

/// `SliceRandom::choose_weighted` of `rand` over `population`, each member
/// weighted by its fitness. As long as the weights add up within `u32`, so
/// that the sum the crate keeps does not overflow, it hands out a member of
/// positive fitness; it hands out none exactly when the population is empty
/// or every fitness is 0.
#[verifier::external_body]
fn spin<'a, R: RngCore + ?Sized, I: Individual<Fitness = u32>>(
    rng: &mut R,
    population: &'a [I],
) -> (chosen: Option<&'a I>)
    requires
        total_fitness(population@) <= u32::MAX,
    ensures
        chosen is None <==> total_fitness(population@) == 0,
        chosen matches Some(member) ==> population@.contains(*member) && member.fitness_value()
            > 0,
{
    population.choose_weighted(rng, |member| member.fitness()).ok()
}

impl RouletteWheelSelection {
    /// Roulette-wheel selection.
    pub fn new() -> (method: RouletteWheelSelection)
        ensures
            method == RouletteWheelSelection,
    {
        RouletteWheelSelection
    }

    /// The member that a spin of the wheel came up with. A wheel that came
    /// up with none has nothing to settle on.
    pub fn settle<'a, I: Individual>(spun: Option<&'a I>) -> (chosen: &'a I)
        requires
            spun is Some,
        ensures
            spun == Some(chosen),
    {
        spun.unwrap()
    }
}

impl<I: Individual<Fitness = u32>> SelectionMethod<I> for RouletteWheelSelection {
    open spec fn can_select(&self, population: Seq<I>) -> bool {
        spinnable(population)
    }

    open spec fn may_select(&self, population: Seq<I>, chosen: I) -> bool {
        population.contains(chosen) && chosen.fitness_value() > 0
    }

    /// Spins the wheel once.
    fn select<'a, R: RngCore + ?Sized>(&self, rng: &mut R, population: &'a [I]) -> (chosen: &'a I)
    {
        let spun = spin(rng, population);
        RouletteWheelSelection::settle(spun)
    }
}

impl Default for RouletteWheelSelection {
    fn default() -> (method: RouletteWheelSelection)
        ensures
            method == RouletteWheelSelection,
    {
        RouletteWheelSelection::new()
    }
}

/// The total fitness is at least the fitness of each member.
pub proof fn lemma_total_fitness_bounds<I: Individual<Fitness = u32>>(population: Seq<I>, i: int)
    requires
        0 <= i < population.len(),
    ensures
        population[i].fitness_value() <= total_fitness(population),
    decreases population.len(),
{
    if i < population.len() - 1 {
        lemma_total_fitness_bounds(population.drop_last(), i);
    }
}

} // verus!
