//! The genetic algorithm: one generation replaces the one before it.

use rand::RngCore;
use vstd::prelude::*;
use crate::crossover::CrossoverMethod;
use crate::individual::{uniform_length, Individual};
use crate::mutation::MutationMethod;
use crate::selection::SelectionMethod;

verus! {

/// A genetic algorithm with its three operators.
pub struct GeneticAlgorithm<S, C, M> {
    selection_method: S,
    crossover_method: C,
    mutation_method: M,
}

impl<S, C, M> GeneticAlgorithm<S, C, M> {
    /// The algorithm that selects, crosses and mutates with the given
    /// methods.
    pub fn new(selection_method: S, crossover_method: C, mutation_method: M) -> (ga:
        GeneticAlgorithm<S, C, M>)
        ensures
            ga.selection() == selection_method,
            ga.crossover() == crossover_method,
            ga.mutation() == mutation_method,
    {
        GeneticAlgorithm { selection_method, crossover_method, mutation_method }
    }

    /// The selection method.
    pub closed spec fn selection(&self) -> S {
        self.selection_method
    }

    /// The crossover method.
    pub closed spec fn crossover(&self) -> C {
        self.crossover_method
    }

    /// The mutation method.
    pub closed spec fn mutation(&self) -> M {
        self.mutation_method
    }

    /// Whether this algorithm can make a new generation out of `population`:
    /// the selection method can pick from it, and its chromosomes all have
    /// the same length.
    pub open spec fn can_step<I: Individual>(&self, population: Seq<I>) -> bool where
        S: SelectionMethod<I>,
     {
        &&& population.len() > 0
        &&& self.selection().can_select(population)
        &&& exists|length: nat| uniform_length(population, length)
    }

    /// Whether this algorithm can make `child` of the two parents: its
    /// crossover can make something of them that its mutation can turn into
    /// `child`.
    pub open spec fn bred<G: Copy>(&self, parent_a: Seq<G>, parent_b: Seq<G>, child: Seq<G>) -> bool where
        C: CrossoverMethod<G>,
        M: MutationMethod<G>,
     {
        exists|crossed: Seq<G>|
            #![trigger self.crossover().may_cross(parent_a, parent_b, crossed)]
            self.crossover().may_cross(parent_a, parent_b, crossed) && self.mutation().may_mutate(
                crossed,
                child,
            )
    }

    /// Whether `child` can come out of a step on `population`: it is bred of
    /// two members that the selection method can pick.
    pub open spec fn descends<I: Individual>(&self, population: Seq<I>, child: I) -> bool where
        S: SelectionMethod<I>,
        C: CrossoverMethod<I::Gene>,
        M: MutationMethod<I::Gene>,
     {
        exists|parent_a: I, parent_b: I|
            #![trigger self.bred(parent_a.genes(), parent_b.genes(), child.genes())]
            {
                &&& self.selection().may_select(population, parent_a)
                &&& self.selection().may_select(population, parent_b)
                &&& population.contains(parent_a)
                &&& population.contains(parent_b)
                &&& self.bred(parent_a.genes(), parent_b.genes(), child.genes())
            }
    }

    /// The next generation: as many individuals as `population` has, each
    /// made by selecting two parents out of `population`, crossing them and
    /// mutating the child. Their chromosomes are as long as those of
    /// `population`.
    pub fn step<R: RngCore + ?Sized, I: Individual>(&self, rng: &mut R, population: &[I]) -> (next:
        Vec<I>) where
        S: SelectionMethod<I>,
        C: CrossoverMethod<I::Gene>,
        M: MutationMethod<I::Gene>,

        requires
            self.can_step(population@),
        ensures
            next@.len() == population@.len(),
            forall|length: nat|
                uniform_length(population@, length) ==> uniform_length(next@, length),
            forall|k: int|
                0 <= k < next@.len() ==> self.descends(population@, #[trigger] next@[k]),
    {
        let ghost length = choose|length: nat| uniform_length(population@, length);
        let mut next: Vec<I> = Vec::with_capacity(population.len());
        let mut i: usize = 0;
        while i < population.len()
            invariant
                i <= population@.len(),
                next@.len() == i,
                self.can_step(population@),
                uniform_length(population@, length),
                uniform_length(next@, length),
                forall|k: int| 0 <= k < i ==> self.descends(population@, #[trigger] next@[k]),
            decreases population@.len() - i,
        {
            let parent_a = self.selection_method.select(rng, population);
            let parent_b = self.selection_method.select(rng, population);
            proof {
                let a = choose|a: int| 0 <= a < population@.len() && population@[a] == *parent_a;
                let b = choose|b: int| 0 <= b < population@.len() && population@[b] == *parent_b;
                assert(population@[a].genes().len() == length);
                assert(population@[b].genes().len() == length);
            }
            let mut child = self.crossover_method.crossover(
                rng,
                parent_a.chromosome(),
                parent_b.chromosome(),
            );
            let ghost crossed = child@;
            self.mutation_method.mutate(rng, &mut child);
            let individual = I::create(child);
            let ghost before = next@;
            next.push(individual);
            proof {
                assert(self.crossover().may_cross(
                    parent_a.genes(),
                    parent_b.genes(),
                    crossed,
                ));
                assert(self.bred(parent_a.genes(), parent_b.genes(), individual.genes()));
                assert(self.descends(population@, individual));
                assert forall|k: int| 0 <= k < next@.len() implies self.descends(
                    population@,
                    #[trigger] next@[k],
                ) by {
                    if k < before.len() {
                        assert(next@[k] == before[k]);
                    }
                }
            }
            assert forall|j: int| 0 <= j < next@.len() implies (#[trigger] next@[j]).genes().len()
                == length by {
                if j < before.len() {
                    assert(next@[j] == before[j]);
                }
            }
            i += 1;
        }
        proof {
            assert forall|other: nat| uniform_length(population@, other) implies uniform_length(
                next@,
                other,
            ) by {
                assert(population@[0].genes().len() == other);
                assert(population@[0].genes().len() == length);
            }
        }
        next
    }

    /// A child of the two parents: crossed, then mutated.
    pub fn breed<R: RngCore + ?Sized, I: Individual>(&self, rng: &mut R, parent_a: I, parent_b: I) -> (child:
        I) where C: CrossoverMethod<I::Gene>, M: MutationMethod<I::Gene>
        requires
            parent_a.genes().len() == parent_b.genes().len(),
        ensures
            child.genes().len() == parent_a.genes().len(),
            self.bred(parent_a.genes(), parent_b.genes(), child.genes()),
    {
        let mut child = self.crossover_method.crossover(
            rng,
            parent_a.chromosome(),
            parent_b.chromosome(),
        );
        let ghost crossed = child@;
        self.mutation_method.mutate(rng, &mut child);
        assert(self.crossover().may_cross(parent_a.genes(), parent_b.genes(), crossed));
        I::create(child)
    }
}

} // verus!
