//! Crossover: making one chromosome out of two.

use rand::Rng;
use rand::RngCore;
use vstd::prelude::*;
use crate::chromosome::Chromosome;

verus! {

/// A way of crossing two parents of equal length into a child of that length.
pub trait CrossoverMethod<G: Copy> {
    /// Whether this method can make `child` of `parent_a` and `parent_b`. A
    /// method that promises more than the length of the child says so here.
    open spec fn may_cross(&self, parent_a: Seq<G>, parent_b: Seq<G>, child: Seq<G>) -> bool {
        child.len() == parent_a.len()
    }

    /// A child of `parent_a` and `parent_b`.
    fn crossover<R: RngCore + ?Sized>(
        &self,
        rng: &mut R,
        parent_a: &Chromosome<G>,
        parent_b: &Chromosome<G>,
    ) -> (child: Chromosome<G>)
        requires
            parent_a@.len() == parent_b@.len(),
        ensures
            child@.len() == parent_a@.len(),
            self.may_cross(parent_a@, parent_b@, child@),
    ;
}

/// Whether every gene of `child` is the gene of `parent_a` or of `parent_b`
/// at the same place.
pub open spec fn inherits<G>(child: Seq<G>, parent_a: Seq<G>, parent_b: Seq<G>) -> bool {
    &&& child.len() == parent_a.len()
    &&& child.len() == parent_b.len()
    &&& forall|i: int|
        0 <= i < child.len() ==> #[trigger] child[i] == parent_a[i] || child[i] == parent_b[i]
}

/// The child that takes the gene of `parent_a` wherever `from_a` says so and
/// the gene of `parent_b` elsewhere.
pub open spec fn mixed<G>(parent_a: Seq<G>, parent_b: Seq<G>, from_a: Seq<bool>) -> Seq<G> {
    Seq::new(
        parent_a.len(),
        |i: int|
            if from_a[i] {
                parent_a[i]
            } else {
                parent_b[i]
            },
    )
}

/// Uniform crossover: each gene comes from one parent or the other, as a
/// fair coin decides, gene by gene.
#[derive(Clone, Copy, Debug)]
pub struct UniformCrossover;

/// Out of how many equal chances a gene comes from the first parent.
pub const FIRST_PARENT_CHANCES: u32 = 1;

/// Out of this many.
pub const PARENT_CHANCES: u32 = 2;

/// `Rng::gen_ratio` of `rand`: one draw from `rng` that is `true` with
/// probability `numerator` over `denominator`. The crate refuses a ratio
/// above one and a denominator of 0. Nothing is claimed of the outcome.
#[verifier::external_body]
fn chance<R: RngCore + ?Sized>(rng: &mut R, numerator: u32, denominator: u32) -> (hit: bool)
    requires
        0 < denominator,
        numerator <= denominator,
{
    rng.gen_ratio(numerator, denominator)
}

impl UniformCrossover {
    /// Uniform crossover.
    pub fn new() -> (method: UniformCrossover)
        ensures
            method == UniformCrossover,
    {
        UniformCrossover
    }

    /// The child that the coin flips `from_a` make of the two parents.
    pub fn mix<G: Copy>(parent_a: &Chromosome<G>, parent_b: &Chromosome<G>, from_a: &Vec<bool>) -> (child:
        Chromosome<G>)
        requires
            parent_a@.len() == parent_b@.len(),
            from_a@.len() == parent_a@.len(),
        ensures
            child@ == mixed(parent_a@, parent_b@, from_a@),
    {
        let mut genes: Vec<G> = Vec::with_capacity(parent_a.len());
        let mut i: usize = 0;
        while i < parent_a.len()
            invariant
                i <= parent_a@.len(),
                parent_a@.len() == parent_b@.len(),
                from_a@.len() == parent_a@.len(),
                genes@.len() == i,
                forall|j: int| 0 <= j < i ==> genes@[j] == mixed(parent_a@, parent_b@, from_a@)[j],
            decreases parent_a@.len() - i,
        {
            let gene = if from_a[i] {
                parent_a.get(i)
            } else {
                parent_b.get(i)
            };
            genes.push(gene);
            i += 1;
        }
        assert(genes@ =~= mixed(parent_a@, parent_b@, from_a@));
        Chromosome::from_vec(genes)
    }
}

impl<G: Copy> CrossoverMethod<G> for UniformCrossover {
    open spec fn may_cross(&self, parent_a: Seq<G>, parent_b: Seq<G>, child: Seq<G>) -> bool {
        inherits(child, parent_a, parent_b)
    }

    /// Draws one even chance for each gene, in order, and mixes the parents
    /// accordingly.
    fn crossover<R: RngCore + ?Sized>(
        &self,
        rng: &mut R,
        parent_a: &Chromosome<G>,
        parent_b: &Chromosome<G>,
    ) -> (child: Chromosome<G>)
        ensures
            inherits(child@, parent_a@, parent_b@),
            exists|from_a: Seq<bool>|
                from_a.len() == parent_a@.len() && child@ == mixed(parent_a@, parent_b@, from_a),
    {
        let mut from_a: Vec<bool> = Vec::with_capacity(parent_a.len());
        let mut i: usize = 0;
        while i < parent_a.len()
            invariant
                i <= parent_a@.len(),
                from_a@.len() == i,
            decreases parent_a@.len() - i,
        {
            from_a.push(chance(rng, FIRST_PARENT_CHANCES, PARENT_CHANCES));
            i += 1;
        }
        let child = UniformCrossover::mix(parent_a, parent_b, &from_a);
        proof {
            lemma_mixed_inherits(parent_a@, parent_b@, from_a@);
        }
        child
    }
}

impl Default for UniformCrossover {
    fn default() -> (method: UniformCrossover)
        ensures
            method == UniformCrossover,
    {
        UniformCrossover::new()
    }
}

/// Whatever the coin says, a mixed child has each gene from one parent or
/// the other, never anything else.
pub proof fn lemma_mixed_inherits<G>(parent_a: Seq<G>, parent_b: Seq<G>, from_a: Seq<bool>)
    requires
        parent_a.len() == parent_b.len(),
    ensures
        inherits(mixed(parent_a, parent_b, from_a), parent_a, parent_b),
{
}

} // verus!
