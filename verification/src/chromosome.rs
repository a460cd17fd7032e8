//! A chromosome: the genes of one individual, in order. The library moves
//! genes about and never computes with them, so a gene can be any type
//! that can be copied.

use vstd::prelude::*;
use vstd::std_specs::iter::IteratorSpec;

verus! {

/// A fixed-length sequence of genes.
#[derive(Clone, Debug)]
pub struct Chromosome<G> {
    genes: Vec<G>,
}

impl<G> View for Chromosome<G> {
    type V = Seq<G>;

    closed spec fn view(&self) -> Seq<G> {
        self.genes@
    }
}

impl<G: Copy> Chromosome<G> {
    /// The chromosome that holds `genes`.
    pub fn from_vec(genes: Vec<G>) -> (c: Chromosome<G>)
        ensures
            c@ == genes@,
    {
        Chromosome { genes }
    }

    /// The genes, in order.
    pub fn into_vec(self) -> (genes: Vec<G>)
        ensures
            genes@ == self@,
    {
        self.genes
    }

    /// The genes, in order.
    pub fn as_vec(&self) -> (genes: &Vec<G>)
        ensures
            genes@ == self@,
    {
        &self.genes
    }

    /// An iterator over the genes, in order.
    pub fn iter(&self) -> (genes: core::slice::Iter<'_, G>)
        ensures
            genes.remaining() == self@.as_ref(),
    {
        self.genes.iter()
    }

    /// Number of genes.
    pub fn len(&self) -> (n: usize)
        ensures
            n == self@.len(),
    {
        self.genes.len()
    }

    /// The gene at `index`.
    pub fn get(&self, index: usize) -> (gene: G)
        requires
            index < self@.len(),
        ensures
            gene == self@[index as int],
    {
        self.genes[index]
    }

    /// Replaces the gene at `index` by `gene`.
    pub fn set(&mut self, index: usize, gene: G)
        requires
            index < old(self)@.len(),
        ensures
            final(self)@ == old(self)@.update(index as int, gene),
    {
        self.genes[index] = gene;
    }

    /// The genes before `index` and the genes from `index` on.
    pub fn split_at(&self, index: usize) -> (parts: [Chromosome<G>; 2])
        requires
            index <= self@.len(),
        ensures
            parts[0]@ == self@.subrange(0, index as int),
            parts[1]@ == self@.subrange(index as int, self@.len() as int),
    {
        let mut left: Vec<G> = Vec::new();
        let mut right: Vec<G> = Vec::new();
        let mut i: usize = 0;
        while i < index
            invariant
                i <= index <= self@.len(),
                left@ == self@.subrange(0, i as int),
            decreases index - i,
        {
            left.push(self.genes[i]);
            assert(left@ =~= self@.subrange(0, i + 1));
            i += 1;
        }
        while i < self.genes.len()
            invariant
                index <= i <= self@.len(),
                right@ == self@.subrange(index as int, i as int),
            decreases self@.len() - i,
        {
            right.push(self.genes[i]);
            assert(right@ =~= self@.subrange(index as int, i + 1));
            i += 1;
        }
        [Chromosome { genes: left }, Chromosome { genes: right }]
    }
}

impl<G> IntoIterator for Chromosome<G> {
    type Item = G;

    type IntoIter = std::vec::IntoIter<G>;

    /// An iterator that hands out the genes, in order.
    fn into_iter(self) -> (genes: std::vec::IntoIter<G>)
        ensures
            genes.remaining() == self@,
    {
        self.genes.into_iter()
    }
}

} // verus!
