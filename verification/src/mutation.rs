//! Mutation: changing a chromosome in place.

use rand::RngCore;
use vstd::prelude::*;
use crate::chromosome::Chromosome;

verus! {

/// A way of changing the genes of a chromosome. It may change any gene and
/// keeps their number.
pub trait MutationMethod<G: Copy> {
    /// Whether this method can turn `before` into `after`. A method that
    /// promises more than the length of the result says so here.
    open spec fn may_mutate(&self, before: Seq<G>, after: Seq<G>) -> bool {
        after.len() == before.len()
    }

    /// Changes `child` in place.
    fn mutate<R: RngCore + ?Sized>(&self, rng: &mut R, child: &mut Chromosome<G>)
        ensures
            final(child)@.len() == old(child)@.len(),
            self.may_mutate(old(child)@, final(child)@),
    ;
}

} // verus!
