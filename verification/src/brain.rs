//! The brain of an agent: a network of fixed topology that takes the vision
//! vector and gives one output for each move.

use vstd::prelude::*;
use crate::activation::{weight_count, Activation, LayerTopology};
use crate::chromosome::Chromosome;
use crate::network::{draws_of, fits, lemma_weights_len, weights_of, Network};

verus! {

/// Number of weights and biases of a brain.
pub const BRAIN_WEIGHTS: usize = 868;

/// The topology of every brain: 24 inputs, two hidden layers of 18, and 4
/// outputs under softmax.
pub open spec fn brain_topology() -> Seq<LayerTopology> {
    seq![
        LayerTopology { neurons: 24, activation: Activation::Identity },
        LayerTopology { neurons: 18, activation: Activation::Identity },
        LayerTopology { neurons: 18, activation: Activation::Identity },
        LayerTopology { neurons: 4, activation: Activation::Softmax },
    ]
}

/// A brain holds 868 weights and biases.
pub proof fn lemma_brain_weights()
    ensures
        weight_count(brain_topology()) == BRAIN_WEIGHTS,
{
    reveal_with_fuel(crate::activation::weight_count_upto, 4);
    let t = brain_topology();
    assert(t[0].neurons == 24 && t[1].neurons == 18 && t[2].neurons == 18 && t[3].neurons == 4);
}

/// The brain of an agent.
#[derive(Clone, Debug)]
pub struct Brain<W> {
    nn: Network<W>,
}

impl<W: Copy> Brain<W> {
    /// The network.
    pub closed spec fn nn_value(&self) -> Network<W> {
        self.nn
    }

    /// The network as a mathematical value.
    pub open spec fn network(&self) -> Seq<crate::layer::LayerModel<W>> {
        self.nn_value()@
    }

    /// Whether the network has the topology of a brain.
    pub open spec fn wf(&self) -> bool {
        fits(self.network(), brain_topology())
    }

    /// The weights as a mathematical value, in stream order.
    pub open spec fn weights(&self) -> Seq<W> {
        weights_of(self.network())
    }

    /// The topology of every brain.
    pub fn topology() -> (topology: [LayerTopology; 4])
        ensures
            topology@ == brain_topology(),
    {
        let topology = [
            LayerTopology { neurons: 24, activation: Activation::Identity },
            LayerTopology { neurons: 18, activation: Activation::Identity },
            LayerTopology { neurons: 18, activation: Activation::Identity },
            LayerTopology { neurons: 4, activation: Activation::Softmax },
        ];
        assert(topology@ =~= brain_topology());
        topology
    }

    /// The brain made of the random draws `draws`, each neuron its weights
    /// and then its bias.
    pub fn random(draws: &Vec<W>) -> (brain: Brain<W>)
        requires
            draws@.len() == BRAIN_WEIGHTS,
        ensures
            brain.wf(),
            draws_of(brain.network()) == draws@,
    {
        proof {
            lemma_brain_weights();
        }
        let topology = Brain::<W>::topology();
        Brain { nn: Network::random(topology.as_slice(), draws) }
    }

    /// The network.
    pub fn nn(&self) -> (nn: &Network<W>)
        ensures
            *nn == self.nn_value(),
    {
        &self.nn
    }

    /// The weights of the network as a chromosome.
    pub fn as_chromosome(&self) -> (chromosome: Chromosome<W>)
        ensures
            chromosome@ == self.weights(),
    {
        Chromosome::from_vec(self.nn.weights())
    }

    /// The brain whose weights are the genes of `chromosome`.
    pub fn from_chromosome(chromosome: Chromosome<W>) -> (brain: Brain<W>)
        requires
            chromosome@.len() == BRAIN_WEIGHTS,
        ensures
            brain.wf(),
            brain.weights() == chromosome@,
    {
        proof {
            lemma_brain_weights();
        }
        let topology = Brain::<W>::topology();
        Brain { nn: Network::from_weights(topology.as_slice(), chromosome.as_vec()) }
    }
}

/// A well-formed brain has 868 weights.
pub proof fn lemma_brain_chromosome_len<W: Copy>(brain: Brain<W>)
    requires
        brain.wf(),
    ensures
        brain.weights().len() == BRAIN_WEIGHTS,
{
    lemma_brain_weights();
    lemma_weights_len(brain.network(), brain_topology());
}

} // verus!
