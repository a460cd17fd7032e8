//! The activation functions a layer can have, and the description of a
//! layer in a topology.

use vstd::prelude::*;

verus! {

/// How a layer turns its weighted sums into its outputs.
#[derive(Clone, Copy, Debug, PartialEq, Eq, Structural)]
pub enum Activation {
    /// Each sum, or 0 if it is negative.
    ReLU,
    /// The logistic function of each sum.
    Sigmoid,
    /// The exponential of each sum over the sum of all the exponentials.
    Softmax,
    /// Each sum as it is.
    Identity,
}

/// One entry of a topology: how many neurons a layer has and how it
/// activates them.
#[derive(Clone, Copy, Debug, PartialEq, Eq, Structural)]
pub struct LayerTopology {
    pub neurons: usize,
    pub activation: Activation,
}

/// Number of weights and biases of a layer of `outputs` neurons, each fed by
/// `inputs` values.
pub open spec fn layer_weight_count(inputs: int, outputs: int) -> int {
    outputs * (inputs + 1)
}

/// Number of weights and biases of the first `layers` layers of a network
/// with topology `topology`.
pub open spec fn weight_count_upto(topology: Seq<LayerTopology>, layers: int) -> int
    decreases layers,
{
    if layers <= 0 {
        0
    } else {
        weight_count_upto(topology, layers - 1) + layer_weight_count(
            topology[layers - 1].neurons as int,
            topology[layers].neurons as int,
        )
    }
}

/// Number of weights and biases of a network with topology `topology`.
pub open spec fn weight_count(topology: Seq<LayerTopology>) -> int {
    weight_count_upto(topology, topology.len() - 1)
}

/// The count grows with the number of layers, and is never negative.
pub proof fn lemma_weight_count_grows(topology: Seq<LayerTopology>, fewer: int, more: int)
    requires
        0 <= fewer <= more,
    ensures
        0 <= weight_count_upto(topology, fewer) <= weight_count_upto(topology, more),
    decreases more,
{
    if fewer < more {
        lemma_weight_count_grows(topology, fewer, more - 1);
        let inputs = topology[more - 1].neurons as int;
        let outputs = topology[more].neurons as int;
        assert(outputs * (inputs + 1) >= 0) by (nonlinear_arith)
            requires
                inputs >= 0,
                outputs >= 0,
        ;
    } else if more > 0 {
        lemma_weight_count_grows(topology, fewer - 1, more - 1);
        let inputs = topology[more - 1].neurons as int;
        let outputs = topology[more].neurons as int;
        assert(outputs * (inputs + 1) >= 0) by (nonlinear_arith)
            requires
                inputs >= 0,
                outputs >= 0,
        ;
    }
}

/// The number of weights and biases of a network with topology `topology`,
/// or `None` if the topology has less than two entries or the number does
/// not fit in `usize`.
pub fn count_weights(topology: &[LayerTopology]) -> (count: Option<usize>)
    ensures
        count matches Some(n) ==> topology@.len() >= 2 && n == weight_count(topology@),
        count is None ==> topology@.len() < 2 || weight_count(topology@) > usize::MAX,
{
    if topology.len() < 2 {
        return None;
    }
    let mut total: usize = 0;
    let mut layer: usize = 1;
    while layer < topology.len()
        invariant
            1 <= layer <= topology@.len(),
            total == weight_count_upto(topology@, layer - 1),
        decreases topology@.len() - layer,
    {
        let inputs = topology[layer - 1].neurons;
        let outputs = topology[layer].neurons;
        proof {
            lemma_weight_count_grows(topology@, layer as int, topology@.len() - 1);
            lemma_weight_count_grows(topology@, layer - 1, layer as int);
        }
        let fan_in = match inputs.checked_add(1) {
            Some(n) => n,
            None => {
                assert(outputs == 0 || outputs * (inputs + 1) > usize::MAX) by (nonlinear_arith)
                    requires
                        inputs + 1 > usize::MAX,
                        outputs >= 0,
                ;
                if outputs != 0 {
                    return None;
                }
                0
            },
        };
        assert(outputs * fan_in == outputs * (inputs + 1)) by (nonlinear_arith)
            requires
                fan_in == inputs + 1 || outputs == 0,
        ;
        let in_layer = match outputs.checked_mul(fan_in) {
            Some(n) => n,
            None => {
                return None;
            },
        };
        total = match total.checked_add(in_layer) {
            Some(n) => n,
            None => {
                return None;
            },
        };
        layer += 1;
    }
    Some(total)
}

} // verus!
