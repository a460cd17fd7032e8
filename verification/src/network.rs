//! A feed-forward network: layers in a row, each fed by the one before it.
//! The library lays the weights out and reads them back; it does not
//! compute with them.

use vstd::prelude::*;
use crate::activation::{
    layer_weight_count,
    lemma_weight_count_grows,
    weight_count,
    weight_count_upto,
    LayerTopology,
};
use crate::layer::{
    lemma_neurons_at,
    lemma_neurons_laid_injective,
    lemma_neurons_laid_len,
    neurons_at,
    neurons_laid,
    Layer,
    LayerModel,
};

verus! {

/// The values of `layers`, layer after layer, each neuron in the order that
/// `bias_first` names.
pub open spec fn layers_laid<W>(layers: Seq<LayerModel<W>>, bias_first: bool) -> Seq<W>
    decreases layers.len(),
{
    if layers.len() == 0 {
        Seq::empty()
    } else {
        layers_laid(layers.drop_last(), bias_first) + neurons_laid(
            layers.last().neurons,
            bias_first,
        )
    }
}

/// The weights of `layers` in stream order: layer after layer, neuron after
/// neuron, each neuron its bias and then its weights.
pub open spec fn weights_of<W>(layers: Seq<LayerModel<W>>) -> Seq<W> {
    layers_laid(layers, true)
}

/// The weights of `layers` in the order in which a random network is drawn:
/// layer after layer, neuron after neuron, each neuron its weights and then
/// its bias.
pub open spec fn draws_of<W>(layers: Seq<LayerModel<W>>) -> Seq<W> {
    layers_laid(layers, false)
}

/// Whether the first `count` entries of `layers` are what `topology` asks
/// for: layer `i` has as many neurons as entry `i + 1` says, each with as
/// many weights as entry `i` has neurons, and the activation of entry
/// `i + 1`.
pub open spec fn fits_upto<W>(
    layers: Seq<LayerModel<W>>,
    topology: Seq<LayerTopology>,
    count: int,
) -> bool {
    forall|i: int|
        0 <= i < count ==> {
            &&& (#[trigger] layers[i]).shaped(
                topology[i].neurons as int,
                topology[i + 1].neurons as int,
            )
            &&& layers[i].activation == topology[i + 1].activation
        }
}

/// Whether `layers` is a network with topology `topology`.
pub open spec fn fits<W>(layers: Seq<LayerModel<W>>, topology: Seq<LayerTopology>) -> bool {
    &&& topology.len() >= 2
    &&& layers.len() + 1 == topology.len()
    &&& fits_upto(layers, topology, layers.len() as int)
}

/// The first `count` layers of the network of topology `topology` whose
/// values, in the order that `bias_first` names, are `values`.
pub open spec fn layers_at<W>(
    topology: Seq<LayerTopology>,
    values: Seq<W>,
    count: int,
    bias_first: bool,
) -> Seq<LayerModel<W>> {
    Seq::new(
        count as nat,
        |i: int|
            LayerModel {
                neurons: neurons_at(
                    values,
                    weight_count_upto(topology, i),
                    topology[i].neurons as int,
                    topology[i + 1].neurons as int,
                    bias_first,
                ),
                activation: topology[i + 1].activation,
            },
    )
}

/// The network of topology `topology` with the weights `weights`: layer `i`
/// has the activation of entry `i + 1` and as many neurons as that entry
/// says, and its neuron `j` has for bias the value that follows the values
/// of all neurons before it, and for weights the values after its bias, one
/// for each neuron of entry `i`.
pub open spec fn network_of<W>(topology: Seq<LayerTopology>, weights: Seq<W>) -> Seq<
    LayerModel<W>,
> {
    layers_at(topology, weights, topology.len() - 1, true)
}

/// The network of topology `topology` made of the random draws `draws`: as
/// [`network_of`], but each neuron has its weights first and its bias last.
pub open spec fn network_drawn<W>(topology: Seq<LayerTopology>, draws: Seq<W>) -> Seq<
    LayerModel<W>,
> {
    layers_at(topology, draws, topology.len() - 1, false)
}

/// The layers read from the values have the shapes that the topology asks
/// for and lay out to the values they were read from.
pub proof fn lemma_layers_at<W>(
    topology: Seq<LayerTopology>,
    values: Seq<W>,
    count: int,
    bias_first: bool,
)
    requires
        0 <= count < topology.len(),
        weight_count_upto(topology, count) <= values.len(),
    ensures
        layers_at(topology, values, count, bias_first).len() == count,
        fits_upto(layers_at(topology, values, count, bias_first), topology, count),
        layers_laid(layers_at(topology, values, count, bias_first), bias_first)
            == values.subrange(0, weight_count_upto(topology, count)),
    decreases count,
{
    let all = layers_at(topology, values, count, bias_first);
    assert forall|i: int| 0 <= i < count implies {
        &&& (#[trigger] all[i]).shaped(topology[i].neurons as int, topology[i + 1].neurons as int)
        &&& all[i].activation == topology[i + 1].activation
    } by {
        lemma_weight_count_grows(topology, i, i + 1);
        lemma_weight_count_grows(topology, i + 1, count);
        lemma_neurons_at(
            values,
            weight_count_upto(topology, i),
            topology[i].neurons as int,
            topology[i + 1].neurons as int,
            bias_first,
        );
    }
    if count == 0 {
        assert(layers_laid(all, bias_first) =~= values.subrange(0, 0));
    } else {
        let rest = layers_at(topology, values, count - 1, bias_first);
        let middle = weight_count_upto(topology, count - 1);
        lemma_weight_count_grows(topology, count - 1, count);
        lemma_layers_at(topology, values, count - 1, bias_first);
        assert(all.drop_last() =~= rest);
        lemma_neurons_at(
            values,
            middle,
            topology[count - 1].neurons as int,
            topology[count].neurons as int,
            bias_first,
        );
        assert(all.last() == all[count - 1]);
        assert(values.subrange(0, middle) + values.subrange(
            middle,
            weight_count_upto(topology, count),
        ) =~= values.subrange(0, weight_count_upto(topology, count)));
    }
}

/// The weights come back: the network of topology `topology` with the
/// weights `weights` has that topology, and its weights are `weights`.
pub proof fn lemma_weights_come_back<W>(topology: Seq<LayerTopology>, weights: Seq<W>)
    requires
        topology.len() >= 2,
        weights.len() == weight_count(topology),
    ensures
        fits(network_of(topology, weights), topology),
        weights_of(network_of(topology, weights)) == weights,
{
    lemma_layers_at(topology, weights, topology.len() - 1, true);
    assert(weights.subrange(0, weights.len() as int) =~= weights);
}

/// The network comes back: a network of topology `topology` is the network
/// of that topology with its own weights.
pub proof fn lemma_network_comes_back<W>(network: Seq<LayerModel<W>>, topology: Seq<LayerTopology>)
    requires
        fits(network, topology),
    ensures
        network_of(topology, weights_of(network)) == network,
{
    lemma_weights_len(network, topology);
    lemma_weights_come_back(topology, weights_of(network));
    lemma_round_trip(network, network_of(topology, weights_of(network)), topology);
}

/// The models of `layers`.
pub open spec fn layer_models<W>(layers: Seq<Layer<W>>) -> Seq<LayerModel<W>> {
    layers.map_values(|l: Layer<W>| l@)
}

/// A network with weights of type `W`.
#[derive(Clone, Debug)]
pub struct Network<W> {
    layers: Vec<Layer<W>>,
}

impl<W> View for Network<W> {
    type V = Seq<LayerModel<W>>;

    closed spec fn view(&self) -> Seq<LayerModel<W>> {
        layer_models(self.layers@)
    }
}

/// Layers that fit a topology hold as many values as the topology counts.
pub proof fn lemma_layers_laid_len<W>(
    layers: Seq<LayerModel<W>>,
    topology: Seq<LayerTopology>,
    bias_first: bool,
)
    requires
        layers.len() + 1 <= topology.len(),
        fits_upto(layers, topology, layers.len() as int),
    ensures
        layers_laid(layers, bias_first).len() == weight_count_upto(topology, layers.len() as int),
    decreases layers.len(),
{
    if layers.len() > 0 {
        let rest = layers.drop_last();
        assert forall|i: int| 0 <= i < rest.len() implies {
            &&& (#[trigger] rest[i]).shaped(
                topology[i].neurons as int,
                topology[i + 1].neurons as int,
            )
            &&& rest[i].activation == topology[i + 1].activation
        } by {
            assert(rest[i] == layers[i]);
        }
        lemma_layers_laid_len(rest, topology, bias_first);
        let last = layers[layers.len() - 1];
        assert(layers.last() == last);
        lemma_neurons_laid_len(
            last.neurons,
            topology[layers.len() - 1].neurons as int,
            bias_first,
        );
    }
}

/// A network is what its values say: two networks of one topology with the
/// same values, in either order, are the same.
pub proof fn lemma_layers_laid_injective<W>(
    a: Seq<LayerModel<W>>,
    b: Seq<LayerModel<W>>,
    topology: Seq<LayerTopology>,
    bias_first: bool,
)
    requires
        a.len() == b.len(),
        a.len() + 1 <= topology.len(),
        fits_upto(a, topology, a.len() as int),
        fits_upto(b, topology, b.len() as int),
        layers_laid(a, bias_first) == layers_laid(b, bias_first),
    ensures
        a == b,
    decreases a.len(),
{
    if a.len() > 0 {
        let rest_a = a.drop_last();
        let rest_b = b.drop_last();
        assert forall|i: int| 0 <= i < rest_a.len() implies {
            &&& (#[trigger] rest_a[i]).shaped(
                topology[i].neurons as int,
                topology[i + 1].neurons as int,
            )
            &&& rest_a[i].activation == topology[i + 1].activation
        } by {
            assert(rest_a[i] == a[i]);
        }
        assert forall|i: int| 0 <= i < rest_b.len() implies {
            &&& (#[trigger] rest_b[i]).shaped(
                topology[i].neurons as int,
                topology[i + 1].neurons as int,
            )
            &&& rest_b[i].activation == topology[i + 1].activation
        } by {
            assert(rest_b[i] == b[i]);
        }
        lemma_layers_laid_len(rest_a, topology, bias_first);
        lemma_layers_laid_len(rest_b, topology, bias_first);
        let last_a = a[a.len() - 1];
        let last_b = b[b.len() - 1];
        assert(a.last() == last_a && b.last() == last_b);
        let head_a = layers_laid(rest_a, bias_first);
        let head_b = layers_laid(rest_b, bias_first);
        let tail_a = neurons_laid(last_a.neurons, bias_first);
        let tail_b = neurons_laid(last_b.neurons, bias_first);
        let whole = layers_laid(a, bias_first);
        assert(whole == head_a + tail_a);
        assert(whole == head_b + tail_b);
        assert(head_a =~= whole.subrange(0, head_a.len() as int));
        assert(head_b =~= whole.subrange(0, head_b.len() as int));
        assert(tail_a =~= whole.subrange(head_a.len() as int, whole.len() as int));
        assert(tail_b =~= whole.subrange(head_b.len() as int, whole.len() as int));
        lemma_layers_laid_injective(rest_a, rest_b, topology, bias_first);
        lemma_neurons_laid_injective(
            last_a.neurons,
            last_b.neurons,
            topology[a.len() - 1].neurons as int,
            bias_first,
        );
        assert(last_a == last_b);
        assert(a =~= rest_a.push(last_a));
        assert(b =~= rest_b.push(last_b));
    } else {
        assert(a =~= b);
    }
}

/// The round trip: a network of topology `topology` is the only one of that
/// topology with its weights, so building a network from the weights of
/// `network` gives `network` back.
pub proof fn lemma_round_trip<W>(
    network: Seq<LayerModel<W>>,
    rebuilt: Seq<LayerModel<W>>,
    topology: Seq<LayerTopology>,
)
    requires
        fits(network, topology),
        fits(rebuilt, topology),
        weights_of(rebuilt) == weights_of(network),
    ensures
        rebuilt == network,
{
    lemma_layers_laid_injective(rebuilt, network, topology, true);
}

/// A network of topology `topology` holds as many weights as the topology
/// counts.
pub proof fn lemma_weights_len<W>(network: Seq<LayerModel<W>>, topology: Seq<LayerTopology>)
    requires
        fits(network, topology),
    ensures
        weights_of(network).len() == weight_count(topology),
        draws_of(network).len() == weight_count(topology),
{
    lemma_layers_laid_len(network, topology, true);
    lemma_layers_laid_len(network, topology, false);
}

impl<W: Copy> Network<W> {
    /// The network with the given layers.
    pub fn new(layers: Vec<Layer<W>>) -> (network: Network<W>)
        ensures
            network@ == layer_models(layers@),
    {
        Network { layers }
    }

    /// The layers, first to last.
    pub fn layers(&self) -> (layers: &Vec<Layer<W>>)
        ensures
            layer_models(layers@) == self@,
    {
        &self.layers
    }

    /// The network of topology `layers` whose values, layer after layer and
    /// neuron after neuron in the order that `bias_first` names, are
    /// `values`.
    pub fn read(layers: &[LayerTopology], values: &Vec<W>, bias_first: bool) -> (network: Network<
        W,
    >)
        requires
            layers@.len() >= 2,
            values@.len() == weight_count(layers@),
        ensures
            network@ == layers_at(layers@, values@, layers@.len() - 1, bias_first),
            fits(network@, layers@),
            layers_laid(network@, bias_first) == values@,
    {
        assert(values@.len() == values.len());
        let mut built: Vec<Layer<W>> = Vec::with_capacity(layers.len() - 1);
        let mut position: usize = 0;
        let mut i: usize = 1;
        assert(layers_laid(layer_models(built@), bias_first) =~= values@.subrange(0, 0));
        while i < layers.len()
            invariant
                1 <= i <= layers@.len(),
                values@.len() == weight_count(layers@),
                values@.len() <= usize::MAX,
                position == weight_count_upto(layers@, i - 1),
                built@.len() == i - 1,
                fits_upto(layer_models(built@), layers@, i - 1),
                layers_laid(layer_models(built@), bias_first) == values@.subrange(
                    0,
                    position as int,
                ),
            decreases layers@.len() - i,
        {
            let inputs = layers[i - 1].neurons;
            let outputs = layers[i].neurons;
            proof {
                lemma_weight_count_grows(layers@, i as int, layers@.len() - 1);
            }
            let layer = Layer::read(
                values,
                position,
                inputs,
                outputs,
                layers[i].activation,
                bias_first,
            );
            let ghost before = layer_models(built@);
            let ghost count = layer_weight_count(inputs as int, outputs as int);
            built.push(layer);
            proof {
                let after = layer_models(built@);
                assert(after =~= before.push(layer@));
                assert(after.drop_last() =~= before);
                assert(after.last() == layer@);
                assert forall|k: int| 0 <= k < i implies {
                    &&& (#[trigger] after[k]).shaped(
                        layers@[k].neurons as int,
                        layers@[k + 1].neurons as int,
                    )
                    &&& after[k].activation == layers@[k + 1].activation
                } by {
                    if k < i - 1 {
                        assert(after[k] == before[k]);
                    }
                }
                assert(values@.subrange(0, position as int) + values@.subrange(
                    position as int,
                    position + count,
                ) =~= values@.subrange(0, position + count));
            }
            position = weight_after(position, inputs, outputs);
            i += 1;
        }
        assert(values@.subrange(0, position as int) =~= values@);
        proof {
            lemma_layers_at(layers@, values@, layers@.len() - 1, bias_first);
            lemma_layers_laid_injective(
                layer_models(built@),
                layers_at(layers@, values@, layers@.len() - 1, bias_first),
                layers@,
                bias_first,
            );
        }
        Network { layers: built }
    }

    /// The network of topology `layers` that the weight stream `weights`
    /// holds: layer after layer, neuron after neuron, each neuron its bias
    /// and then its weights in the order of its inputs. The stream has to
    /// hold exactly as many values as the topology counts.
    pub fn from_weights(layers: &[LayerTopology], weights: &Vec<W>) -> (network: Network<W>)
        requires
            layers@.len() >= 2,
            weights@.len() == weight_count(layers@),
        ensures
            network@ == network_of(layers@, weights@),
            fits(network@, layers@),
            weights_of(network@) == weights@,
    {
        Network::read(layers, weights, true)
    }

    /// The network of topology `layers` made of the random draws `draws`:
    /// layer after layer, neuron after neuron, each neuron its weights and
    /// then its bias.
    pub fn random(layers: &[LayerTopology], draws: &Vec<W>) -> (network: Network<W>)
        requires
            layers@.len() >= 2,
            draws@.len() == weight_count(layers@),
        ensures
            network@ == network_drawn(layers@, draws@),
            fits(network@, layers@),
            draws_of(network@) == draws@,
    {
        Network::read(layers, draws, false)
    }

    /// The weights in stream order: what [`Network::from_weights`] reads.
    pub fn weights(&self) -> (weights: Vec<W>)
        ensures
            weights@ == weights_of(self@),
    {
        let mut out: Vec<W> = Vec::new();
        let mut i: usize = 0;
        assert(out@ =~= layers_laid(layer_models(self.layers@.take(0)), true));
        while i < self.layers.len()
            invariant
                i <= self.layers@.len(),
                out@ == layers_laid(layer_models(self.layers@.take(i as int)), true),
            decreases self.layers@.len() - i,
        {
            let ghost before = layer_models(self.layers@.take(i as int));
            self.layers[i].write(&mut out);
            proof {
                let after = layer_models(self.layers@.take(i + 1));
                assert(after =~= before.push(self.layers@[i as int]@));
                assert(after.drop_last() =~= before);
            }
            i += 1;
        }
        assert(self.layers@.take(self.layers@.len() as int) =~= self.layers@);
        out
    }
}

/// The position in a stream after a layer of `outputs` neurons of `inputs`
/// weights each that starts at `position`.
fn weight_after(position: usize, inputs: usize, outputs: usize) -> (next: usize)
    requires
        position + layer_weight_count(inputs as int, outputs as int) <= usize::MAX,
    ensures
        next == position + layer_weight_count(inputs as int, outputs as int),
{
    if outputs == 0 {
        assert(0 * (inputs + 1) == 0);
        position
    } else {
        assert(inputs + 1 <= outputs * (inputs + 1)) by (nonlinear_arith)
            requires
                outputs >= 1,
                inputs >= 0,
        ;
        position + outputs * (inputs + 1)
    }
}

} // verus!
