//! One layer: neurons that share their inputs and their activation.

use vstd::prelude::*;
use crate::activation::{layer_weight_count, Activation};
use crate::neuron::{lemma_laid_injective, lemma_neuron_at, neuron_at, Neuron, NeuronModel};

verus! {

/// A layer as a mathematical value.
pub struct LayerModel<W> {
    pub neurons: Seq<NeuronModel<W>>,
    pub activation: Activation,
}

/// The values of `neurons`, neuron after neuron, each in the order that
/// `bias_first` names.
pub open spec fn neurons_laid<W>(neurons: Seq<NeuronModel<W>>, bias_first: bool) -> Seq<W>
    decreases neurons.len(),
{
    if neurons.len() == 0 {
        Seq::empty()
    } else {
        neurons_laid(neurons.drop_last(), bias_first) + neurons.last().laid(bias_first)
    }
}

/// Whether each of `neurons` has `inputs` weights.
pub open spec fn fed_by<W>(neurons: Seq<NeuronModel<W>>, inputs: int) -> bool {
    forall|j: int| 0 <= j < neurons.len() ==> (#[trigger] neurons[j]).weights.len() == inputs
}

impl<W> LayerModel<W> {
    /// Whether this layer has `outputs` neurons of `inputs` weights each.
    pub open spec fn shaped(self, inputs: int, outputs: int) -> bool {
        self.neurons.len() == outputs && fed_by(self.neurons, inputs)
    }

    /// The values of this layer in stream order.
    pub open spec fn flat(self) -> Seq<W> {
        neurons_laid(self.neurons, true)
    }

    /// The values of this layer in the order in which a random layer is
    /// drawn.
    pub open spec fn drawn(self) -> Seq<W> {
        neurons_laid(self.neurons, false)
    }
}

/// The `count` neurons of `inputs` weights each whose values, neuron after
/// neuron in the order that `bias_first` names, are the values of `values`
/// from `start` on.
pub open spec fn neurons_at<W>(
    values: Seq<W>,
    start: int,
    inputs: int,
    count: int,
    bias_first: bool,
) -> Seq<NeuronModel<W>> {
    Seq::new(
        count as nat,
        |j: int| neuron_at(values, start + layer_weight_count(inputs, j), inputs, bias_first),
    )
}

/// The neurons read from a stretch of values have the shape asked for and
/// lay out to that stretch.
pub proof fn lemma_neurons_at<W>(
    values: Seq<W>,
    start: int,
    inputs: int,
    count: int,
    bias_first: bool,
)
    requires
        0 <= start,
        0 <= inputs,
        0 <= count,
        start + layer_weight_count(inputs, count) <= values.len(),
    ensures
        neurons_at(values, start, inputs, count, bias_first).len() == count,
        fed_by(neurons_at(values, start, inputs, count, bias_first), inputs),
        neurons_laid(neurons_at(values, start, inputs, count, bias_first), bias_first)
            == values.subrange(start, start + layer_weight_count(inputs, count)),
    decreases count,
{
    let all = neurons_at(values, start, inputs, count, bias_first);
    assert forall|j: int| 0 <= j < count implies 0 <= layer_weight_count(inputs, j)
        && layer_weight_count(inputs, j) + inputs + 1 <= layer_weight_count(inputs, count) by {
        assert(0 <= j * (inputs + 1) && j * (inputs + 1) + (inputs + 1) <= count * (inputs + 1))
            by (nonlinear_arith)
            requires
                0 <= j < count,
                0 <= inputs,
        ;
    }
    assert forall|j: int| 0 <= j < all.len() implies (#[trigger] all[j]).weights.len()
        == inputs by {
        lemma_neuron_at(values, start + layer_weight_count(inputs, j), inputs, bias_first);
    }
    if count == 0 {
        assert(0 * (inputs + 1) == 0);
        assert(neurons_laid(all, bias_first) =~= values.subrange(start, start));
    } else {
        let rest = neurons_at(values, start, inputs, count - 1, bias_first);
        let middle = start + layer_weight_count(inputs, count - 1);
        assert((count - 1) * (inputs + 1) + (inputs + 1) == count * (inputs + 1))
            by (nonlinear_arith);
        assert(0 <= (count - 1) * (inputs + 1)) by (nonlinear_arith)
            requires
                count >= 1,
                inputs >= 0,
        ;
        lemma_neurons_at(values, start, inputs, count - 1, bias_first);
        assert(all.drop_last() =~= rest);
        assert(all.last() == neuron_at(values, middle, inputs, bias_first));
        lemma_neuron_at(values, middle, inputs, bias_first);
        assert(values.subrange(start, middle) + values.subrange(middle, middle + inputs + 1)
            =~= values.subrange(start, start + layer_weight_count(inputs, count)));
    }
}

/// The models of `neurons`.
pub open spec fn neuron_models<W>(neurons: Seq<Neuron<W>>) -> Seq<NeuronModel<W>> {
    neurons.map_values(|n: Neuron<W>| n@)
}

/// A layer with weights of type `W`.
#[derive(Clone, Debug)]
pub struct Layer<W> {
    neurons: Vec<Neuron<W>>,
    activation: Activation,
}

impl<W> View for Layer<W> {
    type V = LayerModel<W>;

    closed spec fn view(&self) -> LayerModel<W> {
        LayerModel { neurons: neuron_models(self.neurons@), activation: self.activation }
    }
}

/// Neurons of `inputs` weights each hold `inputs + 1` values each.
pub proof fn lemma_neurons_laid_len<W>(
    neurons: Seq<NeuronModel<W>>,
    inputs: int,
    bias_first: bool,
)
    requires
        fed_by(neurons, inputs),
        0 <= inputs,
    ensures
        neurons_laid(neurons, bias_first).len() == layer_weight_count(inputs, neurons.len() as int),
    decreases neurons.len(),
{
    if neurons.len() > 0 {
        let rest = neurons.drop_last();
        assert forall|j: int| 0 <= j < rest.len() implies (#[trigger] rest[j]).weights.len()
            == inputs by {
            assert(rest[j] == neurons[j]);
        }
        lemma_neurons_laid_len(rest, inputs, bias_first);
        assert(neurons.last() == neurons[neurons.len() - 1]);
        assert(neurons.last().laid(bias_first).len() == inputs + 1);
        assert((neurons.len() - 1) * (inputs + 1) + (inputs + 1) == neurons.len() * (inputs + 1))
            by (nonlinear_arith);
    } else {
        assert(0 * (inputs + 1) == 0);
    }
}

/// Neurons are what their values say: two rows of as many neurons, of
/// `inputs` weights each, with the same values are the same.
pub proof fn lemma_neurons_laid_injective<W>(
    a: Seq<NeuronModel<W>>,
    b: Seq<NeuronModel<W>>,
    inputs: int,
    bias_first: bool,
)
    requires
        a.len() == b.len(),
        fed_by(a, inputs),
        fed_by(b, inputs),
        0 <= inputs,
        neurons_laid(a, bias_first) == neurons_laid(b, bias_first),
    ensures
        a == b,
    decreases a.len(),
{
    if a.len() > 0 {
        let rest_a = a.drop_last();
        let rest_b = b.drop_last();
        assert forall|j: int| 0 <= j < rest_a.len() implies (#[trigger] rest_a[j]).weights.len()
            == inputs by {
            assert(rest_a[j] == a[j]);
        }
        assert forall|j: int| 0 <= j < rest_b.len() implies (#[trigger] rest_b[j]).weights.len()
            == inputs by {
            assert(rest_b[j] == b[j]);
        }
        lemma_neurons_laid_len(rest_a, inputs, bias_first);
        lemma_neurons_laid_len(rest_b, inputs, bias_first);
        let head_a = neurons_laid(rest_a, bias_first);
        let head_b = neurons_laid(rest_b, bias_first);
        let tail_a = a.last().laid(bias_first);
        let tail_b = b.last().laid(bias_first);
        assert(a.last() == a[a.len() - 1] && b.last() == b[b.len() - 1]);
        assert(tail_a.len() == inputs + 1 && tail_b.len() == inputs + 1);
        let whole = neurons_laid(a, bias_first);
        assert(whole == head_a + tail_a);
        assert(whole == head_b + tail_b);
        assert(head_a =~= whole.subrange(0, head_a.len() as int));
        assert(head_b =~= whole.subrange(0, head_b.len() as int));
        assert(tail_a =~= whole.subrange(head_a.len() as int, whole.len() as int));
        assert(tail_b =~= whole.subrange(head_b.len() as int, whole.len() as int));
        lemma_neurons_laid_injective(rest_a, rest_b, inputs, bias_first);
        lemma_laid_injective(a.last(), b.last(), bias_first);
        assert(a =~= rest_a.push(a.last()));
        assert(b =~= rest_b.push(b.last()));
    } else {
        assert(a =~= b);
    }
}

impl<W: Copy> Layer<W> {
    /// The layer with the given neurons and activation.
    pub fn new(neurons: Vec<Neuron<W>>, activation: Activation) -> (layer: Layer<W>)
        ensures
            layer@ == (LayerModel { neurons: neuron_models(neurons@), activation }),
    {
        Layer { neurons, activation }
    }

    /// The neurons.
    pub fn neurons(&self) -> (neurons: &Vec<Neuron<W>>)
        ensures
            neuron_models(neurons@) == self@.neurons,
    {
        &self.neurons
    }

    /// The activation.
    pub fn activation(&self) -> (activation: Activation)
        ensures
            activation == self@.activation,
    {
        self.activation
    }

    /// The layer of `output_size` neurons with `input_size` weights each
    /// whose values, neuron after neuron in the order that `bias_first`
    /// names, are the values from `start` on.
    pub fn read(
        values: &Vec<W>,
        start: usize,
        input_size: usize,
        output_size: usize,
        activation: Activation,
        bias_first: bool,
    ) -> (layer: Layer<W>)
        requires
            start + layer_weight_count(input_size as int, output_size as int) <= values@.len(),
        ensures
            layer@.neurons == neurons_at(
                values@,
                start as int,
                input_size as int,
                output_size as int,
                bias_first,
            ),
            layer@.shaped(input_size as int, output_size as int),
            layer@.activation == activation,
            neurons_laid(layer@.neurons, bias_first) == values@.subrange(
                start as int,
                start + layer_weight_count(input_size as int, output_size as int),
            ),
    {
        assert(values@.len() == values.len());
        let mut neurons: Vec<Neuron<W>> = Vec::with_capacity(output_size);
        let mut position: usize = start;
        let mut j: usize = 0;
        assert(0 * (input_size + 1) == 0);
        assert(neurons_laid(neuron_models(neurons@), bias_first) =~= values@.subrange(
            start as int,
            start as int,
        ));
        while j < output_size
            invariant
                j <= output_size,
                start + layer_weight_count(input_size as int, output_size as int) <= values@.len()
                    <= usize::MAX,
                position == start + layer_weight_count(input_size as int, j as int),
                neurons@.len() == j,
                fed_by(neuron_models(neurons@), input_size as int),
                neurons_laid(neuron_models(neurons@), bias_first) == values@.subrange(
                    start as int,
                    position as int,
                ),
            decreases output_size - j,
        {
            assert((j + 1) * (input_size + 1) == j * (input_size + 1) + (input_size + 1)
                && (j + 1) * (input_size + 1) <= output_size * (input_size + 1))
                by (nonlinear_arith)
                requires
                    j < output_size,
                    0 <= input_size,
            ;
            let neuron = Neuron::read(values, position, input_size, bias_first);
            let ghost before = neuron_models(neurons@);
            neurons.push(neuron);
            proof {
                let after = neuron_models(neurons@);
                assert(after =~= before.push(neuron@));
                assert(after.drop_last() =~= before);
                assert(after.last() == neuron@);
                assert(values@.subrange(start as int, position as int) + values@.subrange(
                    position as int,
                    position + input_size + 1,
                ) =~= values@.subrange(start as int, position + input_size + 1));
            }
            position = position + input_size + 1;
            j += 1;
        }
        proof {
            lemma_neurons_at(
                values@,
                start as int,
                input_size as int,
                output_size as int,
                bias_first,
            );
            lemma_neurons_laid_injective(
                neuron_models(neurons@),
                neurons_at(values@, start as int, input_size as int, output_size as int, bias_first),
                input_size as int,
                bias_first,
            );
        }
        Layer { neurons, activation }
    }

    /// The layer that a weight stream holds from `start` on: neuron after
    /// neuron, each with its bias first.
    pub fn from_weights(
        input_size: usize,
        output_size: usize,
        weights: &Vec<W>,
        start: usize,
        activation: Activation,
    ) -> (layer: Layer<W>)
        requires
            start + layer_weight_count(input_size as int, output_size as int) <= weights@.len(),
        ensures
            layer@.shaped(input_size as int, output_size as int),
            layer@.activation == activation,
            layer@.flat() == weights@.subrange(
                start as int,
                start + layer_weight_count(input_size as int, output_size as int),
            ),
    {
        Layer::read(weights, start, input_size, output_size, activation, true)
    }

    /// The layer made of the random draws from `start` on: neuron after
    /// neuron, each with its bias last.
    pub fn random(
        input_neurons: usize,
        output_neurons: usize,
        activation: Activation,
        draws: &Vec<W>,
        start: usize,
    ) -> (layer: Layer<W>)
        requires
            start + layer_weight_count(input_neurons as int, output_neurons as int)
                <= draws@.len(),
        ensures
            layer@.shaped(input_neurons as int, output_neurons as int),
            layer@.activation == activation,
            layer@.drawn() == draws@.subrange(
                start as int,
                start + layer_weight_count(input_neurons as int, output_neurons as int),
            ),
    {
        Layer::read(draws, start, input_neurons, output_neurons, activation, false)
    }

    /// Appends the values of this layer, in stream order, to `out`.
    pub fn write(&self, out: &mut Vec<W>)
        ensures
            final(out)@ == old(out)@ + self@.flat(),
    {
        let mut j: usize = 0;
        assert(out@ =~= old(out)@ + neurons_laid(neuron_models(self.neurons@.take(0)), true));
        while j < self.neurons.len()
            invariant
                j <= self.neurons@.len(),
                out@ == old(out)@ + neurons_laid(
                    neuron_models(self.neurons@.take(j as int)),
                    true,
                ),
            decreases self.neurons@.len() - j,
        {
            let ghost before = neuron_models(self.neurons@.take(j as int));
            self.neurons[j].write(out);
            proof {
                let after = neuron_models(self.neurons@.take(j + 1));
                assert(after =~= before.push(self.neurons@[j as int]@));
                assert(after.drop_last() =~= before);
                assert(out@ =~= old(out)@ + neurons_laid(after, true));
            }
            j += 1;
        }
        assert(self.neurons@.take(self.neurons@.len() as int) =~= self.neurons@);
    }
}

} // verus!
