//! One neuron: a bias and one weight for each input.

use vstd::prelude::*;

verus! {

/// A neuron as a mathematical value.
pub struct NeuronModel<W> {
    pub bias: W,
    pub weights: Seq<W>,
}

impl<W> NeuronModel<W> {
    /// The bias followed by the weights: the order of a weight stream.
    pub open spec fn flat(self) -> Seq<W> {
        seq![self.bias] + self.weights
    }

    /// The weights followed by the bias: the order in which a random neuron
    /// is drawn.
    pub open spec fn drawn(self) -> Seq<W> {
        self.weights.push(self.bias)
    }

    /// The values of this neuron in one of the two orders.
    pub open spec fn laid(self, bias_first: bool) -> Seq<W> {
        if bias_first {
            self.flat()
        } else {
            self.drawn()
        }
    }
}

/// The neuron of `input_size` weights whose values, in the order that
/// `bias_first` names, are the values of `values` from `start` on.
pub open spec fn neuron_at<W>(values: Seq<W>, start: int, input_size: int, bias_first: bool) -> NeuronModel<
    W,
> {
    if bias_first {
        NeuronModel { bias: values[start], weights: values.subrange(start + 1, start + 1 + input_size) }
    } else {
        NeuronModel {
            bias: values[start + input_size],
            weights: values.subrange(start, start + input_size),
        }
    }
}

/// The neuron read from a stretch of values lays out to that stretch.
pub proof fn lemma_neuron_at<W>(values: Seq<W>, start: int, input_size: int, bias_first: bool)
    requires
        0 <= start,
        0 <= input_size,
        start + input_size + 1 <= values.len(),
    ensures
        neuron_at(values, start, input_size, bias_first).weights.len() == input_size,
        neuron_at(values, start, input_size, bias_first).laid(bias_first) == values.subrange(
            start,
            start + input_size + 1,
        ),
{
    assert(neuron_at(values, start, input_size, bias_first).laid(bias_first) =~= values.subrange(
        start,
        start + input_size + 1,
    ));
}

/// A neuron with weights of type `W`.
#[derive(Clone, Debug)]
pub struct Neuron<W> {
    weights: Vec<W>,
    bias: W,
}

impl<W> View for Neuron<W> {
    type V = NeuronModel<W>;

    closed spec fn view(&self) -> NeuronModel<W> {
        NeuronModel { bias: self.bias, weights: self.weights@ }
    }
}

impl<W: Copy> Neuron<W> {
    /// The neuron with the given weights and bias.
    pub fn new(weights: Vec<W>, bias: W) -> (neuron: Neuron<W>)
        ensures
            neuron@ == (NeuronModel { bias, weights: weights@ }),
    {
        Neuron { weights, bias }
    }

    /// The weights, one for each input.
    pub fn weights(&self) -> (weights: &Vec<W>)
        ensures
            weights@ == self@.weights,
    {
        &self.weights
    }

    /// The bias.
    pub fn bias(&self) -> (bias: W)
        ensures
            bias == self@.bias,
    {
        self.bias
    }

    /// The neuron whose values, in the order that `bias_first` names, are
    /// the `input_size + 1` values from `start` on.
    pub fn read(values: &Vec<W>, start: usize, input_size: usize, bias_first: bool) -> (neuron:
        Neuron<W>)
        requires
            start + input_size + 1 <= values@.len(),
        ensures
            neuron@ == neuron_at(values@, start as int, input_size as int, bias_first),
            neuron@.weights.len() == input_size,
            neuron@.laid(bias_first) == values@.subrange(
                start as int,
                start + input_size + 1,
            ),
    {
        assert(values@.len() == values.len());
        let first = if bias_first {
            start + 1
        } else {
            start
        };
        let bias = if bias_first {
            values[start]
        } else {
            values[start + input_size]
        };
        let mut weights: Vec<W> = Vec::with_capacity(input_size);
        let mut i: usize = 0;
        while i < input_size
            invariant
                i <= input_size,
                first + input_size <= values@.len() <= usize::MAX,
                weights@ == values@.subrange(first as int, first + i),
            decreases input_size - i,
        {
            weights.push(values[first + i]);
            assert(weights@ =~= values@.subrange(first as int, first + i + 1));
            i += 1;
        }
        let neuron = Neuron { weights, bias };
        proof {
            lemma_neuron_at(values@, start as int, input_size as int, bias_first);
        }
        neuron
    }

    /// The neuron with `input_size` inputs that a weight stream holds from
    /// `start` on: its bias, then its weights.
    pub fn from_weights(input_size: usize, weights: &Vec<W>, start: usize) -> (neuron: Neuron<W>)
        requires
            start + input_size + 1 <= weights@.len(),
        ensures
            neuron@ == neuron_at(weights@, start as int, input_size as int, true),
            neuron@.weights.len() == input_size,
            neuron@.flat() == weights@.subrange(start as int, start + input_size + 1),
    {
        Neuron::read(weights, start, input_size, true)
    }

    /// The neuron with `input_size` inputs made of the random draws from
    /// `start` on: its weights, then its bias.
    pub fn random(input_size: usize, draws: &Vec<W>, start: usize) -> (neuron: Neuron<W>)
        requires
            start + input_size + 1 <= draws@.len(),
        ensures
            neuron@ == neuron_at(draws@, start as int, input_size as int, false),
            neuron@.weights.len() == input_size,
            neuron@.drawn() == draws@.subrange(start as int, start + input_size + 1),
    {
        Neuron::read(draws, start, input_size, false)
    }

    /// Appends the bias and then the weights to `out`.
    pub fn write(&self, out: &mut Vec<W>)
        ensures
            final(out)@ == old(out)@ + self@.flat(),
    {
        out.push(self.bias);
        let mut i: usize = 0;
        while i < self.weights.len()
            invariant
                i <= self.weights@.len(),
                out@ == old(out)@ + seq![self.bias] + self.weights@.subrange(0, i as int),
            decreases self.weights@.len() - i,
        {
            out.push(self.weights[i]);
            assert(out@ =~= old(out)@ + seq![self.bias] + self.weights@.subrange(0, i + 1));
            i += 1;
        }
        assert(out@ =~= old(out)@ + self@.flat());
    }
}

/// A neuron is what its values say, in either order: neurons with as many
/// inputs and the same values are the same.
pub proof fn lemma_laid_injective<W>(a: NeuronModel<W>, b: NeuronModel<W>, bias_first: bool)
    requires
        a.laid(bias_first) == b.laid(bias_first),
    ensures
        a == b,
{
    assert(a.flat().len() == a.weights.len() + 1 && b.flat().len() == b.weights.len() + 1);
    assert(a.drawn().len() == a.weights.len() + 1 && b.drawn().len() == b.weights.len() + 1);
    assert(a.weights.len() == b.weights.len());
    if bias_first {
        assert(a.bias == a.flat()[0]);
        assert(b.bias == b.flat()[0]);
        assert forall|i: int| 0 <= i < a.weights.len() implies a.weights[i] == b.weights[i] by {
            assert(a.weights[i] == a.flat()[i + 1]);
            assert(b.weights[i] == b.flat()[i + 1]);
        }
    } else {
        assert(a.bias == a.drawn()[a.weights.len() as int]);
        assert(b.bias == b.drawn()[b.weights.len() as int]);
        assert forall|i: int| 0 <= i < a.weights.len() implies a.weights[i] == b.weights[i] by {
            assert(a.weights[i] == a.drawn()[i]);
            assert(b.weights[i] == b.drawn()[i]);
        }
    }
    assert(a.weights =~= b.weights);
}

} // verus!
