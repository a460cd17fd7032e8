use approx::RelativeEq;
use rand::Rng;
use rand::SeedableRng;
use rand_chacha::ChaCha8Rng;
use snake_evolution::activation::{count_weights, Activation, LayerTopology};
use snake_evolution::brain::Brain;
use snake_evolution::chromosome::Chromosome;
use snake_evolution::layer::Layer;
use snake_evolution::network::Network;
use snake_evolution::neuron::Neuron;

fn close(actual: f32, expected: f32) -> bool {
    actual.relative_eq(&expected, f32::EPSILON, f32::EPSILON)
}

fn close_all(actual: &[f32], expected: &[f32]) -> bool {
    actual.relative_eq(expected, f32::EPSILON, f32::EPSILON)
}

fn draw(rng: &mut ChaCha8Rng, count: usize) -> Vec<f32> {
    (0..count).map(|_| rng.gen_range(-1.0..=1.0)).collect()
}

fn plain(neurons: usize) -> LayerTopology {
    LayerTopology {
        neurons,
        activation: Activation::Identity,
    }
}

#[test]
fn neuron_test() {
    let mut rng = ChaCha8Rng::from_seed(Default::default());
    let draws = draw(&mut rng, 3);
    let neuron = Neuron::random(2, &draws, 0);

    assert!(close(neuron.bias(), 0.8181262));
    assert!(close_all(
        neuron.weights().as_slice(),
        [-0.6255188, 0.67383957].as_ref()
    ));
}

#[test]
fn neuron_from_weights_reads_the_bias_first() {
    let weights = vec![9, 1, 2, 3, 4, 5];
    let neuron = Neuron::from_weights(3, &weights, 1);
    assert_eq!(neuron.bias(), 1);
    assert_eq!(*neuron.weights(), vec![2, 3, 4]);

    let mut out = vec![0];
    neuron.write(&mut out);
    assert_eq!(out, vec![0, 1, 2, 3, 4]);
}

#[test]
fn layer_test() {
    let mut rng = ChaCha8Rng::from_seed(Default::default());
    let draws = draw(&mut rng, 6);
    let layer = Layer::random(2, 2, Activation::Identity, &draws, 0);

    assert!(close(layer.neurons()[0].bias(), 0.8181262));
    assert!(close_all(
        layer.neurons()[0].weights().as_slice(),
        [-0.6255188, 0.67383957].as_ref()
    ));

    assert!(close(layer.neurons()[1].bias(), -0.53516835));
    assert!(close_all(
        layer.neurons()[1].weights().as_slice(),
        [0.26284897, 0.5238807].as_ref()
    ));
}

#[test]
fn layer_from_weights_reads_neuron_after_neuron() {
    let weights = vec![1, 2, 3, 4, 5, 6, 7];
    let layer = Layer::from_weights(2, 2, &weights, 1, Activation::ReLU);
    assert_eq!(layer.activation(), Activation::ReLU);
    assert_eq!(layer.neurons().len(), 2);
    assert_eq!(layer.neurons()[0].bias(), 2);
    assert_eq!(*layer.neurons()[0].weights(), vec![3, 4]);
    assert_eq!(layer.neurons()[1].bias(), 5);
    assert_eq!(*layer.neurons()[1].weights(), vec![6, 7]);
}

#[test]
fn network_test() {
    let mut rng = ChaCha8Rng::from_seed(Default::default());
    let topology = [plain(2), plain(2)];
    let draws = draw(&mut rng, 6);
    let network = Network::random(&topology, &draws);

    assert_eq!(network.layers().len(), 1);
    assert_eq!(network.layers()[0].neurons().len(), 2);

    assert!(close(network.layers()[0].neurons()[0].bias(), 0.8181262));
    assert!(close_all(
        network.layers()[0].neurons()[0].weights().as_slice(),
        [-0.6255188, 0.67383957].as_ref()
    ));

    assert!(close(network.layers()[0].neurons()[1].bias(), -0.53516835));
    assert!(close_all(
        network.layers()[0].neurons()[1].weights().as_slice(),
        [0.26284897, 0.5238807].as_ref()
    ));
}

#[test]
fn network_test_from_weights() {
    let layers = &[plain(3), plain(2)];
    let weights = vec![0.1, 0.2, 0.3, 0.4, 0.5, 0.6, 0.7, 0.8];
    let network = Network::from_weights(layers, &weights);
    let actual: Vec<f32> = network.weights();

    assert!(close_all(actual.as_slice(), weights.as_slice()));
}

#[test]
fn from_weights_gives_each_layer_its_shape_and_activation() {
    let topology = [
        plain(3),
        LayerTopology {
            neurons: 2,
            activation: Activation::Sigmoid,
        },
        LayerTopology {
            neurons: 1,
            activation: Activation::Softmax,
        },
    ];
    assert_eq!(count_weights(&topology), Some(2 * 4 + 3));
    let weights: Vec<u32> = (0..11).collect();
    let network = Network::from_weights(&topology, &weights);

    assert_eq!(network.layers().len(), 2);
    let first = &network.layers()[0];
    assert_eq!(first.activation(), Activation::Sigmoid);
    assert_eq!(first.neurons().len(), 2);
    assert_eq!(first.neurons()[0].bias(), 0);
    assert_eq!(*first.neurons()[0].weights(), vec![1, 2, 3]);
    assert_eq!(first.neurons()[1].bias(), 4);
    assert_eq!(*first.neurons()[1].weights(), vec![5, 6, 7]);
    let second = &network.layers()[1];
    assert_eq!(second.activation(), Activation::Softmax);
    assert_eq!(second.neurons()[0].bias(), 8);
    assert_eq!(*second.neurons()[0].weights(), vec![9, 10]);

    assert_eq!(network.weights(), weights);
}

#[test]
fn round_trip_rebuilds_the_same_network() {
    let mut rng = ChaCha8Rng::seed_from_u64(3);
    let topology = [plain(6), plain(4), plain(4), plain(4)];
    let count = count_weights(&topology).unwrap();
    assert_eq!(count, 4 * 7 + 4 * 5 + 4 * 5);
    let network = Network::random(&topology, &draw(&mut rng, count));
    let rebuilt = Network::from_weights(&topology, &network.weights());
    assert_eq!(rebuilt.weights(), network.weights());
    for (a, b) in network.layers().iter().zip(rebuilt.layers().iter()) {
        assert_eq!(a.neurons().len(), b.neurons().len());
        for (n, m) in a.neurons().iter().zip(b.neurons().iter()) {
            assert_eq!(n.bias(), m.bias());
            assert_eq!(n.weights(), m.weights());
        }
    }
}

#[test]
fn random_network_has_the_shape_of_its_topology() {
    let mut rng = ChaCha8Rng::seed_from_u64(5);
    let topology = [plain(5), plain(3), plain(7), plain(2)];
    let count = count_weights(&topology).unwrap();
    let network = Network::random(&topology, &draw(&mut rng, count));
    assert_eq!(network.layers().len(), 3);
    for (i, layer) in network.layers().iter().enumerate() {
        assert_eq!(layer.neurons().len(), topology[i + 1].neurons);
        for neuron in layer.neurons() {
            assert_eq!(neuron.weights().len(), topology[i].neurons);
        }
    }
}

#[test]
fn count_weights_refuses_short_topologies_and_overflow() {
    assert_eq!(count_weights(&[]), None);
    assert_eq!(count_weights(&[plain(3)]), None);
    assert_eq!(count_weights(&[plain(3), plain(0)]), Some(0));
    assert_eq!(count_weights(&[plain(usize::MAX), plain(0)]), Some(0));
    assert_eq!(count_weights(&[plain(usize::MAX), plain(1)]), None);
    assert_eq!(count_weights(&[plain(usize::MAX / 2), plain(3)]), None);
}

#[test]
fn brain_has_its_topology_and_weights() {
    let topology = Brain::<f32>::topology();
    assert_eq!(topology.len(), 4);
    assert_eq!(topology[0].neurons, 24);
    assert_eq!(topology[1].neurons, 18);
    assert_eq!(topology[2].neurons, 18);
    assert_eq!(topology[3].neurons, 4);
    assert_eq!(topology[3].activation, Activation::Softmax);
    assert_eq!(count_weights(&topology), Some(868));

    let genes: Vec<u32> = (0..868).collect();
    let brain = Brain::from_chromosome(Chromosome::from_vec(genes.clone()));
    assert_eq!(brain.as_chromosome().into_vec(), genes);
    assert_eq!(brain.nn().layers().len(), 3);
    assert_eq!(brain.nn().layers()[2].neurons().len(), 4);
}
