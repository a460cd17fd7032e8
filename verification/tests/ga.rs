use approx::RelativeEq;
use rand::seq::SliceRandom;
use rand::Rng;
use rand::RngCore;
use rand::SeedableRng;
use rand_chacha::ChaCha8Rng;
use snake_evolution::chromosome::Chromosome;
use snake_evolution::crossover::{CrossoverMethod, UniformCrossover};
use snake_evolution::genetic::GeneticAlgorithm;
use snake_evolution::individual::Individual;
use snake_evolution::mutation::MutationMethod;
use snake_evolution::selection::{RouletteWheelSelection, SelectionMethod};
use std::collections::BTreeMap;

/// An individual whose fitness is the sum of its genes.
#[derive(Clone, Debug)]
struct SumIndividual {
    chromosome: Chromosome<f32>,
}

impl Individual for SumIndividual {
    type Gene = f32;
    type Fitness = f32;

    fn fitness(&self) -> f32 {
        self.chromosome.as_vec().iter().sum()
    }

    fn chromosome(&self) -> &Chromosome<f32> {
        &self.chromosome
    }

    fn create(chromosome: Chromosome<f32>) -> Self {
        SumIndividual { chromosome }
    }
}

/// An individual of a given whole fitness.
#[derive(Clone, Debug)]
struct WeightedIndividual {
    fitness: u32,
    chromosome: Chromosome<f32>,
}

impl WeightedIndividual {
    fn new(fitness: u32) -> WeightedIndividual {
        WeightedIndividual {
            fitness,
            chromosome: Chromosome::from_vec(Vec::new()),
        }
    }
}

impl Individual for WeightedIndividual {
    type Gene = f32;
    type Fitness = u32;

    fn fitness(&self) -> u32 {
        self.fitness
    }

    fn chromosome(&self) -> &Chromosome<f32> {
        &self.chromosome
    }

    fn create(chromosome: Chromosome<f32>) -> Self {
        WeightedIndividual {
            fitness: 0,
            chromosome,
        }
    }
}

/// The roulette wheel over fitnesses that are not whole numbers.
struct RealRoulette;

impl SelectionMethod<SumIndividual> for RealRoulette {
    fn select<'a, R: RngCore + ?Sized>(
        &self,
        rng: &mut R,
        population: &'a [SumIndividual],
    ) -> &'a SumIndividual {
        population
            .choose_weighted(rng, |individual| individual.fitness())
            .expect("Received empty population")
    }
}

/// Adds to each gene, with probability `rate`, up to `factor` with a random
/// sign.
struct GaussianMutation {
    rate: f32,
    factor: f32,
}

impl GaussianMutation {
    fn new(rate: f32, factor: f32) -> GaussianMutation {
        assert!(rate >= 0.0 && rate <= 1.0);
        GaussianMutation { rate, factor }
    }
}

impl MutationMethod<f32> for GaussianMutation {
    fn mutate<R: RngCore + ?Sized>(&self, rng: &mut R, child: &mut Chromosome<f32>) {
        for i in 0..child.len() {
            let sign = if rng.gen_bool(0.5) { -1.0 } else { 1.0 };

            if rng.gen_bool(self.rate as f64) {
                let gene = child.get(i) + sign * self.factor * rng.gen::<f32>();
                child.set(i, gene);
            }
        }
    }
}

fn individual(genes: &[f32]) -> SumIndividual {
    SumIndividual::create(Chromosome::from_vec(genes.to_vec()))
}

fn same_genes(actual: &[f32], expected: &[f32]) -> bool {
    actual.relative_eq(expected, f32::EPSILON, f32::EPSILON)
}

fn mutated(rate: f32, factor: f32) -> Vec<f32> {
    let mut child = Chromosome::from_vec(vec![1.0, 2.0, 3.0, 4.0, 5.0]);
    let mut rng = ChaCha8Rng::from_seed(Default::default());
    GaussianMutation::new(rate, factor).mutate(&mut rng, &mut child);
    child.into_vec()
}

#[test]
fn crossover_test() {
    let mut rng = ChaCha8Rng::from_seed(Default::default());
    let parent_a: Chromosome<f32> = Chromosome::from_vec((1..=100).map(|n| n as f32).collect());
    let parent_b: Chromosome<f32> = Chromosome::from_vec((1..=100).map(|n| -n as f32).collect());
    let child = UniformCrossover::new().crossover(&mut rng, &parent_a, &parent_b);

    // Number of genes different between 'child' and 'parent_a'
    let diff_a = child
        .as_vec()
        .iter()
        .zip(parent_a.into_vec())
        .filter(|(c, p)| *c != p)
        .count();

    // Number of genes different between 'child' and 'parent_b'
    let diff_b = child
        .as_vec()
        .iter()
        .zip(parent_b.into_vec())
        .filter(|(c, p)| *c != p)
        .count();

    assert_eq!(diff_a, 49);
    assert_eq!(diff_b, 51);
}

#[test]
fn crossover_takes_every_gene_from_a_parent() {
    for seed in 0..20u64 {
        let mut rng = ChaCha8Rng::seed_from_u64(seed);
        let parent_a = Chromosome::from_vec((0..50).map(|n| n * 2).collect::<Vec<i64>>());
        let parent_b = Chromosome::from_vec((0..50).map(|n| n * 2 + 1).collect::<Vec<i64>>());
        let child = UniformCrossover::new().crossover(&mut rng, &parent_a, &parent_b);
        assert_eq!(child.len(), 50);
        for i in 0..50 {
            assert!(child.get(i) == parent_a.get(i) || child.get(i) == parent_b.get(i));
        }
    }
}

#[test]
fn mix_follows_the_coins() {
    let parent_a = Chromosome::from_vec(vec![1, 2, 3, 4]);
    let parent_b = Chromosome::from_vec(vec![-1, -2, -3, -4]);
    let child = UniformCrossover::mix(&parent_a, &parent_b, &vec![true, false, false, true]);
    assert_eq!(child.into_vec(), vec![1, -2, -3, 4]);
}

#[test]
fn crossover_of_empty_parents_is_empty() {
    let mut rng = ChaCha8Rng::from_seed(Default::default());
    let parent_a: Chromosome<u8> = Chromosome::from_vec(Vec::new());
    let parent_b: Chromosome<u8> = Chromosome::from_vec(Vec::new());
    let child = UniformCrossover::default().crossover(&mut rng, &parent_a, &parent_b);
    assert_eq!(child.len(), 0);
}

#[test]
fn lib_test() {
    let mut rng = ChaCha8Rng::from_seed(Default::default());

    let ga = GeneticAlgorithm::new(
        RealRoulette,
        UniformCrossover::new(),
        GaussianMutation::new(0.25, 1.0),
    );

    let mut population = vec![
        individual(&[0.0, 0.0, 0.0]), // fitness = 0.0
        individual(&[1.0, 1.0, 1.0]), // fitness = 3.0
        individual(&[2.0, 2.0, 2.0]), // fitness = 6.0
        individual(&[3.0, 3.0, 3.0]), // fitness = 9.0
        individual(&[4.0, 4.0, 4.0]), // fitness = 12.0
    ];

    for _ in 0..5 {
        population = ga.step(&mut rng, &population);
    }

    let expected_population = vec![
        individual(&[2.2071722, 1.443665, 4.9321785]),
        individual(&[2.0, 3.0, 3.3834975]),
        individual(&[2.0, 3.0, 2.5290549]),
        individual(&[2.2071722, 3.5167656, 3.3899784]),
        individual(&[2.0, 3.0, 2.8409562]),
    ];

    assert_eq!(population.len(), expected_population.len());
    for (actual, expected) in population.iter().zip(expected_population.iter()) {
        assert!(
            same_genes(actual.chromosome().as_vec(), expected.chromosome().as_vec()),
            "{:?} != {:?}",
            actual,
            expected
        );
    }
}

#[test]
fn breed_crosses_then_mutates() {
    let mut rng = ChaCha8Rng::from_seed(Default::default());
    let ga = GeneticAlgorithm::new(
        RealRoulette,
        UniformCrossover::new(),
        GaussianMutation::new(0.0, 1.0),
    );
    let child = ga.breed(
        &mut rng,
        individual(&[1.0, 2.0, 3.0, 4.0]),
        individual(&[-1.0, -2.0, -3.0, -4.0]),
    );
    let genes = child.chromosome().as_vec();
    assert_eq!(genes.len(), 4);
    for (i, gene) in genes.iter().enumerate() {
        assert_eq!(gene.abs(), (i + 1) as f32);
    }
}

#[test]
fn selection_test() {
    let method = RouletteWheelSelection::new();
    let mut rng = ChaCha8Rng::from_seed(Default::default());

    let population = vec![
        WeightedIndividual::new(1),
        WeightedIndividual::new(2),
        WeightedIndividual::new(3),
        WeightedIndividual::new(4),
    ];

    let mut actual_histogram: BTreeMap<i32, i32> = BTreeMap::new();
    for _ in 0..1000 {
        let individual = method.select(&mut rng, &population);
        *actual_histogram.entry(individual.fitness() as i32).or_default() += 1;
    }

    let mut expected_histogram: BTreeMap<i32, i32> = BTreeMap::new();
    // fitness => selection count
    expected_histogram.insert(1, 102);
    expected_histogram.insert(2, 198);
    expected_histogram.insert(3, 301);
    expected_histogram.insert(4, 399);

    assert_eq!(actual_histogram, expected_histogram);
}

#[test]
fn selection_never_picks_a_fitness_of_zero() {
    let method = RouletteWheelSelection::default();
    let mut rng = ChaCha8Rng::seed_from_u64(7);
    let population = vec![
        WeightedIndividual::new(0),
        WeightedIndividual::new(5),
        WeightedIndividual::new(0),
    ];
    for _ in 0..200 {
        assert_eq!(method.select(&mut rng, &population).fitness(), 5);
    }
}

#[test]
fn selection_frequency_follows_the_weights() {
    let method = RouletteWheelSelection::new();
    let mut rng = ChaCha8Rng::seed_from_u64(11);
    let population = vec![
        WeightedIndividual::new(10),
        WeightedIndividual::new(30),
        WeightedIndividual::new(60),
    ];
    let draws = 20_000;
    let mut counts = [0u32; 3];
    for _ in 0..draws {
        match method.select(&mut rng, &population).fitness() {
            10 => counts[0] += 1,
            30 => counts[1] += 1,
            _ => counts[2] += 1,
        }
    }
    let shares = [0.1, 0.3, 0.6];
    for i in 0..3 {
        let share = counts[i] as f64 / draws as f64;
        assert!((share - shares[i]).abs() < 0.02, "share {} of {}", share, i);
    }
}

#[test]
fn settle_takes_what_the_wheel_gave() {
    let population = vec![WeightedIndividual::new(1), WeightedIndividual::new(2)];
    let chosen = RouletteWheelSelection::settle(Some(&population[1]));
    assert_eq!(chosen.fitness(), 2);
    let chosen = RouletteWheelSelection::settle(Some(&population[0]));
    assert_eq!(chosen.fitness(), 1);
}

#[test]
fn mutation_does_not_change_original_chromosome() {
    let expected = vec![1.0, 2.0, 3.0, 4.0, 5.0];
    assert!(same_genes(&mutated(0.0, 0.0), &expected));
    assert!(same_genes(&mutated(0.0, 0.5), &expected));
    assert!(same_genes(&mutated(0.5, 0.0), &expected));
    assert!(same_genes(&mutated(1.0, 0.0), &expected));
}

#[test]
fn slightly_changes_original_chromosome() {
    let actual = mutated(0.5, 0.5);
    let expected = vec![1.0, 1.7756249, 3.0, 4.1596804, 5.0];
    assert!(same_genes(&actual, &expected), "{:?}", actual);
}

#[test]
fn changes_original_chromosome() {
    let actual = mutated(1.0, 0.5);
    let expected = vec![1.4545316, 2.1162078, 2.7756248, 3.9505124, 4.638691];
    assert!(same_genes(&actual, &expected), "{:?}", actual);
}
