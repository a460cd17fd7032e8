use rand::RngCore;
use rand::SeedableRng;
use rand_chacha::ChaCha8Rng;
use snake_evolution::chromosome::Chromosome;
use snake_evolution::evolution::{Evolution, Replay};
use snake_evolution::game::Game;
use snake_evolution::individual::Individual;
use snake_evolution::mutation::MutationMethod;
use snake_evolution::network::Network;
use snake_evolution::snake::Snake;
use snake_evolution::snake_individual::SnakeIndividual;

/// Leaves every chromosome as it is.
struct Keep;

impl MutationMethod<i32> for Keep {
    fn mutate<R: RngCore + ?Sized>(&self, _rng: &mut R, _child: &mut Chromosome<i32>) {}
}

/// The move is the bias of the first output neuron.
fn by_first_bias(network: &Network<i32>, _seen: &Vec<usize>) -> usize {
    network.layers()[2].neurons()[0].bias() as usize
}

/// Weights in stream order that make `by_first_bias` pick `action`.
fn weights_for(action: i32) -> Vec<i32> {
    let mut weights = vec![0; 868];
    weights[24 * 18 + 18 + 18 * 18 + 18] = action;
    weights
}

fn snake_for(action: i32) -> Snake<i32> {
    Snake::from_chromosome(Chromosome::from_vec(weights_for(action)), 5)
}

/// Draws that give the brain of `Snake::random` the move `action`.
fn draws_for(action: i32) -> Vec<i32> {
    let mut draws = vec![0; 868];
    // The first output neuron follows the two hidden layers; its bias is
    // drawn after its eighteen weights.
    draws[24 * 18 + 18 + 18 * 18 + 18 + 18] = action;
    draws
}

#[test]
fn snake_acts_and_records_the_picture() {
    let mut snake = snake_for(2);
    assert_eq!(snake.history().len(), 0);
    snake.act(2);
    assert_eq!(snake.game().step_count(), 1);
    assert_eq!(snake.history().len(), 1);
    assert_eq!(snake.history()[0], snake.game().display());
    assert_eq!(snake.fitness(), 1);
}

#[test]
fn snake_moves_as_its_brain_decides() {
    let mut left = snake_for(2);
    left.make_move(&by_first_bias);
    assert_eq!(left.game().head().x, 1);
    assert_eq!(left.game().head().y, 2);

    let mut down = snake_for(1);
    down.make_move(&by_first_bias);
    assert_eq!(down.game().head().x, 2);
    assert_eq!(down.game().head().y, 3);
}

#[test]
fn finished_snake_stays_as_it_is() {
    let mut snake = snake_for(0);
    for _ in 0..3 {
        snake.make_move(&by_first_bias);
    }
    assert!(snake.game().finished());
    let steps = snake.game().step_count();
    let pictures = snake.history().len();
    snake.make_move(&by_first_bias);
    snake.act(1);
    assert_eq!(snake.game().step_count(), steps);
    assert_eq!(snake.history().len(), pictures);
}

#[test]
fn fitness_counts_meals_and_moves() {
    let mut snake = snake_for(2);
    assert_eq!(snake.fitness(), 0);
    // The food of a new game lies at (0, 0); the head starts at (2, 2).
    snake.act(2);
    snake.act(2);
    snake.act(0);
    snake.act(0);
    assert_eq!(snake.game().score(), 1);
    assert_eq!(snake.game().step_count(), 4);
    assert_eq!(snake.fitness(), 1004);
}

#[test]
fn snake_individual_carries_fitness_and_chromosome() {
    let mut snake = snake_for(3);
    snake.act(3);
    let individual = SnakeIndividual::from_snake(&snake);
    assert_eq!(individual.fitness(), 1);
    assert_eq!(*individual.chromosome().as_vec(), weights_for(3));

    let fresh = individual.into_snake(7);
    assert_eq!(fresh.game().size(), 7);
    assert_eq!(fresh.game().step_count(), 0);
    assert_eq!(fresh.history().len(), 0);
    assert_eq!(fresh.as_chromosome().into_vec(), weights_for(3));

    let created = SnakeIndividual::create(Chromosome::from_vec(weights_for(1)));
    assert_eq!(created.fitness(), 0);
}

#[test]
fn random_snake_lays_its_draws_weights_first() {
    let snake = Snake::random(&draws_for(3), 4);
    assert_eq!(snake.game().size(), 4);
    assert_eq!(by_first_bias(snake.brain().nn(), &snake.process_vision()), 3);
    assert_eq!(snake.as_chromosome().into_vec(), weights_for(3));
}

#[test]
fn evolution_steps_every_snake_and_ages() {
    let draws = vec![draws_for(0), draws_for(1), draws_for(2), draws_for(3)];
    let mut evolution = Evolution::random(&draws, 5, Keep);
    assert_eq!(evolution.age(), 0);
    assert_eq!(evolution.population().len(), 4);

    evolution.step(&by_first_bias);
    assert_eq!(evolution.age(), 1);
    let heads: Vec<(isize, isize)> = evolution
        .population()
        .iter()
        .map(|snake| (snake.game().head().x, snake.game().head().y))
        .collect();
    assert_eq!(heads, vec![(2, 1), (2, 3), (1, 2), (3, 2)]);
    for snake in evolution.population() {
        assert_eq!(snake.history().len(), 1);
    }
}

#[test]
fn best_and_worst_break_ties_by_place() {
    let draws = vec![draws_for(0), draws_for(1), draws_for(2), draws_for(3)];
    let mut evolution = Evolution::random(&draws, 5, Keep);
    // All as fit as each other: the best is the last, the worst the first.
    assert_eq!(evolution.best_index(), 3);
    assert_eq!(evolution.worst_index(), 0);

    // Three ticks: the one that goes up leaves the grid on the third, and
    // so does the one that goes left; all have made three moves.
    for _ in 0..3 {
        evolution.step(&by_first_bias);
    }
    assert_eq!(evolution.best_index(), 3);
    assert_eq!(evolution.worst_index(), 0);

    // A fourth tick: only those still alive move.
    evolution.step(&by_first_bias);
    let fitnesses: Vec<u32> = evolution
        .population()
        .iter()
        .map(|snake| snake.fitness())
        .collect();
    assert_eq!(fitnesses, vec![3, 3, 3, 3]);
    assert_eq!(
        evolution.best_individual().game().head(),
        evolution.population()[3].game().head()
    );
    assert_eq!(
        evolution.worst_individual().game().head(),
        evolution.population()[0].game().head()
    );
    assert_eq!(evolution.replay(Replay::Best).len(), 3);
    assert_eq!(evolution.replay(Replay::Worst).len(), 3);
}

#[test]
fn best_is_the_one_that_ate() {
    // On a grid of three the head starts at (1, 1) and the food at (0, 0).
    let draws = vec![draws_for(1), draws_for(2), draws_for(3)];
    let mut evolution = Evolution::random(&draws, 3, Keep);
    evolution.step(&by_first_bias);
    evolution.step(&by_first_bias);
    let fitnesses: Vec<u32> = evolution
        .population()
        .iter()
        .map(|snake| snake.fitness())
        .collect();
    assert_eq!(fitnesses, vec![2, 2, 2]);
    assert_eq!(evolution.best_index(), 2);
    assert_eq!(evolution.worst_index(), 0);
}

#[test]
fn process_evolution_replaces_the_population() {
    let mut rng = ChaCha8Rng::from_seed(Default::default());
    let draws = vec![draws_for(0), draws_for(1), draws_for(2), draws_for(3)];
    let mut evolution = Evolution::random(&draws, 5, Keep);
    evolution.step(&by_first_bias);
    evolution.step(&by_first_bias);

    evolution.process_evolution(&mut rng);

    assert_eq!(evolution.age(), 0);
    assert_eq!(evolution.population().len(), 4);
    let fresh = Game::new(5);
    for snake in evolution.population() {
        assert_eq!(snake.game().size(), 5);
        assert_eq!(snake.game().step_count(), 0);
        assert_eq!(snake.game().snake(), fresh.snake());
        assert_eq!(snake.history().len(), 0);
        let genes = snake.as_chromosome().into_vec();
        assert_eq!(genes.len(), 868);
        // Every gene comes from a parent: all are 0 but the one that names
        // the move, which is the move of one of the four.
        for (i, gene) in genes.iter().enumerate() {
            if i == 24 * 18 + 18 + 18 * 18 + 18 {
                assert!((0..4).contains(gene));
            } else {
                assert_eq!(*gene, 0);
            }
        }
    }
}

#[test]
fn random_evolution_keeps_what_it_was_given() {
    let draws = vec![draws_for(1), draws_for(2)];
    let evolution = Evolution::random(&draws, 7, Keep);
    assert_eq!(evolution.grid_size(), 7);
    assert_eq!(evolution.age(), 0);
    for (snake, drawn) in evolution.population().iter().zip([1, 2]) {
        assert_eq!(snake.game().size(), 7);
        assert_eq!(snake.game().score(), 0);
        assert_eq!(snake.game().step_count(), 0);
        assert!(!snake.game().finished());
        assert_eq!(snake.as_chromosome().into_vec(), weights_for(drawn));
    }
}

#[test]
fn play_ticks_to_the_end_of_the_generation() {
    let draws = vec![draws_for(2), draws_for(3), draws_for(1)];
    let mut evolution = Evolution::random(&draws, 5, Keep);
    evolution.step(&by_first_bias);
    evolution.play(&by_first_bias);
    assert_eq!(evolution.age(), 10_000);
    // Each leaves the grid on its third move and stays as it is from then on.
    for (snake, drawn) in evolution.population().iter().zip([2, 3, 1]) {
        assert!(snake.game().finished());
        assert_eq!(snake.game().step_count(), 3);
        assert_eq!(snake.history().len(), 3);
        assert_eq!(snake.as_chromosome().into_vec(), weights_for(drawn));
    }
    // A generation that is over has no tick left to play.
    evolution.play(&by_first_bias);
    assert_eq!(evolution.age(), 10_000);
}

#[test]
fn train_breeds_the_next_generation_from_the_brains_it_had() {
    let mut rng = ChaCha8Rng::from_seed(Default::default());
    let draws = vec![draws_for(0), draws_for(3), draws_for(3)];
    let mut evolution = Evolution::random(&draws, 5, Keep);
    evolution.train(&mut rng, &by_first_bias);
    assert_eq!(evolution.age(), 0);
    assert_eq!(evolution.grid_size(), 5);
    assert_eq!(evolution.population().len(), 3);
    for snake in evolution.population() {
        assert_eq!(snake.game().score(), 0);
        assert_eq!(snake.game().step_count(), 0);
        assert!(!snake.game().finished());
        assert_eq!(snake.history().len(), 0);
        let genes = snake.as_chromosome().into_vec();
        assert_eq!(genes.len(), 868);
        for (i, gene) in genes.iter().enumerate() {
            if i == 24 * 18 + 18 + 18 * 18 + 18 {
                assert!(*gene == 0 || *gene == 3);
            } else {
                assert_eq!(*gene, 0);
            }
        }
    }
}

#[test]
fn train_plays_a_generation_and_renews_it() {
    let mut rng = ChaCha8Rng::from_seed(Default::default());
    let draws = vec![draws_for(2), draws_for(3)];
    let mut evolution = Evolution::random(&draws, 5, Keep);
    evolution.train(&mut rng, &by_first_bias);
    assert_eq!(evolution.age(), 0);
    assert_eq!(evolution.population().len(), 2);
    for snake in evolution.population() {
        assert_eq!(snake.game().step_count(), 0);
        assert!(!snake.game().finished());
    }
}

#[test]
fn save_exports_every_chromosome() {
    let draws = vec![draws_for(1), draws_for(2)];
    let evolution = Evolution::random(&draws, 5, Keep);
    let saved = evolution.save();
    assert_eq!(saved.len(), 2);
    assert_eq!(saved[0].clone().into_vec(), weights_for(1));
    assert_eq!(saved[1].clone().into_vec(), weights_for(2));
}
