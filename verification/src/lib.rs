//! Evolving grid-game agents: the game's rules and what an agent sees of it,
//! chromosomes and the operators of a genetic algorithm, and the layout of a
//! feed-forward network's weights.

pub mod activation;
pub mod brain;
pub mod chromosome;
pub mod crossover;
pub mod direction;
pub mod evolution;
pub mod game;
pub mod genetic;
pub mod grid;
pub mod individual;
pub mod layer;
pub mod mutation;
pub mod network;
pub mod neuron;
pub mod position;
pub mod render;
pub mod selection;
pub mod snake;
pub mod snake_individual;
pub mod vision;
