[package]
name = "snake_evolution"
version = "0.1.0"
edition = "2021"
publish = false

[dependencies]
rand = "0.8"
approx = "0.5"
ordered-float = "*"
console = "*"

[dev-dependencies]
rand_chacha = "0.3"
