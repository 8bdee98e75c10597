pub mod cli;
pub mod rng_generator;
