pub mod laws;
pub mod rng;
pub mod tick;
pub mod trunks;
pub mod woodchips;
pub mod world;
