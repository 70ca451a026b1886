//! Continuous-time Monte Carlo simulation of the two-dimensional Ising model:
//! a toroidal spin lattice, buffered waiting-time draws, and a next-reaction
//! event scheduler.

pub mod ising_evolve;
pub mod ising_store;
