//! Assembling a simulation from its configuration.
pub mod builder;
pub mod reload;
