//! A synthetic transaction benchmark: a fixed number of units is cut into
//! batches, the batches run in waves of bounded width, and every unit is
//! handled after a random delay with a small chance of a logged failure.
//!
//! This crate holds the decisions of that benchmark and proves them; waiting,
//! spawning and printing are left to the program that drives it.

pub mod config;
pub mod handler;
pub mod partition;
pub mod report;
pub mod scheduler;
