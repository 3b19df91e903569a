//! A model of memory-safety hazard scenarios: resources with explicit
//! ownership and lifetime state, sharing primitives that bypass normal
//! aliasing rules, task descriptors, a deterministic task runner, and a
//! classifier that decides which hazard classes a run actually exhibited.

pub mod catalog;
pub mod classifier;
pub mod laws;
pub mod patterns;
pub mod report;
pub mod resource;
pub mod runner;
pub mod scenario;
pub mod sharing;
pub mod task;
pub mod trace;
