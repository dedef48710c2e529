//! Verified core of a scheduled repository-activity agent: randomized target
//! selection, a line-level mutation engine, the run orchestration state
//! machine and the single-flight scheduling gate.

pub mod random;
pub mod text;
pub mod config;
pub mod select;
pub mod lines;
pub mod mutate;
pub mod orchestrator;
pub mod schedule;
pub mod candidates;
