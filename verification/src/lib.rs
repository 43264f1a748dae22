//! Adaptive firmware build engine: build-system detection, failure analysis,
//! retry orchestration, and a concurrent job lifecycle registry, with
//! machine-checked contracts on every operation.

pub mod analysis;
pub mod applier;
pub mod detection;
pub mod executor;
pub mod jobs;
pub mod model;
pub mod orchestrator;
pub mod strategy;
pub mod text;
pub mod validation;
