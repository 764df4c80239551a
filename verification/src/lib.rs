//! SoroScope: what Soroban contract calls consume, compared, reported and worked through as jobs.

pub mod api;
pub mod cli;
pub mod comparison;
pub mod config;
pub mod double;
pub mod form;
pub mod jobs;
pub mod json;
pub mod parser;
pub mod queue;
pub mod rounding;
pub mod scval;
pub mod simulation;
pub mod text;
pub mod time;
pub mod webhook;
pub mod worker;
