//! Empirical time-complexity analysis of a black-box executable.
//!
//! The library generates argument payloads of controlled, growing size,
//! drives a measurement session over generations and iterations, and fits
//! the observed per-generation timings against a fixed set of candidate
//! growth curves, selecting the curve with the lowest normalized residual.
//!
//! Durations are carried as integer nanoseconds and the curve fitting works
//! over exact integer and fixed-point arithmetic, so every step of the
//! pipeline has a precise contract.

pub mod application_args;
pub mod complexity;
pub mod configs;
pub mod domain;
pub mod generators;
pub mod program;
pub mod run;
pub mod size;
pub mod text;
