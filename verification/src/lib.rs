//! Verified core of a small model-rocketry toolkit: decimal identifiers for
//! the motor selector of the simulator window, the decisions behind its
//! linked inputs, the analysis that the `timescale` derive macros run on a
//! struct, the checks of the `preflight` avionics harness, and the
//! resolution of interpolated table lookups.

pub mod application;
pub mod avionics;
pub mod decimal;
pub mod force_generator;
pub mod interpolated_data;
pub mod lexing;
pub mod timescale;
pub mod timescale_data;

