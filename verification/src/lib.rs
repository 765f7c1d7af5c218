//! Slime-mold pattern formation on a toroidal grid, in fixed-point arithmetic.
//!
//! A population of independent agents senses and feeds a shared trail field;
//! the field spreads and evaporates between agent passes. Every pass is a
//! pure function of the state before it, stated as such in its contract.

pub mod agent;
pub mod compose;
pub mod dispatch;
pub mod error;
pub mod field;
pub mod laws;
pub mod mass;
pub mod params;
pub mod population;
mod rng;
pub mod simulation;
pub mod sums;
pub mod trig;
