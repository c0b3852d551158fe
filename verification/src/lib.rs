//! Conversion of a cycle-accurate simulator's pipeline log into a structured
//! instruction trace: a per-cycle index of instruction positions, the
//! translation rules, and the two-pass conversion engine.

pub mod captures;
pub mod cycle_bounds;
pub mod engine;
pub mod number;
pub mod pass_one;
pub mod pass_two;
pub mod placement;
pub mod rules;
pub mod text;
pub mod trace;
