//! A falling-sand cellular automaton: a fixed grid of particles, double
//! buffered, advanced one tick at a time by local rules, and painted with a
//! square brush between ticks.

pub mod particle;
pub mod grid;
pub mod rules;
pub mod simulation;
pub mod laws;
pub mod presentation;
