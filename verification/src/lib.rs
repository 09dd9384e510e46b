//! A three-dimensional cellular automaton on a cubic lattice with hard edges.
//!
//! Every cell is alive or dead. One generation replaces the whole lattice at
//! once: each cell's next state is decided by a rule from its current state and
//! the number of live cells among its up to 26 neighbours.

pub mod evolution;
pub mod game;
pub mod lattice;
pub mod neighbors;
pub mod rules;
pub mod seeding;
