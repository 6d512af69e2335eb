//! A deterministic particle-and-field engine for a one-dimensional model of
//! coronal plasma.
//!
//! A magnetic field on a grid of cells evolves under a finite-difference
//! solver, charged particles drift, cells whose field exceeds a threshold
//! reconnect and speed the particles up, and an optional ensemble of waves
//! feeds the field. The size of every step follows from the strongest field
//! on the grid.
//!
//! Every quantity is a decimal fixed-point number ([`fixed::Fixed`]), so that
//! a run gives the same result on every machine and every rule of the engine
//! is an exact statement about integers. A step in which a quantity would
//! leave the representable range is reported as degenerate and not taken.
//!
//! The modules, leaves first: [`fixed`] and [`measure`] hold the arithmetic;
//! [`grid`], [`particles`] and [`waves`] the data; [`solver`], [`mover`],
//! [`monitor`] and [`controller`] the rules of one step; [`simulation`] the
//! run; [`seeding`] the randomized initial states; [`analysis`] the figures
//! drawn from a run; [`laws`] what holds of the engine for all inputs.

pub mod analysis;
pub mod controller;
pub mod error;
pub mod fixed;
pub mod grid;
pub mod laws;
pub mod measure;
pub mod monitor;
pub mod mover;
pub mod particles;
pub mod seeding;
pub mod sequence;
pub mod simulation;
pub mod solver;
pub mod waves;
