//! Loads a loosely-typed level description into a validated map model and
//! expands it into a flat list of placed geometric primitives.
//!
//! The pipeline has three parts: a decoder that walks an untyped, keyed
//! value and produces `Floor`/`Stair`/`Wall` records plus an origin
//! position, a generator that turns those records into positioned, scaled
//! primitives (floor tiles, staircase steps, wall panels), and a registry
//! that owns the load/unload/spawn/despawn lifecycle of named levels.
//! All coordinates are exact rationals, so every geometric formula is
//! stated and proved exactly.

pub mod decode;
pub mod generate;
pub mod model;
pub mod value;
pub mod rat;
pub mod registry;
