//! Simulation core of a top-down "dodge and shoot the falling squares"
//! arcade game.
//!
//! The library owns the per-frame logic: spawning falling hazards, moving
//! entities, pruning the ones that left the playfield or were destroyed,
//! detecting collisions, keeping score, and driving the top-level game mode
//! (menu, playing, paused, game over).  Rendering, input sampling, random
//! number generation and the persisted high-score file are left to the
//! embedding program, which hands the core plain values each frame.
//!
//! All coordinates are fixed-point: thousandths of a screen unit
//! ("milli-units").  Time is measured in whole milliseconds.  Speeds are
//! milli-units per second.

pub mod entities;
pub mod geom;
pub mod score;
pub mod sim;
pub mod world;
