//! A grid-based snake game engine: a deterministic state machine over a
//! rectangular board, driven by direction inputs and an external clock.
pub mod game;
pub mod gui;
