//! The logic of a cellular automaton that runs on the GPU: the boards it starts
//! from, the brush that paints on them and its undo history, the pacing of the
//! simulation, and the decisions that the window and its panel ask for.

pub mod bindings;
pub mod board;
pub mod brush;
pub mod events;
pub mod navigation;
pub mod pacing;
pub mod packing;
pub mod painting;
pub mod panel;
pub mod rps;
pub mod simulation;
pub mod startup;
pub mod stats;
pub mod stroke;
pub mod surface;
pub mod text;
pub mod undo;
