//! A falling-sand cellular automaton: the packed cell format, the host side of
//! the grid store, the brush that paints matter onto it, the line tracer that
//! joins two cursor positions, and the planner that orders the compute passes
//! of one simulation tick.

pub mod brush;
pub mod matter;
pub mod particle_simulator;
pub mod utils;
