//! A turn-based night-watch simulation: a fixed building of rooms, a battery
//! that drains under load, animatronic agents that wander toward the office,
//! and the staged confrontation that follows a power failure.

pub mod animatronic;
pub mod battery;
mod dice;
pub mod laws;
pub mod rooms;
pub mod simulation;
