//! The parts of the display that are decided without drawing anything.

pub mod splash;
pub mod table;
