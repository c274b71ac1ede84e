//! A CHIP-8 interpreter core: machine state, instruction decoding and the
//! fetch-decode-execute cycle, each stated against a mathematical model of
//! the machine ([`model::Machine`]).

pub mod arith;
pub mod chip;
pub mod decode;
pub mod display;
pub mod error;
pub mod laws;
pub mod model;
pub mod platform;

pub use chip::{Chip, RegisterDump};
pub use display::Display;
pub use error::ChipError;
