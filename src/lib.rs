//! An interpreter for the CHIP-8 virtual machine: decoder, per-opcode
//! execution, the key-wait state machine and the 60 Hz timer unit.
pub mod decode;
pub mod machine;
pub mod timers;
mod rng;
pub mod laws;
pub mod chip8;

pub use chip8::Chip8;
pub use decode::{decode, Op};
pub use machine::{Fault, Machine, RunState};
pub use timers::Timers;
