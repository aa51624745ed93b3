//! A CHIP-8 / SUPER-CHIP interpreter core: memory, registers, timers, a
//! framebuffer with XOR sprite blitting, and a fetch-decode-execute step whose
//! behaviour is stated as a specification over an abstract machine view.

pub mod error;
pub mod variant;
pub mod stack;
pub mod display;
pub mod semantics;
pub mod font;
pub mod machine;
pub mod laws;

pub use error::Error;
pub use machine::MachineState;
pub use variant::{EmulationSystem, DISPLAY_HEIGHT, DISPLAY_WIDTH};
