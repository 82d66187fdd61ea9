//! A CHIP-8 interpreter core: machine state, the fetch-decode-execute cycle,
//! timers and the framebuffer, with every operation specified over an abstract
//! machine model.
pub mod emu;
pub mod laws;
pub mod machine;

pub use emu::Emu;
pub use machine::{EmuError, SCREEN_HEIGHT, SCREEN_WIDTH};
