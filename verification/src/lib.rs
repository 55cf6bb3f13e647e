//! A verified CHIP-8 core: the instruction decoder, the framebuffer model,
//! and the CPU execution engine.
//!
//! The display window, keyboard events and ROM files live outside this
//! crate; the engine works on a modelled framebuffer and key snapshot and
//! is driven one `step` at a time.

pub mod parsing;
pub mod screen;
pub mod cpu;
