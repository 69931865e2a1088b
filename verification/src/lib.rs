//! A verified interpreter core for a classic 8-bit virtual machine with a
//! 64x32 monochrome display, a 16-key input pad, 4096 bytes of addressable
//! memory, sixteen 8-bit registers, a call stack and two 8-bit timers.
//!
//! The crate models every component with a mathematical view (`Seq`-based)
//! and proves the fetch-decode-execute cycle against a specification-level
//! transition function.

use vstd::prelude::*;

pub mod chip8;
pub mod decode;
pub mod draw;
pub mod font;
pub mod keyboard;
pub mod memory;
pub mod rng;
pub mod screen;

verus! {

/// Width of the display in cells.
pub const SCREEN_WIDTH_C8: usize = 64;

/// Height of the display in cells.
pub const SCREEN_HEIGHT_C8: usize = 32;

} // verus!
