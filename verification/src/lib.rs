//! A CHIP-8 interpreter core: memory, registers, call stack, keypad, timers
//! and a 64x32 monochrome frame buffer, driven one instruction at a time.
//!
//! The machine state is modelled by [`model::EmuView`]; every operation of
//! [`emu::Emu`] is specified as a function on that model.
use vstd::prelude::*;

pub mod emu;
pub mod keymap;
pub mod laws;
pub mod model;
pub mod semantics;
mod rng;
mod sprite;

pub use emu::Emu;
pub use model::Instruction;

verus! {

/// Bytes of addressable memory.
pub const RAM_SIZE: usize = 4096;

/// Width of the display in pixels.
pub const SCREEN_WIDTH: usize = 64;

/// Height of the display in pixels.
pub const SCREEN_HEIGHT: usize = 32;

/// Number of pixels of the display, stored row by row.
pub const SCREEN_SIZE: usize = 2048;

/// Number of general purpose registers V0 to VF.
pub const NUM_REGS: usize = 16;

/// Depth of the subroutine call stack.
pub const STACK_SIZE: usize = 16;

/// Number of keys of the hexadecimal keypad.
pub const NUM_KEYS: usize = 16;

/// Bytes of the built-in hexadecimal font.
pub const FONTSET_SIZE: usize = 80;

/// Address at which programs are loaded and execution starts.
pub const START_ADDR: u16 = 0x200;

/// The built-in font: five rows of four pixels for each of the digits 0 to F.
pub const FONTSET: [u8; FONTSET_SIZE] = [
    0xF0, 0x90, 0x90, 0x90, 0xF0,  // 0
    0x20, 0x60, 0x20, 0x20, 0x70,  // 1
    0xF0, 0x10, 0xF0, 0x80, 0xF0,  // 2
    0xF0, 0x10, 0xF0, 0x10, 0xF0,  // 3
    0x90, 0x90, 0xF0, 0x10, 0x10,  // 4
    0xF0, 0x80, 0xF0, 0x10, 0xF0,  // 5
    0xF0, 0x80, 0xF0, 0x90, 0xF0,  // 6
    0xF0, 0x10, 0x20, 0x40, 0x40,  // 7
    0xF0, 0x90, 0xF0, 0x90, 0xF0,  // 8
    0xF0, 0x90, 0xF0, 0x10, 0xF0,  // 9
    0xF0, 0x90, 0xF0, 0x90, 0x90,  // A
    0xE0, 0x90, 0xE0, 0x90, 0xE0,  // B
    0xF0, 0x80, 0x80, 0x80, 0xF0,  // C
    0xE0, 0x90, 0x90, 0x90, 0xE0,  // D
    0xF0, 0x80, 0xF0, 0x80, 0xF0,  // E
    0xF0, 0x80, 0xF0, 0x80, 0x80,  // F
];

} // verus!
