//! A verified interpreter for the classic 8-bit fantasy-console instruction
//! set: 4 KB of byte-addressable memory, sixteen 8-bit registers, a 64 x 32
//! monochrome XOR-drawn framebuffer, a 16-key keypad and two countdown
//! timers. The fetch-decode-execute cycle, the sprite collision rule, the
//! blocking key-input state and the timer model are all specified against a
//! mathematical machine state and proved.

pub mod cpu;
pub mod fonts;
pub mod gfx;
pub mod keypad;
pub mod laws;
pub mod machine;
pub mod memory;
pub mod state;
