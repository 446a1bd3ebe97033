//! A CHIP-8-class virtual machine: fetch-decode-execute over a flat 4 KiB
//! memory, sixteen 8-bit registers, a monochrome XOR-blit display, a 16-key
//! keypad latch and two decrementing timers.

pub mod cpu;
pub mod gpu;
pub mod graphics;
pub mod keypad;
pub mod random;
pub mod schedule;
