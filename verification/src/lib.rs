//! A verified CHIP-8 interpreter core.
//!
//! The crate models the classic CHIP-8 virtual machine: 4KB of memory, 16
//! 8-bit registers, a 16-level call stack, a 64x32 monochrome framebuffer,
//! a 16-key keypad and two 60Hz timers.  The fetch-decode-execute engine and
//! every instruction handler carry full functional contracts; rendering,
//! audio and input mapping are left to an unverified front end that only
//! reads the state this crate exposes.

pub mod decode;
pub mod display;
pub mod vm;
