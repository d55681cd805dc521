//! Verified rendering engine for HUB75-protocol RGB LED matrix panels.
//!
//! The engine keeps a gamma-corrected framebuffer and computes, as plain
//! data, the exact sequence of parallel port words and settling delays that
//! drives a panel: per-pixel color bits, row-address bits, shift clock,
//! latch and output-enable. An unverified shell performs the actual port
//! writes and microsecond delays by replaying that sequence.

pub mod engine;
pub mod framebuffer;
pub mod gamma;
pub mod mapping;
pub mod pins;
pub mod protocol;
