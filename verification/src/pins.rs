//! Signal-to-bit-position configuration for the parallel output word.
//!
//! Every HUB75 signal (six color data lines, up to five row-address lines,
//! shift clock, latch, output-enable) sits at a fixed bit position inside one
//! 16-bit port word. The engine works with the derived single-bit masks.
use vstd::prelude::*;

verus! {

/// Bit position (0..=15) of each logical signal within the output word.
#[derive(PartialEq, Eq, Structural, Clone, Copy)]
pub struct Pins {
    pub r1: u16,
    pub g1: u16,
    pub b1: u16,
    pub r2: u16,
    pub g2: u16,
    pub b2: u16,
    pub a: u16,
    pub b: u16,
    pub c: u16,
    pub d: u16,
    pub f: u16,
    pub clock: u16,
    pub latch: u16,
    pub oe: u16,
}

/// Single-bit mask of each logical signal within the output word.
#[derive(PartialEq, Eq, Structural, Clone, Copy)]
pub struct PinMasks {
    pub r1: u16,
    pub g1: u16,
    pub b1: u16,
    pub r2: u16,
    pub g2: u16,
    pub b2: u16,
    pub a: u16,
    pub b: u16,
    pub c: u16,
    pub d: u16,
    pub f: u16,
    pub clock: u16,
    pub latch: u16,
    pub oe: u16,
}

/// Every configured bit position fits inside a 16-bit word.
pub open spec fn pins_valid(p: Pins) -> bool {
    &&& p.r1 < 16
    &&& p.g1 < 16
    &&& p.b1 < 16
    &&& p.r2 < 16
    &&& p.g2 < 16
    &&& p.b2 < 16
    &&& p.a < 16
    &&& p.b < 16
    &&& p.c < 16
    &&& p.d < 16
    &&& p.f < 16
    &&& p.clock < 16
    &&& p.latch < 16
    &&& p.oe < 16
}

/// The mask derived from each configured bit position.
pub open spec fn masks_of(p: Pins) -> PinMasks
    recommends
        pins_valid(p),
{
    PinMasks {
        r1: 1u16 << p.r1,
        g1: 1u16 << p.g1,
        b1: 1u16 << p.b1,
        r2: 1u16 << p.r2,
        g2: 1u16 << p.g2,
        b2: 1u16 << p.b2,
        a: 1u16 << p.a,
        b: 1u16 << p.b,
        c: 1u16 << p.c,
        d: 1u16 << p.d,
        f: 1u16 << p.f,
        clock: 1u16 << p.clock,
        latch: 1u16 << p.latch,
        oe: 1u16 << p.oe,
    }
}

/// Compute the per-signal masks from the configured bit positions.
pub fn compute_masks(p: &Pins) -> (m: PinMasks)
    requires
        pins_valid(*p),
    ensures
        m == masks_of(*p),
{
    PinMasks {
        r1: 1u16 << p.r1,
        g1: 1u16 << p.g1,
        b1: 1u16 << p.b1,
        r2: 1u16 << p.r2,
        g2: 1u16 << p.g2,
        b2: 1u16 << p.b2,
        a: 1u16 << p.a,
        b: 1u16 << p.b,
        c: 1u16 << p.c,
        d: 1u16 << p.d,
        f: 1u16 << p.f,
        clock: 1u16 << p.clock,
        latch: 1u16 << p.latch,
        oe: 1u16 << p.oe,
    }
}

} // verus!
