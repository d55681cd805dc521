//! Framebuffer cell and color types.
//!
//! Each framebuffer cell carries six 8-bit duty values: red, green and blue
//! for the top half-panel row and for the bottom half-panel row that one
//! scan-row step drives simultaneously. Duty values are always
//! gamma-corrected outputs; the correction is applied exactly once, at
//! write time.
use crate::gamma::spec_gamma;
use vstd::prelude::*;

verus! {

/// An RGB color with three linear 8-bit channels.
#[derive(PartialEq, Eq, Structural, Clone, Copy, Debug)]
pub struct Color {
    pub r: u8,
    pub g: u8,
    pub b: u8,
}

/// One framebuffer cell: gamma-corrected duty values for the top-half and
/// bottom-half sub-pixels sharing one scan row and column.
#[derive(PartialEq, Eq, Structural, Clone, Copy, Debug)]
pub struct Cell {
    pub r1: u8,
    pub g1: u8,
    pub b1: u8,
    pub r2: u8,
    pub g2: u8,
    pub b2: u8,
}

/// A fully dark cell: every duty value zero.
pub open spec fn zero_cell() -> Cell {
    Cell { r1: 0, g1: 0, b1: 0, r2: 0, g2: 0, b2: 0 }
}

/// A cell with both halves set to the gamma-corrected image of one color.
pub open spec fn filled_cell(color: Color) -> Cell {
    Cell {
        r1: spec_gamma(color.r),
        g1: spec_gamma(color.g),
        b1: spec_gamma(color.b),
        r2: spec_gamma(color.r),
        g2: spec_gamma(color.g),
        b2: spec_gamma(color.b),
    }
}

/// The cell after storing the gamma-corrected color into one half,
/// leaving the other half untouched.
pub open spec fn write_half(cell: Cell, top: bool, color: Color) -> Cell {
    if top {
        Cell {
            r1: spec_gamma(color.r),
            g1: spec_gamma(color.g),
            b1: spec_gamma(color.b),
            r2: cell.r2,
            g2: cell.g2,
            b2: cell.b2,
        }
    } else {
        Cell {
            r1: cell.r1,
            g1: cell.g1,
            b1: cell.b1,
            r2: spec_gamma(color.r),
            g2: spec_gamma(color.g),
            b2: spec_gamma(color.b),
        }
    }
}

/// A framebuffer of the given size holding only dark cells.
pub open spec fn blank_fb(len: nat) -> Seq<Cell> {
    Seq::new(len, |i: int| zero_cell())
}

} // verus!
