//! The HUB75 signal protocol as data.
//!
//! An output pass is described as the exact sequence of operations the
//! hardware shell must perform: full-word writes to the parallel port and
//! microsecond settling delays. Per scanned row the protocol shifts one
//! color bit per channel for every column (clock pulsed high then low),
//! blanks the output, latches the shifted bits, drives the row-address
//! lines, and re-enables the output.
use crate::framebuffer::Cell;
use crate::pins::PinMasks;
use vstd::prelude::*;

verus! {

/// One step of an output pass: write a word to the parallel port, or hold
/// everything steady for a settling delay in microseconds.
#[derive(PartialEq, Eq, Structural, Clone, Copy, Debug)]
pub enum SignalOp {
    Write(u16),
    DelayUs(u32),
}

/// Color-data bits of one cell under threshold modulation: each channel
/// drives its data line high when its duty value reaches the threshold.
pub open spec fn pwm_color_word(m: PinMasks, cell: Cell, threshold: u8) -> u16 {
    (if cell.r1 >= threshold { m.r1 } else { 0 })
        | (if cell.g1 >= threshold { m.g1 } else { 0 })
        | (if cell.b1 >= threshold { m.b1 } else { 0 })
        | (if cell.r2 >= threshold { m.r2 } else { 0 })
        | (if cell.g2 >= threshold { m.g2 } else { 0 })
        | (if cell.b2 >= threshold { m.b2 } else { 0 })
}

/// Color-data bits of one cell under binary-code modulation: each channel
/// drives its data line high when the selected bit of its duty value is set.
pub open spec fn bcm_color_word(m: PinMasks, cell: Cell, mask: u8) -> u16 {
    (if cell.r1 & mask != 0 { m.r1 } else { 0 })
        | (if cell.g1 & mask != 0 { m.g1 } else { 0 })
        | (if cell.b1 & mask != 0 { m.b1 } else { 0 })
        | (if cell.r2 & mask != 0 { m.r2 } else { 0 })
        | (if cell.g2 & mask != 0 { m.g2 } else { 0 })
        | (if cell.b2 & mask != 0 { m.b2 } else { 0 })
}

/// Row-address bits: the binary representation of the row index, least
/// significant bit on line A.
pub open spec fn addr_word(m: PinMasks, row: usize) -> u16 {
    (if row & 1 != 0 { m.a } else { 0 })
        | (if row & 2 != 0 { m.b } else { 0 })
        | (if row & 4 != 0 { m.c } else { 0 })
        | (if row & 8 != 0 { m.d } else { 0 })
        | (if row & 16 != 0 { m.f } else { 0 })
}

/// All row-address lines together.
pub open spec fn addr_mask(m: PinMasks) -> u16 {
    m.a | m.b | m.c | m.d | m.f
}

/// Compute the threshold-modulation color word of one cell.
pub fn pwm_color_word_exec(m: &PinMasks, cell: &Cell, threshold: u8) -> (w: u16)
    ensures
        w == pwm_color_word(*m, *cell, threshold),
{
    (if cell.r1 >= threshold { m.r1 } else { 0 })
        | (if cell.g1 >= threshold { m.g1 } else { 0 })
        | (if cell.b1 >= threshold { m.b1 } else { 0 })
        | (if cell.r2 >= threshold { m.r2 } else { 0 })
        | (if cell.g2 >= threshold { m.g2 } else { 0 })
        | (if cell.b2 >= threshold { m.b2 } else { 0 })
}

/// Compute the binary-code-modulation color word of one cell.
pub fn bcm_color_word_exec(m: &PinMasks, cell: &Cell, mask: u8) -> (w: u16)
    ensures
        w == bcm_color_word(*m, *cell, mask),
{
    (if cell.r1 & mask != 0 { m.r1 } else { 0 })
        | (if cell.g1 & mask != 0 { m.g1 } else { 0 })
        | (if cell.b1 & mask != 0 { m.b1 } else { 0 })
        | (if cell.r2 & mask != 0 { m.r2 } else { 0 })
        | (if cell.g2 & mask != 0 { m.g2 } else { 0 })
        | (if cell.b2 & mask != 0 { m.b2 } else { 0 })
}

/// Compute the row-address word for one buffer row index.
pub fn addr_word_exec(m: &PinMasks, row: usize) -> (w: u16)
    ensures
        w == addr_word(*m, row),
{
    (if row & 1 != 0 { m.a } else { 0 })
        | (if row & 2 != 0 { m.b } else { 0 })
        | (if row & 4 != 0 { m.c } else { 0 })
        | (if row & 8 != 0 { m.d } else { 0 })
        | (if row & 16 != 0 { m.f } else { 0 })
}

/// Compute the combined mask of all row-address lines.
pub fn addr_mask_exec(m: &PinMasks) -> (w: u16)
    ensures
        w == addr_mask(*m),
{
    m.a | m.b | m.c | m.d | m.f
}

/// One buffer row of a flat framebuffer.
pub open spec fn fb_row(fb: Seq<Cell>, cols: int, r: int) -> Seq<Cell>
    recommends
        0 <= r,
        (r + 1) * cols <= fb.len(),
{
    fb.subrange(r * cols, (r + 1) * cols)
}

/// Column shifting under threshold modulation: per column the color word
/// (latch held high) is written with the clock high, then with it low.
pub open spec fn pwm_shift_ops(m: PinMasks, row: Seq<Cell>, threshold: u8) -> Seq<SignalOp> {
    Seq::new(
        2 * row.len(),
        |k: int|
            {
                let w = pwm_color_word(m, row[k / 2], threshold) | m.latch;
                if k % 2 == 0 {
                    SignalOp::Write(w | m.clock)
                } else {
                    SignalOp::Write(w)
                }
            },
    )
}

/// Row commit under threshold modulation: blank the output and drop the
/// latch, settle, raise the latch to commit the shifted bits, drive the
/// row-address lines, then re-enable the output. The color-data bits of
/// the last shifted column ride along; after clocking they are inert.
pub open spec fn pwm_row_tail(m: PinMasks, row: Seq<Cell>, row_index: usize, threshold: u8) -> Seq<
    SignalOp,
>
    recommends
        row.len() > 0,
{
    let base = pwm_color_word(m, row.last(), threshold) | m.latch;
    let w_blank = (base | m.oe) & !m.latch;
    let w_latched = w_blank | m.latch;
    let w_addressed = w_latched | addr_word(m, row_index);
    let w_lit = w_addressed & !m.oe;
    seq![
        SignalOp::Write(w_blank),
        SignalOp::DelayUs(1),
        SignalOp::Write(w_latched),
        SignalOp::Write(w_addressed),
        SignalOp::Write(w_lit),
    ]
}

/// One full row under threshold modulation.
pub open spec fn pwm_row_ops(m: PinMasks, row: Seq<Cell>, row_index: usize, threshold: u8) -> Seq<
    SignalOp,
> {
    pwm_shift_ops(m, row, threshold) + pwm_row_tail(m, row, row_index, threshold)
}

/// The first `r` rows of a threshold-modulation frame, in buffer order.
pub open spec fn pwm_rows_ops(m: PinMasks, fb: Seq<Cell>, cols: int, threshold: u8, r: int) -> Seq<
    SignalOp,
>
    decreases r,
{
    if r <= 0 {
        Seq::empty()
    } else {
        pwm_rows_ops(m, fb, cols, threshold, r - 1) + pwm_row_ops(
            m,
            fb_row(fb, cols, r - 1),
            (r - 1) as usize,
            threshold,
        )
    }
}

/// One full-frame scan under threshold modulation.
pub open spec fn pwm_frame_ops(m: PinMasks, fb: Seq<Cell>, rows: int, cols: int, threshold: u8) -> Seq<
    SignalOp,
> {
    pwm_rows_ops(m, fb, cols, threshold, rows)
}

/// The threshold used by iteration `i` of a threshold-modulation cycle,
/// saturating at full duty.
pub open spec fn pwm_threshold(step: u8, i: int) -> u8 {
    let t = (i + 1) * (step as int);
    if t > 255 {
        255u8
    } else {
        t as u8
    }
}

/// The first `i` frames of a threshold-modulation cycle: the whole frame is
/// re-rendered once per threshold level, thresholds increasing.
pub open spec fn pwm_cycle_ops(
    m: PinMasks,
    fb: Seq<Cell>,
    rows: int,
    cols: int,
    step: u8,
    i: int,
) -> Seq<SignalOp>
    decreases i,
{
    if i <= 0 {
        Seq::empty()
    } else {
        pwm_cycle_ops(m, fb, rows, cols, step, i - 1) + pwm_frame_ops(
            m,
            fb,
            rows,
            cols,
            pwm_threshold(step, i - 1),
        )
    }
}

/// The word on the port while row `r`'s columns are shifted, beyond the
/// color and clock bits: output stays disabled ahead of the very first
/// commit, and afterwards the address of the still-displayed previous row.
pub open spec fn bcm_prev_word(m: PinMasks, r: int) -> u16 {
    if r <= 0 {
        m.oe
    } else {
        addr_word(m, (r - 1) as usize)
    }
}

/// Column shifting under binary-code modulation: per column the color word
/// rides on the carried word and the clock is pulsed high then low.
pub open spec fn bcm_shift_ops(m: PinMasks, row: Seq<Cell>, mask: u8, prev: u16) -> Seq<SignalOp> {
    Seq::new(
        2 * row.len(),
        |k: int|
            {
                let w = prev | bcm_color_word(m, row[k / 2], mask);
                if k % 2 == 0 {
                    SignalOp::Write(w | m.clock)
                } else {
                    SignalOp::Write(w)
                }
            },
    )
}

/// Port word that blanks the output and drops the latch after shifting.
pub open spec fn bcm_blank_word(m: PinMasks, row: Seq<Cell>, mask: u8, prev: u16) -> u16
    recommends
        row.len() > 0,
{
    ((prev | bcm_color_word(m, row.last(), mask)) | m.oe) & !m.latch
}

/// Port word that commits the row and drives the new row address in one
/// write, output still blanked.
pub open spec fn bcm_addressed_word(
    m: PinMasks,
    row: Seq<Cell>,
    mask: u8,
    row_index: usize,
    prev: u16,
) -> u16 {
    ((bcm_blank_word(m, row, mask, prev) | m.latch) & !addr_mask(m)) | addr_word(m, row_index)
}

/// Port word that re-enables the output for the committed row.
pub open spec fn bcm_lit_word(m: PinMasks, row: Seq<Cell>, mask: u8, row_index: usize, prev: u16) -> u16 {
    bcm_addressed_word(m, row, mask, row_index, prev) & !m.oe
}

/// Row commit under binary-code modulation: blank and unlatch, commit with
/// the new row address, settle, then re-enable the output.
pub open spec fn bcm_row_tail(m: PinMasks, row: Seq<Cell>, mask: u8, row_index: usize, prev: u16) -> Seq<
    SignalOp,
> {
    seq![
        SignalOp::Write(bcm_blank_word(m, row, mask, prev)),
        SignalOp::Write(bcm_addressed_word(m, row, mask, row_index, prev)),
        SignalOp::DelayUs(1),
        SignalOp::Write(bcm_lit_word(m, row, mask, row_index, prev)),
    ]
}

/// One full row under binary-code modulation.
pub open spec fn bcm_row_ops(m: PinMasks, row: Seq<Cell>, mask: u8, row_index: usize, prev: u16) -> Seq<
    SignalOp,
> {
    bcm_shift_ops(m, row, mask, prev) + bcm_row_tail(m, row, mask, row_index, prev)
}

/// The first `r` rows of a binary-code-modulation plane scan.
pub open spec fn bcm_rows_ops(m: PinMasks, fb: Seq<Cell>, cols: int, mask: u8, r: int) -> Seq<
    SignalOp,
>
    decreases r,
{
    if r <= 0 {
        Seq::empty()
    } else {
        bcm_rows_ops(m, fb, cols, mask, r - 1) + bcm_row_ops(
            m,
            fb_row(fb, cols, r - 1),
            mask,
            (r - 1) as usize,
            bcm_prev_word(m, r - 1),
        )
    }
}

/// Settling delay after the last row of a plane, preventing that row from
/// showing brighter than the others.
pub open spec fn bcm_tail_delay(cols: int) -> u32 {
    (5 * cols / 64) as u32
}

/// One full bit-plane scan under binary-code modulation: every row once,
/// then the last-row settling delay and a final blanking write.
pub open spec fn bcm_frame_ops(m: PinMasks, fb: Seq<Cell>, rows: int, cols: int, mask: u8) -> Seq<
    SignalOp,
>
    recommends
        rows > 0,
{
    bcm_rows_ops(m, fb, cols, mask, rows) + seq![
        SignalOp::DelayUs(bcm_tail_delay(cols)),
        SignalOp::Write(
            bcm_lit_word(
                m,
                fb_row(fb, cols, rows - 1),
                mask,
                (rows - 1) as usize,
                bcm_prev_word(m, rows - 1),
            ) | m.oe,
        ),
    ]
}

/// The duty-value bit scanned by plane `j` of a binary-code-modulation
/// cycle: the used planes are the top `bits` bit positions, most
/// significant first.
pub open spec fn bcm_plane_mask(bits: u8, j: int) -> u8
    recommends
        1 <= bits <= 8,
        0 <= j < bits,
{
    1u8 << ((7 - j) as u8)
}

/// Dwell time after plane `j`: doubles with each step of significance, so
/// plane bit `p` is shown for `base << (p - (8 - bits))` microseconds.
pub open spec fn bcm_dwell(base: u8, bits: u8, j: int) -> u32
    recommends
        1 <= bits <= 8,
        0 <= j < bits,
{
    (base as u32) << ((bits - 1 - j) as u32)
}

/// The first `j` planes of a binary-code-modulation cycle, each plane scan
/// followed by its dwell delay.
pub open spec fn bcm_cycle_ops(
    m: PinMasks,
    fb: Seq<Cell>,
    rows: int,
    cols: int,
    bits: u8,
    base: u8,
    j: int,
) -> Seq<SignalOp>
    decreases j,
{
    if j <= 0 {
        Seq::empty()
    } else {
        bcm_cycle_ops(m, fb, rows, cols, bits, base, j - 1) + bcm_frame_ops(
            m,
            fb,
            rows,
            cols,
            bcm_plane_mask(bits, j - 1),
        ) + seq![SignalOp::DelayUs(bcm_dwell(base, bits, j - 1))]
    }
}

} // verus!
