//! The rendering engine: owns the framebuffer and computes output passes.
//!
//! Drawing calls mutate the framebuffer through the coordinate mapper and
//! the gamma table. Output passes read the framebuffer and produce the
//! exact HUB75 signal sequence for one modulation cycle, either as
//! repeated-threshold modulation or as binary-code modulation.
use crate::framebuffer::{blank_fb, filled_cell, write_half, Cell, Color};
use crate::gamma::{gamma_correct, spec_gamma};
use crate::mapping::{
    buffer_rows, config_valid, lemma_map_pixel_in_range, logical_height, logical_width, map_coords,
    map_pixel, PanelConfig,
};
use crate::pins::{compute_masks, masks_of, pins_valid, PinMasks, Pins};
use crate::protocol::{
    addr_mask_exec, addr_word_exec, bcm_addressed_word, bcm_blank_word, bcm_color_word,
    bcm_color_word_exec, bcm_cycle_ops, bcm_dwell, bcm_frame_ops, bcm_lit_word, bcm_plane_mask,
    bcm_prev_word, bcm_row_ops, bcm_rows_ops, bcm_shift_ops, bcm_tail_delay, fb_row,
    pwm_color_word, pwm_color_word_exec, pwm_cycle_ops, pwm_frame_ops, pwm_row_ops, pwm_rows_ops,
    pwm_shift_ops, pwm_threshold, SignalOp,
};
use vstd::prelude::*;

verus! {

/// Rejected engine configuration.
#[derive(PartialEq, Eq, Structural, Clone, Copy, Debug)]
pub enum ConfigError {
    /// The modulation resolution must use between one and eight bits.
    InvalidBrightnessBits,
}

/// The threshold spacing derived from the modulation resolution.
pub open spec fn step_of(bits: u8) -> u8
    recommends
        1 <= bits <= 8,
{
    1u8 << ((8 - bits) as u8)
}

/// The number of threshold levels derived from the modulation resolution.
pub open spec fn count_of(bits: u8) -> u8
    recommends
        1 <= bits <= 8,
{
    ((1u16 << (bits as u16)) - 1) as u8
}

/// The derived brightness constants, case by case.
pub proof fn lemma_brightness_constants(bits: u8)
    requires
        1 <= bits <= 8,
    ensures
        1 <= step_of(bits) <= 128,
        1 <= count_of(bits) <= 255,
        (count_of(bits) as int) * (step_of(bits) as int) + step_of(bits) == 256,
{
    assert(1u8 << 0 == 1 && 1u8 << 1 == 2 && 1u8 << 2 == 4 && 1u8 << 3 == 8 && 1u8 << 4 == 16
        && 1u8 << 5 == 32 && 1u8 << 6 == 64 && 1u8 << 7 == 128) by (bit_vector);
    assert(1u16 << 1 == 2 && 1u16 << 2 == 4 && 1u16 << 3 == 8 && 1u16 << 4 == 16 && 1u16 << 5
        == 32 && 1u16 << 6 == 64 && 1u16 << 7 == 128 && 1u16 << 8 == 256) by (bit_vector);
    if bits == 1 {
        assert(step_of(1) == 128 && count_of(1) == 1);
    } else if bits == 2 {
        assert(step_of(2) == 64 && count_of(2) == 3);
    } else if bits == 3 {
        assert(step_of(3) == 32 && count_of(3) == 7);
    } else if bits == 4 {
        assert(step_of(4) == 16 && count_of(4) == 15);
    } else if bits == 5 {
        assert(step_of(5) == 8 && count_of(5) == 31);
    } else if bits == 6 {
        assert(step_of(6) == 4 && count_of(6) == 63);
    } else if bits == 7 {
        assert(step_of(7) == 2 && count_of(7) == 127);
    } else {
        assert(step_of(8) == 1 && count_of(8) == 255);
    }
}

/// Whether a logical coordinate lies on the configured panel.
pub open spec fn pixel_in_bounds(cfg: PanelConfig, x: i32, y: i32) -> bool {
    &&& 0 <= x
    &&& (x as int) < logical_width(cfg)
    &&& 0 <= y
    &&& (y as int) < logical_height(cfg)
}

/// Flat framebuffer index of the cell a logical coordinate maps to.
pub open spec fn pixel_index(cfg: PanelConfig, x: usize, y: usize) -> int {
    map_pixel(cfg, x, y).0 * cfg.row_length + map_pixel(cfg, x, y).1
}

/// The framebuffer after one pixel write: the gamma-corrected color lands
/// in the mapped cell's mapped half; an off-panel coordinate changes
/// nothing.
pub open spec fn write_pixel_spec(
    cfg: PanelConfig,
    fb: Seq<Cell>,
    x: i32,
    y: i32,
    color: Color,
) -> Seq<Cell> {
    if !pixel_in_bounds(cfg, x, y) {
        fb
    } else {
        let idx = pixel_index(cfg, x as usize, y as usize);
        fb.update(idx, write_half(fb[idx], map_pixel(cfg, x as usize, y as usize).2, color))
    }
}

/// The framebuffer after a batch of pixel writes, applied in order.
pub open spec fn write_many_spec(
    cfg: PanelConfig,
    fb: Seq<Cell>,
    pixels: Seq<(i32, i32, Color)>,
) -> Seq<Cell>
    decreases pixels.len(),
{
    if pixels.len() == 0 {
        fb
    } else {
        write_pixel_spec(
            cfg,
            write_many_spec(cfg, fb, pixels.drop_last()),
            pixels.last().0,
            pixels.last().1,
            pixels.last().2,
        )
    }
}

/// What one pixel write does to the framebuffer model: off-panel writes
/// change nothing; an on-panel write stores the gamma-corrected triple in
/// the mapped half of the mapped cell and leaves every other cell, and the
/// other half of that cell, untouched.
pub proof fn lemma_write_pixel_effect(cfg: PanelConfig, fb: Seq<Cell>, x: i32, y: i32, color: Color)
    requires
        config_valid(cfg),
        fb.len() == buffer_rows(cfg) * cfg.row_length,
    ensures
        !pixel_in_bounds(cfg, x, y) ==> write_pixel_spec(cfg, fb, x, y, color) == fb,
        pixel_in_bounds(cfg, x, y) ==> ({
            let idx = pixel_index(cfg, x as usize, y as usize);
            let top = map_pixel(cfg, x as usize, y as usize).2;
            let fb2 = write_pixel_spec(cfg, fb, x, y, color);
            &&& 0 <= idx < fb.len()
            &&& fb2.len() == fb.len()
            &&& fb2[idx] == write_half(fb[idx], top, color)
            &&& (top ==> fb2[idx].r1 == spec_gamma(color.r) && fb2[idx].g1 == spec_gamma(color.g)
                && fb2[idx].b1 == spec_gamma(color.b) && fb2[idx].r2 == fb[idx].r2
                && fb2[idx].g2 == fb[idx].g2 && fb2[idx].b2 == fb[idx].b2)
            &&& (!top ==> fb2[idx].r2 == spec_gamma(color.r) && fb2[idx].g2 == spec_gamma(color.g)
                && fb2[idx].b2 == spec_gamma(color.b) && fb2[idx].r1 == fb[idx].r1
                && fb2[idx].g1 == fb[idx].g1 && fb2[idx].b1 == fb[idx].b1)
            &&& forall|j: int| 0 <= j < fb.len() && j != idx ==> fb2[j] == fb[j]
        }),
{
    if pixel_in_bounds(cfg, x, y) {
        let xu = x as usize;
        let yu = y as usize;
        lemma_map_pixel_in_range(cfg, xu, yu);
        let row = map_pixel(cfg, xu, yu).0;
        let col = map_pixel(cfg, xu, yu).1;
        assert(row * cfg.row_length + col < buffer_rows(cfg) * cfg.row_length) by (nonlinear_arith)
            requires
                0 <= row,
                row < buffer_rows(cfg),
                0 <= col < cfg.row_length,
        ;
    }
}

/// Clearing an already-cleared framebuffer changes nothing: one fast
/// blanking pass and two in a row leave identical contents.
pub proof fn lemma_clear_display_idempotent(n: nat)
    ensures
        blank_fb(n).len() == n,
        blank_fb(blank_fb(n).len()) == blank_fb(n),
{
}

/// The rendering engine for one panel chain.
pub struct Hub75 {
    data: Vec<Cell>,
    masks: PinMasks,
    config: PanelConfig,
    brightness_step: u8,
    brightness_count: u8,
    brightness_bits: u8,
}

impl Hub75 {
    /// The framebuffer contents, row-major.
    pub closed spec fn fb(&self) -> Seq<Cell> {
        self.data@
    }

    /// The panel geometry the engine was built with.
    pub closed spec fn cfg(&self) -> PanelConfig {
        self.config
    }

    /// The per-signal bit masks the engine drives.
    pub closed spec fn pin_masks(&self) -> PinMasks {
        self.masks
    }

    /// The configured modulation resolution.
    pub closed spec fn bits(&self) -> u8 {
        self.brightness_bits
    }

    /// The engine's invariant: valid geometry, a modulation resolution of
    /// one to eight bits with its derived constants, and a framebuffer of
    /// exactly the configured dimensions.
    pub closed spec fn wf(&self) -> bool {
        &&& config_valid(self.config)
        &&& 1 <= self.brightness_bits <= 8
        &&& self.brightness_step == step_of(self.brightness_bits)
        &&& self.brightness_count == count_of(self.brightness_bits)
        &&& self.data@.len() == buffer_rows(self.config) * self.config.row_length
    }

    /// Build an engine for the given modulation resolution, signal bit
    /// positions and panel geometry. The framebuffer starts dark.
    /// A modulation resolution outside one to eight bits is rejected
    /// before any output can be produced.
    pub fn new(brightness_bits: u8, pins: &Pins, cfg: PanelConfig) -> (r: Result<Hub75, ConfigError>)
        requires
            pins_valid(*pins),
            config_valid(cfg),
        ensures
            r is Ok <==> 1 <= brightness_bits <= 8,
            match r {
                Ok(h) => {
                    &&& h.wf()
                    &&& h.cfg() == cfg
                    &&& h.pin_masks() == masks_of(*pins)
                    &&& h.bits() == brightness_bits
                    &&& h.fb() == blank_fb((buffer_rows(cfg) * cfg.row_length) as nat)
                },
                Err(e) => e == ConfigError::InvalidBrightnessBits,
            },
    {
        if brightness_bits == 0 || brightness_bits > 8 {
            return Err(ConfigError::InvalidBrightnessBits);
        }
        proof {
            assert(1u16 << (brightness_bits as u16) >= 1 && 1u16 << (brightness_bits as u16)
                <= 256) by (bit_vector)
                requires
                    brightness_bits <= 8,
            ;
        }
        let brightness_step: u8 = 1u8 << (8 - brightness_bits);
        let brightness_count: u8 = ((1u16 << (brightness_bits as u16)) - 1) as u8;
        let rows: usize = if cfg.multiplexed {
            cfg.scan_rows / 2
        } else {
            cfg.scan_rows
        };
        proof {
            assert(rows * cfg.row_length <= 32 * 4096) by (nonlinear_arith)
                requires
                    rows <= 32,
                    cfg.row_length <= 4096,
            ;
        }
        let total: usize = rows * cfg.row_length;
        let mut data: Vec<Cell> = Vec::new();
        let mut i: usize = 0;
        while i < total
            invariant
                i <= total,
                data@.len() == i,
                forall|j: int| 0 <= j < i ==> data@[j] == crate::framebuffer::zero_cell(),
            decreases total - i,
        {
            data.push(Cell { r1: 0, g1: 0, b1: 0, r2: 0, g2: 0, b2: 0 });
            i += 1;
        }
        assert(data@ =~= blank_fb((buffer_rows(cfg) * cfg.row_length) as nat));
        Ok(
            Hub75 {
                data,
                masks: compute_masks(pins),
                config: cfg,
                brightness_step,
                brightness_count,
                brightness_bits,
            },
        )
    }

    /// Blank the framebuffer: zero every duty value directly, bypassing
    /// the gamma lookup.
    pub fn clear_display(&mut self)
        requires
            old(self).wf(),
        ensures
            final(self).wf(),
            final(self).cfg() == old(self).cfg(),
            final(self).pin_masks() == old(self).pin_masks(),
            final(self).bits() == old(self).bits(),
            final(self).fb() == blank_fb(old(self).fb().len()),
    {
        let n: usize = self.data.len();
        let mut i: usize = 0;
        while i < n
            invariant
                i <= n,
                self.data@.len() == n,
                self.masks == old(self).masks,
                self.config == old(self).config,
                self.brightness_step == old(self).brightness_step,
                self.brightness_count == old(self).brightness_count,
                self.brightness_bits == old(self).brightness_bits,
                forall|j: int| 0 <= j < i ==> self.data@[j] == crate::framebuffer::zero_cell(),
            decreases n - i,
        {
            self.data[i] = Cell { r1: 0, g1: 0, b1: 0, r2: 0, g2: 0, b2: 0 };
            i += 1;
        }
        assert(self.data@ =~= blank_fb(old(self).fb().len()));
    }

    /// Fill both halves of every cell with one gamma-corrected color.
    pub fn clear(&mut self, color: Color)
        requires
            old(self).wf(),
        ensures
            final(self).wf(),
            final(self).cfg() == old(self).cfg(),
            final(self).pin_masks() == old(self).pin_masks(),
            final(self).bits() == old(self).bits(),
            final(self).fb() == Seq::new(old(self).fb().len(), |i: int| filled_cell(color)),
    {
        let duty_r: u8 = gamma_correct(color.r);
        let duty_g: u8 = gamma_correct(color.g);
        let duty_b: u8 = gamma_correct(color.b);
        let fill = Cell { r1: duty_r, g1: duty_g, b1: duty_b, r2: duty_r, g2: duty_g, b2: duty_b };
        let n: usize = self.data.len();
        let mut i: usize = 0;
        while i < n
            invariant
                i <= n,
                self.data@.len() == n,
                self.masks == old(self).masks,
                self.config == old(self).config,
                self.brightness_step == old(self).brightness_step,
                self.brightness_count == old(self).brightness_count,
                self.brightness_bits == old(self).brightness_bits,
                fill == filled_cell(color),
                forall|j: int| 0 <= j < i ==> self.data@[j] == filled_cell(color),
            decreases n - i,
        {
            self.data[i] = fill;
            i += 1;
        }
        assert(self.data@ =~= Seq::new(old(self).fb().len(), |i: int| filled_cell(color)));
    }

    /// Logical panel width and height in pixels.
    pub fn size(&self) -> (s: (usize, usize))
        requires
            self.wf(),
        ensures
            s.0 as int == logical_width(self.cfg()),
            s.1 as int == logical_height(self.cfg()),
    {
        let w: usize = if self.config.multiplexed {
            self.config.row_length / 2
        } else {
            self.config.row_length
        };
        (w, 2 * self.config.scan_rows)
    }

    /// Framebuffer dimensions: buffer rows and cells per row.
    pub fn buffer_dimensions(&self) -> (d: (usize, usize))
        requires
            self.wf(),
        ensures
            d.0 as int == buffer_rows(self.cfg()),
            d.1 == self.cfg().row_length,
    {
        let rows: usize = if self.config.multiplexed {
            self.config.scan_rows / 2
        } else {
            self.config.scan_rows
        };
        (rows, self.config.row_length)
    }

    /// Read one framebuffer cell.
    pub fn cell_at(&self, row: usize, col: usize) -> (c: Cell)
        requires
            self.wf(),
            row < buffer_rows(self.cfg()),
            col < self.cfg().row_length,
        ensures
            c == self.fb()[row * self.cfg().row_length + col],
    {
        proof {
            assert(row * self.config.row_length + col < buffer_rows(self.config)
                * self.config.row_length) by (nonlinear_arith)
                requires
                    0 <= row < buffer_rows(self.config),
                    0 <= col < self.config.row_length,
            ;
        }
        self.data[row * self.config.row_length + col]
    }

    /// Write one logical pixel: gamma-correct the color, map the
    /// coordinate, store the triple in the mapped half of the mapped cell.
    /// Off-panel coordinates are silently ignored.
    pub fn write_pixel(&mut self, x: i32, y: i32, color: Color)
        requires
            old(self).wf(),
        ensures
            final(self).wf(),
            final(self).cfg() == old(self).cfg(),
            final(self).pin_masks() == old(self).pin_masks(),
            final(self).bits() == old(self).bits(),
            final(self).fb() == write_pixel_spec(old(self).cfg(), old(self).fb(), x, y, color),
    {
        if x < 0 || y < 0 {
            return ;
        }
        let xu = x as usize;
        let yu = y as usize;
        let width: usize = if self.config.multiplexed {
            self.config.row_length / 2
        } else {
            self.config.row_length
        };
        if xu >= width || yu >= 2 * self.config.scan_rows {
            return ;
        }
        let (row, col, top) = map_coords(&self.config, xu, yu);
        proof {
            assert(self.data@.len() == buffer_rows(self.config) * self.config.row_length);
            assert(row * self.config.row_length <= 31 * 4096) by (nonlinear_arith)
                requires
                    0 <= row < 32,
                    0 <= self.config.row_length <= 4096,
            ;
            assert(row * self.config.row_length + col < buffer_rows(self.config)
                * self.config.row_length) by (nonlinear_arith)
                requires
                    0 <= row < buffer_rows(self.config),
                    0 <= col < self.config.row_length,
            ;
        }
        let idx: usize = row * self.config.row_length + col;
        let cell = self.data[idx];
        let new_cell = if top {
            Cell {
                r1: gamma_correct(color.r),
                g1: gamma_correct(color.g),
                b1: gamma_correct(color.b),
                r2: cell.r2,
                g2: cell.g2,
                b2: cell.b2,
            }
        } else {
            Cell {
                r1: cell.r1,
                g1: cell.g1,
                b1: cell.b1,
                r2: gamma_correct(color.r),
                g2: gamma_correct(color.g),
                b2: gamma_correct(color.b),
            }
        };
        self.data[idx] = new_cell;
        assert(self.data@ =~= write_pixel_spec(old(self).cfg(), old(self).fb(), x, y, color));
    }

    /// Apply a batch of pixel writes in order.
    pub fn write_many(&mut self, pixels: &Vec<(i32, i32, Color)>)
        requires
            old(self).wf(),
        ensures
            final(self).wf(),
            final(self).cfg() == old(self).cfg(),
            final(self).pin_masks() == old(self).pin_masks(),
            final(self).bits() == old(self).bits(),
            final(self).fb() == write_many_spec(old(self).cfg(), old(self).fb(), pixels@),
    {
        let n: usize = pixels.len();
        let mut i: usize = 0;
        while i < n
            invariant
                i <= n,
                n == pixels@.len(),
                self.wf(),
                self.cfg() == old(self).cfg(),
                self.pin_masks() == old(self).pin_masks(),
                self.bits() == old(self).bits(),
                self.fb() == write_many_spec(old(self).cfg(), old(self).fb(), pixels@.subrange(0, i as int)),
            decreases n - i,
        {
            let (x, y, color) = pixels[i];
            self.write_pixel(x, y, color);
            proof {
                let prefix = pixels@.subrange(0, i as int);
                let prefix1 = pixels@.subrange(0, i + 1);
                assert(prefix1.drop_last() =~= prefix);
                assert(prefix1.last() == pixels@[i as int]);
            }
            i += 1;
        }
        assert(pixels@.subrange(0, n as int) =~= pixels@);
    }

    /// Emit one full-frame scan under threshold modulation: for every
    /// buffer row, shift the per-column threshold comparison bits, then
    /// blank, latch, address and re-enable per the shared row protocol.
    #[verifier::loop_isolation(false)]
    pub fn output_single(&self, threshold: u8) -> (ops: Vec<SignalOp>)
        requires
            self.wf(),
        ensures
            ops@ == pwm_frame_ops(
                self.pin_masks(),
                self.fb(),
                buffer_rows(self.cfg()),
                self.cfg().row_length as int,
                threshold,
            ),
    {
        let (rows, cols) = self.buffer_dimensions();
        let m = self.masks;
        let ghost fb = self.fb();
        let ghost colsi = cols as int;
        let mut ops: Vec<SignalOp> = Vec::new();
        let mut r: usize = 0;
        while r < rows
            invariant
                r <= rows,
                ops@ == pwm_rows_ops(m, fb, colsi, threshold, r as int),
            decreases rows - r,
        {
            proof {
                assert((r as int + 1) * colsi <= (rows as int) * colsi) by (nonlinear_arith)
                    requires
                        (r as int) < rows as int,
                        colsi >= 0,
                ;
                assert((r as int + 1) * colsi == (r as int) * colsi + colsi) by (nonlinear_arith);
                assert(0 <= (r as int) * colsi) by (nonlinear_arith)
                    requires
                        r as int >= 0,
                        colsi >= 0,
                ;
                assert(fb.len() == (rows as int) * colsi);
                assert((r as int) * colsi + colsi <= 32 * 4096) by (nonlinear_arith)
                    requires
                        0 <= r as int <= 31,
                        0 <= colsi <= 4096,
                ;
            }
            let ghost row_seq = fb_row(fb, colsi, r as int);
            proof {
                assert(row_seq.len() == colsi);
            }
            let ghost shift = pwm_shift_ops(m, row_seq, threshold);
            let base_idx: usize = r * cols;
            let mut cl: usize = 0;
            let mut last_word: u16 = m.latch;
            proof {
                assert(ops@ =~= pwm_rows_ops(m, fb, colsi, threshold, r as int) + shift.subrange(
                    0,
                    0,
                ));
            }
            while cl < cols
                invariant
                    cl <= cols,
                    ops@ == pwm_rows_ops(m, fb, colsi, threshold, r as int) + shift.subrange(
                        0,
                        2 * cl as int,
                    ),
                    cl > 0 ==> last_word == (pwm_color_word(m, row_seq[cl as int - 1], threshold)
                        | m.latch),
                decreases cols - cl,
            {
                let cell = self.data[base_idx + cl];
                proof {
                    assert(cell == row_seq[cl as int]);
                }
                let cw = pwm_color_word_exec(&m, &cell, threshold) | m.latch;
                proof {
                    assert(shift[2 * cl as int] == SignalOp::Write(cw | m.clock));
                    assert(shift[2 * cl as int + 1] == SignalOp::Write(cw));
                }
                ops.push(SignalOp::Write(cw | m.clock));
                ops.push(SignalOp::Write(cw));
                proof {
                    assert(ops@ =~= pwm_rows_ops(m, fb, colsi, threshold, r as int)
                        + shift.subrange(0, 2 * (cl + 1) as int));
                }
                last_word = cw;
                cl += 1;
            }
            proof {
                assert(shift.subrange(0, 2 * cols as int) =~= shift);
                assert(row_seq[colsi - 1] == row_seq.last());
            }
            let w_blank = (last_word | m.oe) & !m.latch;
            let w_latched = w_blank | m.latch;
            let w_addressed = w_latched | addr_word_exec(&m, r);
            let w_lit = w_addressed & !m.oe;
            ops.push(SignalOp::Write(w_blank));
            ops.push(SignalOp::DelayUs(1));
            ops.push(SignalOp::Write(w_latched));
            ops.push(SignalOp::Write(w_addressed));
            ops.push(SignalOp::Write(w_lit));
            proof {
                assert(ops@ =~= pwm_rows_ops(m, fb, colsi, threshold, r as int) + pwm_row_ops(
                    m,
                    row_seq,
                    r,
                    threshold,
                ));
                assert(ops@ =~= pwm_rows_ops(m, fb, colsi, threshold, r as int + 1));
            }
            r += 1;
        }
        ops
    }

    /// The threshold schedule of one threshold-modulation cycle.
    pub fn pwm_thresholds(&self) -> (v: Vec<u8>)
        requires
            self.wf(),
        ensures
            v@.len() == count_of(self.bits()),
            forall|i: int|
                0 <= i < v@.len() ==> v@[i] == pwm_threshold(step_of(self.bits()), i),
    {
        let mut v: Vec<u8> = Vec::new();
        let mut i: u8 = 0;
        while i < self.brightness_count
            invariant
                i <= self.brightness_count,
                self.wf(),
                v@.len() == i as int,
                forall|j: int|
                    0 <= j < v@.len() ==> v@[j] == pwm_threshold(step_of(self.bits()), j),
            decreases self.brightness_count - i,
        {
            proof {
                lemma_brightness_constants(self.brightness_bits);
                assert((i as int + 1) * (self.brightness_step as int) <= 255 * 128)
                    by (nonlinear_arith)
                    requires
                        i as int + 1 <= 255,
                        self.brightness_step as int <= 128,
                ;
            }
            let t: u16 = (i as u16 + 1) * (self.brightness_step as u16);
            let threshold: u8 = if t > 255 {
                255
            } else {
                t as u8
            };
            assert(threshold == pwm_threshold(step_of(self.bits()), i as int));
            v.push(threshold);
            i += 1;
        }
        v
    }

    /// Emit one full threshold-modulation cycle: the whole frame is
    /// re-rendered once per threshold level, thresholds increasing by one
    /// step per frame.
    pub fn output(&self) -> (ops: Vec<SignalOp>)
        requires
            self.wf(),
        ensures
            ops@ == pwm_cycle_ops(
                self.pin_masks(),
                self.fb(),
                buffer_rows(self.cfg()),
                self.cfg().row_length as int,
                step_of(self.bits()),
                count_of(self.bits()) as int,
            ),
    {
        let mut ops: Vec<SignalOp> = Vec::new();
        let mut i: u8 = 0;
        while i < self.brightness_count
            invariant
                i <= self.brightness_count,
                self.wf(),
                ops@ == pwm_cycle_ops(
                    self.pin_masks(),
                    self.fb(),
                    buffer_rows(self.cfg()),
                    self.cfg().row_length as int,
                    step_of(self.bits()),
                    i as int,
                ),
            decreases self.brightness_count - i,
        {
            proof {
                lemma_brightness_constants(self.brightness_bits);
                assert((i as int + 1) * (self.brightness_step as int) <= 255 * 128)
                    by (nonlinear_arith)
                    requires
                        i as int + 1 <= 255,
                        self.brightness_step as int <= 128,
                ;
            }
            let t: u16 = (i as u16 + 1) * (self.brightness_step as u16);
            let threshold: u8 = if t > 255 {
                255
            } else {
                t as u8
            };
            assert(threshold == pwm_threshold(step_of(self.bits()), i as int));
            let mut frame = self.output_single(threshold);
            ops.append(&mut frame);
            i += 1;
        }
        ops
    }

    /// Emit one bit-plane scan under binary-code modulation: for every
    /// buffer row, shift the selected bit of each duty value while the
    /// previous row stays displayed, then blank, commit with the new row
    /// address in one write, settle and re-enable. A final settling delay
    /// and blanking write keep the last row from showing brighter.
    #[verifier::loop_isolation(false)]
    pub fn output_single_bcm(&self, bit: u8) -> (ops: Vec<SignalOp>)
        requires
            self.wf(),
            bit < 8,
        ensures
            ops@ == bcm_frame_ops(
                self.pin_masks(),
                self.fb(),
                buffer_rows(self.cfg()),
                self.cfg().row_length as int,
                1u8 << bit,
            ),
    {
        let mask: u8 = 1u8 << bit;
        let (rows, cols) = self.buffer_dimensions();
        let m = self.masks;
        let ghost fb = self.fb();
        let ghost colsi = cols as int;
        let mut ops: Vec<SignalOp> = Vec::new();
        let mut prev: u16 = m.oe;
        let mut last_lit: u16 = 0;
        let mut r: usize = 0;
        while r < rows
            invariant
                r <= rows,
                ops@ == bcm_rows_ops(m, fb, colsi, mask, r as int),
                prev == bcm_prev_word(m, r as int),
                r > 0 ==> last_lit == bcm_lit_word(
                    m,
                    fb_row(fb, colsi, r as int - 1),
                    mask,
                    (r - 1) as usize,
                    bcm_prev_word(m, r as int - 1),
                ),
            decreases rows - r,
        {
            proof {
                assert((r as int + 1) * colsi <= (rows as int) * colsi) by (nonlinear_arith)
                    requires
                        (r as int) < rows as int,
                        colsi >= 0,
                ;
                assert((r as int + 1) * colsi == (r as int) * colsi + colsi) by (nonlinear_arith);
                assert(0 <= (r as int) * colsi) by (nonlinear_arith)
                    requires
                        r as int >= 0,
                        colsi >= 0,
                ;
                assert(fb.len() == (rows as int) * colsi);
                assert((r as int) * colsi + colsi <= 32 * 4096) by (nonlinear_arith)
                    requires
                        0 <= r as int <= 31,
                        0 <= colsi <= 4096,
                ;
            }
            let ghost row_seq = fb_row(fb, colsi, r as int);
            proof {
                assert(row_seq.len() == colsi);
            }
            let ghost shift = bcm_shift_ops(m, row_seq, mask, prev);
            let base_idx: usize = r * cols;
            let mut cl: usize = 0;
            let mut last_word: u16 = prev;
            proof {
                assert(ops@ =~= bcm_rows_ops(m, fb, colsi, mask, r as int) + shift.subrange(0, 0));
            }
            while cl < cols
                invariant
                    cl <= cols,
                    ops@ == bcm_rows_ops(m, fb, colsi, mask, r as int) + shift.subrange(
                        0,
                        2 * cl as int,
                    ),
                    cl > 0 ==> last_word == (prev | bcm_color_word(m, row_seq[cl as int - 1], mask)),
                decreases cols - cl,
            {
                let cell = self.data[base_idx + cl];
                proof {
                    assert(cell == row_seq[cl as int]);
                }
                let cw = prev | bcm_color_word_exec(&m, &cell, mask);
                proof {
                    assert(shift[2 * cl as int] == SignalOp::Write(cw | m.clock));
                    assert(shift[2 * cl as int + 1] == SignalOp::Write(cw));
                }
                ops.push(SignalOp::Write(cw | m.clock));
                ops.push(SignalOp::Write(cw));
                proof {
                    assert(ops@ =~= bcm_rows_ops(m, fb, colsi, mask, r as int) + shift.subrange(
                        0,
                        2 * (cl + 1) as int,
                    ));
                }
                last_word = cw;
                cl += 1;
            }
            proof {
                assert(shift.subrange(0, 2 * cols as int) =~= shift);
                assert(row_seq[colsi - 1] == row_seq.last());
            }
            let w_a = (last_word | m.oe) & !m.latch;
            let w_b = ((w_a | m.latch) & !addr_mask_exec(&m)) | addr_word_exec(&m, r);
            let w_c = w_b & !m.oe;
            ops.push(SignalOp::Write(w_a));
            ops.push(SignalOp::Write(w_b));
            ops.push(SignalOp::DelayUs(1));
            ops.push(SignalOp::Write(w_c));
            proof {
                assert(w_a == bcm_blank_word(m, row_seq, mask, prev));
                assert(w_b == bcm_addressed_word(m, row_seq, mask, r, prev));
                assert(w_c == bcm_lit_word(m, row_seq, mask, r, prev));
                assert(ops@ =~= bcm_rows_ops(m, fb, colsi, mask, r as int) + bcm_row_ops(
                    m,
                    row_seq,
                    mask,
                    r,
                    prev,
                ));
                assert(ops@ =~= bcm_rows_ops(m, fb, colsi, mask, r as int + 1));
            }
            prev = addr_word_exec(&m, r);
            last_lit = w_c;
            r += 1;
        }
        let tail_delay: u32 = (5 * cols / 64) as u32;
        ops.push(SignalOp::DelayUs(tail_delay));
        ops.push(SignalOp::Write(last_lit | m.oe));
        proof {
            assert(tail_delay == bcm_tail_delay(colsi));
            assert(rows >= 1);
            assert(ops@ =~= bcm_frame_ops(m, fb, rows as int, colsi, mask));
        }
        ops
    }

    /// Emit one full binary-code-modulation cycle: the used bit planes are
    /// scanned most-significant first, each followed by its dwell delay,
    /// which doubles with each step of significance.
    pub fn output_bcm(&self, delay_base_us: u8) -> (ops: Vec<SignalOp>)
        requires
            self.wf(),
        ensures
            ops@ == bcm_cycle_ops(
                self.pin_masks(),
                self.fb(),
                buffer_rows(self.cfg()),
                self.cfg().row_length as int,
                self.bits(),
                delay_base_us,
                self.bits() as int,
            ),
    {
        let mut ops: Vec<SignalOp> = Vec::new();
        let mut j: u8 = 0;
        while j < self.brightness_bits
            invariant
                j <= self.brightness_bits,
                self.wf(),
                ops@ == bcm_cycle_ops(
                    self.pin_masks(),
                    self.fb(),
                    buffer_rows(self.cfg()),
                    self.cfg().row_length as int,
                    self.bits(),
                    delay_base_us,
                    j as int,
                ),
            decreases self.brightness_bits - j,
        {
            let plane: u8 = 7 - j;
            assert(1u8 << plane == bcm_plane_mask(self.bits(), j as int));
            let mut frame = self.output_single_bcm(plane);
            ops.append(&mut frame);
            let dwell: u32 = (delay_base_us as u32) << (self.brightness_bits - 1 - j);
            assert(dwell == bcm_dwell(delay_base_us, self.bits(), j as int));
            ops.push(SignalOp::DelayUs(dwell));
            proof {
                assert(ops@ =~= bcm_cycle_ops(
                    self.pin_masks(),
                    self.fb(),
                    buffer_rows(self.cfg()),
                    self.cfg().row_length as int,
                    self.bits(),
                    delay_base_us,
                    j as int + 1,
                ));
            }
            j += 1;
        }
        ops
    }
}

/// Thresholds of a threshold-modulation cycle never saturate: level `i`
/// uses exactly `(i + 1)` threshold steps.
pub proof fn lemma_pwm_threshold_exact(bits: u8, i: int)
    requires
        1 <= bits <= 8,
        0 <= i < count_of(bits),
    ensures
        pwm_threshold(step_of(bits), i) == (i + 1) * (step_of(bits) as int),
{
    lemma_brightness_constants(bits);
    assert((i + 1) * (step_of(bits) as int) <= (count_of(bits) as int) * (step_of(bits) as int))
        by (nonlinear_arith)
        requires
            i + 1 <= count_of(bits) as int,
            step_of(bits) as int >= 0,
    ;
}

/// Each threshold level of a cycle is strictly brighter than every
/// earlier one: every threshold is used exactly once, in increasing order.
pub proof fn lemma_pwm_thresholds_increasing(bits: u8, i: int, j: int)
    requires
        1 <= bits <= 8,
        0 <= i < j < count_of(bits),
    ensures
        pwm_threshold(step_of(bits), i) < pwm_threshold(step_of(bits), j),
{
    lemma_brightness_constants(bits);
    lemma_pwm_threshold_exact(bits, i);
    lemma_pwm_threshold_exact(bits, j);
    assert((i + 1) * (step_of(bits) as int) < (j + 1) * (step_of(bits) as int))
        by (nonlinear_arith)
        requires
            i < j,
            step_of(bits) as int >= 1,
    ;
}

/// Planes of a binary-code-modulation cycle descend in significance: each
/// scanned plane selects the bit just above the next one's.
pub proof fn lemma_bcm_plane_halves(bits: u8, j: int)
    requires
        1 <= bits <= 8,
        0 <= j,
        j + 1 < bits,
    ensures
        bcm_plane_mask(bits, j) == 2 * bcm_plane_mask(bits, j + 1),
{
    let a: u8 = (7 - j) as u8;
    let b: u8 = (7 - (j + 1)) as u8;
    assert(a == b + 1 && a <= 7);
    assert(1u8 << a == 2 * (1u8 << b)) by (bit_vector)
        requires
            a == b + 1,
            a <= 7,
    ;
}

/// Dwell time of a binary-code-modulation cycle doubles with plane
/// significance: each scanned plane dwells twice as long as the next.
pub proof fn lemma_bcm_dwell_halves(base: u8, bits: u8, j: int)
    requires
        1 <= bits <= 8,
        0 <= j,
        j + 1 < bits,
    ensures
        bcm_dwell(base, bits, j) == 2 * bcm_dwell(base, bits, j + 1),
{
    let a: u32 = (bits - 1 - j) as u32;
    let b: u32 = (bits - 1 - (j + 1)) as u32;
    let v: u32 = base as u32;
    assert(a == b + 1 && a <= 7);
    assert(v << a == 2 * (v << b)) by (bit_vector)
        requires
            a == b + 1,
            a <= 7,
            v <= 255,
    ;
}

} // verus!
