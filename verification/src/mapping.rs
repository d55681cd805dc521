//! Coordinate mapping from logical pixel coordinates to framebuffer cells.
//!
//! A logical (x, y) pixel address is translated to a (buffer-row,
//! buffer-column, half-selector) triple. The plain form pairs row y with
//! row y + scan_rows through one shift-register chain each. The
//! stripe-multiplexed form additionally interleaves the columns of several
//! 32-column physical stripes into one wider buffer row, so a single set of
//! row-address lines drives all stripes at once.
use vstd::prelude::*;
use vstd::arithmetic::div_mod::lemma_fundamental_div_mod;

verus! {

/// Panel geometry fixed at engine construction.
#[derive(PartialEq, Eq, Structural, Clone, Copy, Debug)]
pub struct PanelConfig {
    /// Scan-row count: one step drives two physical rows this far apart.
    pub scan_rows: usize,
    /// Number of cells in one buffer row (shift-register chain length).
    pub row_length: usize,
    /// Whether several 32-column stripes share the row-address lines.
    pub multiplexed: bool,
}

/// Geometry the engine accepts: 1/16 or 1/32 row scan, a chain short
/// enough for the delay arithmetic, and under stripe multiplexing a chain
/// made of whole 32-column stripe pairs.
pub open spec fn config_valid(cfg: PanelConfig) -> bool {
    &&& cfg.scan_rows == 16 || cfg.scan_rows == 32
    &&& 1 <= cfg.row_length <= 4096
    &&& cfg.multiplexed ==> cfg.row_length % 64 == 0
}

/// Number of rows the framebuffer holds.
pub open spec fn buffer_rows(cfg: PanelConfig) -> int {
    if cfg.multiplexed {
        cfg.scan_rows as int / 2
    } else {
        cfg.scan_rows as int
    }
}

/// Logical panel width in pixels.
pub open spec fn logical_width(cfg: PanelConfig) -> int {
    if cfg.multiplexed {
        cfg.row_length as int / 2
    } else {
        cfg.row_length as int
    }
}

/// Logical panel height in pixels.
pub open spec fn logical_height(cfg: PanelConfig) -> int {
    2 * cfg.scan_rows as int
}

/// Plain mapping: buffer-row is y within the scan block, the column is x,
/// and the half-selector picks the top chain for the first scan block.
pub open spec fn map_plain(scan_rows: usize, x: usize, y: usize) -> (int, int, bool)
    recommends
        scan_rows > 0,
{
    (y as int % scan_rows as int, x as int, y < scan_rows)
}

/// Stripe-multiplexed mapping: columns of the two 32-column halves of each
/// stripe pair are interleaved into one buffer row, the top half of each
/// pair sitting 32 columns after its bottom half.
pub open spec fn map_striped(scan_rows: usize, x: usize, y: usize) -> (int, int, bool)
    recommends
        scan_rows > 0,
        scan_rows % 2 == 0,
{
    let half = scan_rows as int / 2;
    let stripe = x as int / 32;
    let base = x as int + 32 * stripe;
    let col = if (y as int % scan_rows as int) < half {
        base + 32
    } else {
        base
    };
    (y as int % half, col, y < scan_rows)
}

/// The mapping the configured panel uses.
pub open spec fn map_pixel(cfg: PanelConfig, x: usize, y: usize) -> (int, int, bool)
    recommends
        config_valid(cfg),
{
    if cfg.multiplexed {
        map_striped(cfg.scan_rows, x, y)
    } else {
        map_plain(cfg.scan_rows, x, y)
    }
}

/// An in-range logical coordinate maps to an in-range framebuffer cell.
pub proof fn lemma_map_pixel_in_range(cfg: PanelConfig, x: usize, y: usize)
    requires
        config_valid(cfg),
        x < logical_width(cfg),
        y < logical_height(cfg),
    ensures
        0 <= map_pixel(cfg, x, y).0 < buffer_rows(cfg),
        0 <= map_pixel(cfg, x, y).1 < cfg.row_length,
{
    if cfg.multiplexed {
        let l = cfg.row_length as int;
        let half = cfg.scan_rows as int / 2;
        let stripe = x as int / 32;
        let k = l / 64;
        lemma_fundamental_div_mod(x as int, 32);
        lemma_fundamental_div_mod(l, 64);
        assert((x as int) < 32 * k);
        assert(stripe <= k - 1) by (nonlinear_arith)
            requires
                32 * stripe <= x as int,
                (x as int) < 32 * k,
        ;
        assert(map_striped(cfg.scan_rows, x, y).1 < l) by (nonlinear_arith)
            requires
                stripe <= k - 1,
                (x as int) < 32 * k,
                l == 64 * k,
                x as int == 32 * stripe + (x as int % 32),
                0 <= x as int % 32 < 32,
                map_striped(cfg.scan_rows, x, y).1 <= x as int + 32 * stripe + 32,
        ;
    }
}

/// Map one logical coordinate to its framebuffer cell and half.
pub fn map_coords(cfg: &PanelConfig, x: usize, y: usize) -> (res: (usize, usize, bool))
    requires
        config_valid(*cfg),
        x < logical_width(*cfg),
        y < logical_height(*cfg),
    ensures
        (res.0 as int, res.1 as int, res.2) == map_pixel(*cfg, x, y),
        res.0 < buffer_rows(*cfg),
        res.1 < cfg.row_length,
{
    proof {
        lemma_map_pixel_in_range(*cfg, x, y);
    }
    if cfg.multiplexed {
        let half: usize = cfg.scan_rows / 2;
        let stripe: usize = x / 32;
        let base: usize = x + 32 * stripe;
        let col: usize = if (y % cfg.scan_rows) < half {
            base + 32
        } else {
            base
        };
        (y % half, col, y < cfg.scan_rows)
    } else {
        (y % cfg.scan_rows, x, y < cfg.scan_rows)
    }
}

} // verus!
