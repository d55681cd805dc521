use hub75::engine::{ConfigError, Hub75};
use hub75::framebuffer::{Cell, Color};
use hub75::gamma::{gamma_correct, GAMMA8};
use hub75::mapping::{map_coords, PanelConfig};
use hub75::pins::Pins;

fn test_pins() -> Pins {
    Pins {
        r1: 0,
        g1: 1,
        b1: 2,
        r2: 3,
        g2: 4,
        b2: 5,
        a: 6,
        b: 7,
        c: 8,
        d: 9,
        f: 10,
        clock: 11,
        latch: 12,
        oe: 13,
    }
}

fn plain_cfg() -> PanelConfig {
    PanelConfig { scan_rows: 16, row_length: 64, multiplexed: false }
}

fn striped_cfg() -> PanelConfig {
    PanelConfig { scan_rows: 16, row_length: 128, multiplexed: true }
}

fn make_engine(bits: u8, cfg: PanelConfig) -> Hub75 {
    Hub75::new(bits, &test_pins(), cfg).unwrap()
}

fn zero_cell() -> Cell {
    Cell { r1: 0, g1: 0, b1: 0, r2: 0, g2: 0, b2: 0 }
}

#[test]
fn gamma_endpoints() {
    assert_eq!(gamma_correct(0), 0);
    assert_eq!(gamma_correct(255), 255);
}

#[test]
fn gamma_monotone_full_domain() {
    for v in 0..255u16 {
        assert!(gamma_correct(v as u8) <= gamma_correct(v as u8 + 1));
    }
}

#[test]
fn gamma_sample_values() {
    assert_eq!(gamma_correct(100), 19);
    assert_eq!(gamma_correct(128), 37);
    assert_eq!(gamma_correct(200), 129);
    assert_eq!(GAMMA8[64], 5);
}

#[test]
fn map_plain_row_twenty_is_bottom_of_row_four() {
    let cfg = plain_cfg();
    let (row, col, top) = map_coords(&cfg, 3, 20);
    assert_eq!(row, 4);
    assert_eq!(col, 3);
    assert!(!top);
    let (row2, _, top2) = map_coords(&cfg, 0, 5);
    assert_eq!(row2, 5);
    assert!(top2);
}

#[test]
fn map_striped_interleaves_stripe_columns() {
    let cfg = striped_cfg();
    // x = 40 sits in the second stripe; y = 5 is in the top half.
    let (row, col, top) = map_coords(&cfg, 40, 5);
    assert_eq!(col, 40 + 32 + 32);
    assert_eq!(row, 5);
    assert!(top);
    // x = 50, y = 20: second stripe, top stripe block, bottom half.
    let (row2, col2, top2) = map_coords(&cfg, 50, 20);
    assert_eq!(col2, 50 + 32 + 32);
    assert_eq!(row2, 4);
    assert!(!top2);
    // x = 0, y = 8: first stripe, bottom stripe block, top half.
    let (row3, col3, top3) = map_coords(&cfg, 0, 8);
    assert_eq!(col3, 0);
    assert_eq!(row3, 0);
    assert!(top3);
}

#[test]
fn write_pixel_reads_back_gamma_corrected() {
    let mut h = make_engine(3, plain_cfg());
    h.write_pixel(3, 20, Color { r: 100, g: 128, b: 200 });
    let cell = h.cell_at(4, 3);
    assert_eq!(cell.r2, 19);
    assert_eq!(cell.g2, 37);
    assert_eq!(cell.b2, 129);
    // The top half of the same cell stays dark.
    assert_eq!(cell.r1, 0);
    assert_eq!(cell.g1, 0);
    assert_eq!(cell.b1, 0);
    h.write_pixel(3, 4, Color { r: 255, g: 0, b: 255 });
    let cell2 = h.cell_at(4, 3);
    assert_eq!(cell2.r1, 255);
    assert_eq!(cell2.g1, 0);
    assert_eq!(cell2.b1, 255);
    // The earlier bottom-half write is still in place.
    assert_eq!(cell2.r2, 19);
}

#[test]
fn write_pixel_striped_reads_back() {
    let mut h = make_engine(4, striped_cfg());
    h.write_pixel(40, 5, Color { r: 200, g: 200, b: 200 });
    let cell = h.cell_at(5, 104);
    assert_eq!(cell.r1, 129);
    assert_eq!(cell.g1, 129);
    assert_eq!(cell.b1, 129);
    assert_eq!(cell.r2, 0);
}

#[test]
fn write_pixel_out_of_bounds_changes_nothing() {
    let mut h = make_engine(3, plain_cfg());
    h.write_pixel(-1, 0, Color { r: 255, g: 255, b: 255 });
    h.write_pixel(0, -1, Color { r: 255, g: 255, b: 255 });
    h.write_pixel(64, 0, Color { r: 255, g: 255, b: 255 });
    h.write_pixel(0, 32, Color { r: 255, g: 255, b: 255 });
    let (rows, cols) = h.buffer_dimensions();
    for r in 0..rows {
        for c in 0..cols {
            assert_eq!(h.cell_at(r, c), zero_cell());
        }
    }
}

#[test]
fn write_many_applies_in_order() {
    let mut h = make_engine(3, plain_cfg());
    let batch: Vec<(i32, i32, Color)> = vec![
        (0, 0, Color { r: 100, g: 100, b: 100 }),
        (0, 0, Color { r: 200, g: 200, b: 200 }),
        (1, 16, Color { r: 255, g: 255, b: 255 }),
        (-5, 70, Color { r: 255, g: 255, b: 255 }),
    ];
    h.write_many(&batch);
    // The second write to (0, 0) wins.
    let cell = h.cell_at(0, 0);
    assert_eq!(cell.r1, 129);
    let cell2 = h.cell_at(0, 1);
    assert_eq!(cell2.r2, 255);
}

#[test]
fn clear_fills_both_halves_gamma_corrected() {
    let mut h = make_engine(3, plain_cfg());
    h.clear(Color { r: 100, g: 128, b: 200 });
    let (rows, cols) = h.buffer_dimensions();
    for r in 0..rows {
        for c in 0..cols {
            let cell = h.cell_at(r, c);
            assert_eq!((cell.r1, cell.g1, cell.b1), (19, 37, 129));
            assert_eq!((cell.r2, cell.g2, cell.b2), (19, 37, 129));
        }
    }
}

#[test]
fn clear_display_zeroes_every_duty_value() {
    let mut h = make_engine(3, plain_cfg());
    h.clear(Color { r: 255, g: 255, b: 255 });
    h.clear_display();
    let (rows, cols) = h.buffer_dimensions();
    for r in 0..rows {
        for c in 0..cols {
            assert_eq!(h.cell_at(r, c), zero_cell());
        }
    }
}

#[test]
fn clear_display_twice_equals_once() {
    let mut h = make_engine(3, plain_cfg());
    h.write_pixel(7, 7, Color { r: 200, g: 100, b: 50 });
    h.clear_display();
    let (rows, cols) = h.buffer_dimensions();
    let mut snapshot: Vec<Cell> = Vec::new();
    for r in 0..rows {
        for c in 0..cols {
            snapshot.push(h.cell_at(r, c));
        }
    }
    h.clear_display();
    let mut i = 0;
    for r in 0..rows {
        for c in 0..cols {
            assert_eq!(h.cell_at(r, c), snapshot[i]);
            i += 1;
        }
    }
}

#[test]
fn construction_rejects_zero_and_nine_bits() {
    let pins = test_pins();
    let cfg = plain_cfg();
    assert_eq!(Hub75::new(0, &pins, cfg).err(), Some(ConfigError::InvalidBrightnessBits));
    assert_eq!(Hub75::new(9, &pins, cfg).err(), Some(ConfigError::InvalidBrightnessBits));
    for bits in 1..=8u8 {
        assert!(Hub75::new(bits, &pins, cfg).is_ok());
    }
}

#[test]
fn size_reports_logical_panel() {
    let h = make_engine(3, plain_cfg());
    assert_eq!(h.size(), (64, 32));
    let hs = make_engine(3, striped_cfg());
    assert_eq!(hs.size(), (64, 32));
    let h32 = make_engine(
        3,
        PanelConfig { scan_rows: 32, row_length: 64, multiplexed: false },
    );
    assert_eq!(h32.size(), (64, 64));
}

#[test]
fn buffer_dimensions_follow_multiplexing() {
    let h = make_engine(3, plain_cfg());
    assert_eq!(h.buffer_dimensions(), (16, 64));
    let hs = make_engine(3, striped_cfg());
    assert_eq!(hs.buffer_dimensions(), (8, 128));
}
