use hub75::engine::Hub75;
use hub75::framebuffer::Color;
use hub75::mapping::PanelConfig;
use hub75::pins::Pins;
use hub75::protocol::SignalOp;

// Masks for these positions: r1=1, g1=2, b1=4, r2=8, g2=16, b2=32,
// a=64, b=128, c=256, d=512, f=1024, clock=2048, latch=4096, oe=8192.
fn output_pins() -> Pins {
    Pins {
        r1: 0,
        g1: 1,
        b1: 2,
        r2: 3,
        g2: 4,
        b2: 5,
        a: 6,
        b: 7,
        c: 8,
        d: 9,
        f: 10,
        clock: 11,
        latch: 12,
        oe: 13,
    }
}

const CLOCK: u16 = 2048;
const LATCH: u16 = 4096;
const OE: u16 = 8192;

fn single_column_engine(bits: u8) -> Hub75 {
    let cfg = PanelConfig { scan_rows: 16, row_length: 1, multiplexed: false };
    Hub75::new(bits, &output_pins(), cfg).unwrap()
}

fn addr_bits(row: u16) -> u16 {
    // Row-address lines a..f carry the row index, least significant on a.
    (row & 31) << 6
}

fn expected_pwm_row(color_word: u16, row: u16) -> Vec<SignalOp> {
    let cw = color_word | LATCH;
    vec![
        SignalOp::Write(cw | CLOCK),
        SignalOp::Write(cw),
        SignalOp::Write((cw | OE) & !LATCH),
        SignalOp::DelayUs(1),
        SignalOp::Write((cw | OE) & !LATCH | LATCH),
        SignalOp::Write((cw | OE) & !LATCH | LATCH | addr_bits(row)),
        SignalOp::Write(((cw | OE) & !LATCH | LATCH | addr_bits(row)) & !OE),
    ]
}

#[test]
fn pwm_frame_on_dark_buffer() {
    let h = single_column_engine(3);
    let ops = h.output_single(32);
    let mut expected: Vec<SignalOp> = Vec::new();
    for row in 0..16u16 {
        expected.extend(expected_pwm_row(0, row));
    }
    assert_eq!(ops, expected);
}

#[test]
fn pwm_frame_color_bits_follow_threshold() {
    let mut h = single_column_engine(3);
    // Red 128 gamma-corrects to duty 37 in both halves of cell (0, 0).
    h.clear(Color { r: 128, g: 0, b: 0 });
    let ops_low = h.output_single(32);
    // Duty 37 >= 32: both red data lines high while shifting.
    assert_eq!(ops_low[0], SignalOp::Write((1 | 8 | LATCH) | CLOCK));
    assert_eq!(ops_low[1], SignalOp::Write(1 | 8 | LATCH));
    let ops_high = h.output_single(64);
    // Duty 37 < 64: no color bit survives the higher threshold.
    assert_eq!(ops_high[0], SignalOp::Write(LATCH | CLOCK));
    assert_eq!(ops_high[1], SignalOp::Write(LATCH));
}

#[test]
fn pwm_thresholds_for_three_bits() {
    let h = single_column_engine(3);
    assert_eq!(h.pwm_thresholds(), vec![32, 64, 96, 128, 160, 192, 224]);
}

#[test]
fn pwm_cycle_single_level() {
    let h = single_column_engine(1);
    // One brightness bit: a single frame at threshold 128.
    assert_eq!(h.output(), h.output_single(128));
}

#[test]
fn pwm_cycle_repeats_frame_per_threshold() {
    let h = single_column_engine(3);
    let ops = h.output();
    let frame_len = 16 * 7;
    assert_eq!(ops.len(), 7 * frame_len);
    for (i, threshold) in [32u8, 64, 96, 128, 160, 192, 224].iter().enumerate() {
        let frame = h.output_single(*threshold);
        assert_eq!(&ops[i * frame_len..(i + 1) * frame_len], &frame[..]);
    }
}

#[test]
fn bcm_frame_on_dark_buffer() {
    let h = single_column_engine(4);
    let ops = h.output_single_bcm(7);
    let mut expected: Vec<SignalOp> = Vec::new();
    for row in 0..16u16 {
        let prev = if row == 0 { OE } else { addr_bits(row - 1) };
        expected.push(SignalOp::Write(prev | CLOCK));
        expected.push(SignalOp::Write(prev));
        expected.push(SignalOp::Write(prev | OE));
        expected.push(SignalOp::Write(LATCH | OE | addr_bits(row)));
        expected.push(SignalOp::DelayUs(1));
        expected.push(SignalOp::Write(LATCH | addr_bits(row)));
    }
    // Last-row settling delay (5 * 1 / 64 rounds to zero) and blanking.
    expected.push(SignalOp::DelayUs(0));
    expected.push(SignalOp::Write(LATCH | addr_bits(15) | OE));
    assert_eq!(ops, expected);
}

#[test]
fn bcm_plane_selects_duty_bit() {
    let mut h = single_column_engine(4);
    // Gray 200 gamma-corrects to duty 129: bit 7 set, bits 6..4 clear.
    h.write_pixel(0, 0, Color { r: 200, g: 200, b: 200 });
    let plane7 = h.output_single_bcm(7);
    assert_eq!(plane7[0], SignalOp::Write(OE | 1 | 2 | 4 | CLOCK));
    assert_eq!(plane7[1], SignalOp::Write(OE | 1 | 2 | 4));
    let plane6 = h.output_single_bcm(6);
    assert_eq!(plane6[0], SignalOp::Write(OE | CLOCK));
    let plane0 = h.output_single_bcm(0);
    // Duty 129 has bit 0 set as well.
    assert_eq!(plane0[0], SignalOp::Write(OE | 1 | 2 | 4 | CLOCK));
}

#[test]
fn bcm_cycle_scans_planes_most_significant_first() {
    let mut h = single_column_engine(4);
    h.write_pixel(0, 0, Color { r: 200, g: 200, b: 200 });
    let ops = h.output_bcm(3);
    let frame_len = 16 * 6 + 2;
    assert_eq!(ops.len(), 4 * (frame_len + 1));
    // First scanned plane is bit 7: duty 129 drives the top-half lines.
    assert_eq!(ops[0], SignalOp::Write(OE | 1 | 2 | 4 | CLOCK));
    // Second scanned plane is bit 6: duty 129 leaves them dark.
    assert_eq!(ops[frame_len + 1], SignalOp::Write(OE | CLOCK));
    for (i, frame) in [
        h.output_single_bcm(7),
        h.output_single_bcm(6),
        h.output_single_bcm(5),
        h.output_single_bcm(4),
    ]
    .iter()
    .enumerate()
    {
        let start = i * (frame_len + 1);
        assert_eq!(&ops[start..start + frame_len], &frame[..]);
    }
}

#[test]
fn bcm_dwell_doubles_with_significance() {
    let h = single_column_engine(4);
    let ops = h.output_bcm(3);
    let frame_len = 16 * 6 + 2;
    // Dwell after each plane, most significant plane shown longest.
    assert_eq!(ops[frame_len], SignalOp::DelayUs(24));
    assert_eq!(ops[2 * frame_len + 1], SignalOp::DelayUs(12));
    assert_eq!(ops[3 * frame_len + 2], SignalOp::DelayUs(6));
    assert_eq!(ops[4 * frame_len + 3], SignalOp::DelayUs(3));
}

#[test]
fn bcm_tail_delay_scales_with_row_length() {
    let cfg = PanelConfig { scan_rows: 16, row_length: 64, multiplexed: false };
    let h = Hub75::new(4, &output_pins(), cfg).unwrap();
    let ops = h.output_single_bcm(7);
    // 16 rows of 2 * 64 shift writes plus 4 commit ops, then the tail.
    let frame_len = 16 * (2 * 64 + 4) + 2;
    assert_eq!(ops.len(), frame_len);
    assert_eq!(ops[frame_len - 2], SignalOp::DelayUs(5 * 64 / 64));
}
