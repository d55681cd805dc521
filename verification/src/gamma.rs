//! Gamma correction table: maps a linear 8-bit channel intensity to a
//! perceptually corrected duty value. The table is fixed data, applied
//! exactly once per channel at framebuffer-write time.
use vstd::prelude::*;

verus! {

/// Lookup table from linear intensity to corrected duty value.
pub const GAMMA8: [u8; 256] = [
    0, 0, 0, 0, 0, 0, 0, 0, 0, 0, 0, 0, 0, 0, 0, 0, 0, 0, 0, 0, 0, 0, 0, 0, 0, 0, 0, 0, 1, 1, 1, 1,
    1, 1, 1, 1, 1, 1, 1, 1, 1, 2, 2, 2, 2, 2, 2, 2, 2, 3, 3, 3, 3, 3, 3, 3, 4, 4, 4, 4, 4, 5, 5, 5,
    5, 6, 6, 6, 6, 7, 7, 7, 7, 8, 8, 8, 9, 9, 9, 10, 10, 10, 11, 11, 11, 12, 12, 13, 13, 13, 14,
    14, 15, 15, 16, 16, 17, 17, 18, 18, 19, 19, 20, 20, 21, 21, 22, 22, 23, 24, 24, 25, 25, 26, 27,
    27, 28, 29, 29, 30, 31, 32, 32, 33, 34, 35, 35, 36, 37, 38, 39, 39, 40, 41, 42, 43, 44, 45, 46,
    47, 48, 49, 50, 50, 51, 52, 54, 55, 56, 57, 58, 59, 60, 61, 62, 63, 64, 66, 67, 68, 69, 70, 72,
    73, 74, 75, 77, 78, 79, 81, 82, 83, 85, 86, 87, 89, 90, 92, 93, 95, 96, 98, 99, 101, 102, 104,
    105, 107, 109, 110, 112, 114, 115, 117, 119, 120, 122, 124, 126, 127, 129, 131, 133, 135, 137,
    138, 140, 142, 144, 146, 148, 150, 152, 154, 156, 158, 160, 162, 164, 167, 169, 171, 173, 175,
    177, 180, 182, 184, 186, 189, 191, 193, 196, 198, 200, 203, 205, 208, 210, 213, 215, 218, 220,
    223, 225, 228, 231, 233, 236, 239, 241, 244, 247, 249, 252, 255,
];

/// The corrected duty value for a linear channel intensity.
pub open spec fn spec_gamma(v: u8) -> u8 {
    GAMMA8[v as int]
}

/// Gamma-correct one 8-bit channel value.
pub fn gamma_correct(v: u8) -> (r: u8)
    ensures
        r == spec_gamma(v),
{
    GAMMA8[v as usize]
}

/// Adjacent entries of the table never decrease.
proof fn lemma_gamma_adjacent()
    ensures
        forall|i: int| 0 <= i < 255 ==> #[trigger] GAMMA8[i] <= GAMMA8[i + 1],
{
}

/// The gamma table is monotonically non-decreasing over its full domain.
pub proof fn lemma_gamma_monotone(a: u8, b: u8)
    requires
        a <= b,
    ensures
        spec_gamma(a) <= spec_gamma(b),
    decreases b - a,
{
    lemma_gamma_adjacent();
    if a < b {
        lemma_gamma_monotone(a, (b - 1) as u8);
    }
}

/// The table fixes the extreme intensities: darkest maps to zero duty,
/// brightest to full duty.
pub proof fn lemma_gamma_endpoints()
    ensures
        spec_gamma(0) == 0,
        spec_gamma(255) == 255,
{
}

} // verus!
