use vstd::prelude::*;

verus! {

/// Packed 5x7 glyph bitmaps for the printable ASCII range (codes 32..=126).
/// Bit `row * 5 + col` of entry `code - 32` is set where the glyph has ink;
/// row 0 is the top row, column 0 the left column.
pub const GLYPHS: [u64; 95] = [
    0x0, 0x100421084, 0x294A, 0x295F57D4A,
    0x11F4717C4, 0x632222263, 0x593511526, 0x886,
    0x208210888, 0x88842082, 0x9575480, 0x84F9080,
    0x88600000, 0xF8000, 0x18C000000, 0x2222200,
    0x3A33AE62E, 0x3884210C4, 0x7C444422E, 0x3A304111F,
    0x211F4A988, 0x3A3083C3F, 0x3A317844C, 0x8422221F,
    0x3A317462E, 0x1910F462E, 0xC6018C0, 0x886018C0,
    0x208208888, 0x1F07C00, 0x88882082, 0x10044422E,
    0x3AB5B422E, 0x463F8C62E, 0x3E317C62F, 0x3A210862E,
    0x1D318C527, 0x7C217843F, 0x4217843F, 0x7A31E862E,
    0x4631FC631, 0x38842108E, 0x19284211C, 0x452519531,
    0x7C2108421, 0x4631AD771, 0x4639ACE31, 0x3A318C62E,
    0x4217C62F, 0x59358C62E, 0x45257C62F, 0x3E107043E,
    0x10842109F, 0x3A318C631, 0x11518C631, 0x2AB5AC631,
    0x462A22A31, 0x108454631, 0x7C222221F, 0x38421084E,
    0x20820820, 0x39084210E, 0x4544, 0x7C0000000,
    0x2082, 0x7A3E83800, 0x3E319B421, 0x3A210B800,
    0x7A31CDA10, 0x383F8B800, 0x84238A4C, 0x3A1E8C7C0,
    0x46319B421, 0x388421804, 0x192843008, 0x24A32A421,
    0x388421086, 0x4635AAC00, 0x46319B400, 0x3A318B800,
    0x42F8BC00, 0x421ECD800, 0x4219B400, 0x3E0E0B800,
    0x324211C42, 0x5B318C400, 0x11518C400, 0x2AB58C400,
    0x454454400, 0x3A1E8C400, 0x7C4447C00, 0x208411088,
    0x108421084, 0x88441082, 0x8A8800,
];

/// The packed bitmap of one byte: printable ASCII codes index the table,
/// every other byte is blank.
pub open spec fn glyph_word(b: u8) -> u64 {
    if 32 <= b <= 126 {
        GLYPHS[(b - 32) as int]
    } else {
        0
    }
}

/// The packed bitmap of one byte, as `glyph_word` states.
pub fn glyph_word_exec(b: u8) -> (r: u64)
    ensures
        r == glyph_word(b),
{
    if 32 <= b && b <= 126 {
        GLYPHS[(b - 32) as usize]
    } else {
        0
    }
}

/// The ink intensity of position `(dx, dy)` inside a 10x17 glyph cell:
/// the 5x7 bitmap is doubled in both directions, with one blank row above,
/// two below, and full intensity (255) where the bitmap has ink.
pub open spec fn glyph_intensity(b: u8, dx: int, dy: int) -> u8 {
    if 0 <= dx < 10 && 1 <= dy < 15 {
        if (glyph_word(b) as int / vstd::arithmetic::power2::pow2(
            ((dy - 1) / 2 * 5 + dx / 2) as nat,
        ) as int) % 2 == 1 {
            255
        } else {
            0
        }
    } else {
        0
    }
}

/// Two raised to the power `e`.
fn pow2_u64(e: usize) -> (r: u64)
    requires
        e <= 62,
    ensures
        r as int == vstd::arithmetic::power2::pow2(e as nat),
{
    proof {
        vstd::arithmetic::power2::lemma2_to64();
        vstd::arithmetic::power2::lemma2_to64_rest();
    }
    let mut r: u64 = 1;
    let mut i: usize = 0;
    while i < e
        invariant
            0 <= i <= e <= 62,
            r as int == vstd::arithmetic::power2::pow2(i as nat),
        decreases e - i,
    {
        proof {
            vstd::arithmetic::power2::lemma2_to64();
            vstd::arithmetic::power2::lemma2_to64_rest();
            if (i as nat) < 61 {
                vstd::arithmetic::power2::lemma_pow2_strictly_increases(i as nat, 61);
            }
            assert(r as int <= vstd::arithmetic::power2::pow2(61));
            vstd::arithmetic::power2::lemma_pow2_adds(i as nat, 1);
        }
        r = r * 2;
        i = i + 1;
    }
    r
}

/// The ink intensity of one glyph-cell position, as `glyph_intensity`
/// states.
pub fn glyph_intensity_exec(b: u8, dx: usize, dy: usize) -> (r: u8)
    requires
        dx < 10,
        dy < 17,
    ensures
        r == glyph_intensity(b, dx as int, dy as int),
{
    if dy < 1 || dy >= 15 {
        return 0;
    }
    let shift = ((dy - 1) / 2) * 5 + dx / 2;
    let w = glyph_word_exec(b);
    let p = pow2_u64(shift);
    proof {
        vstd::arithmetic::power2::lemma_pow2_pos(shift as nat);
    }
    if (w / p) % 2 == 1 {
        255
    } else {
        0
    }
}

} // verus!
