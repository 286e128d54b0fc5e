//! Body colours.
use vstd::prelude::*;

verus! {

/// The colour of a hue, as red, green and blue. The hue circle has six
/// sectors; in each, one component is full, one is off, and the third rises or
/// falls.
pub open spec fn hue_color(hue: u8) -> Seq<u8> {
    let rising = ((hue * 6) % 256) as u8;
    let falling = (255 - rising) as u8;
    let sector = (hue * 6) / 256;
    if sector == 0 {
        seq![255u8, rising, 0u8]
    } else if sector == 1 {
        seq![falling, 255u8, 0u8]
    } else if sector == 2 {
        seq![0u8, 255u8, rising]
    } else if sector == 3 {
        seq![0u8, falling, 255u8]
    } else if sector == 4 {
        seq![rising, 0u8, 255u8]
    } else {
        seq![255u8, 0u8, falling]
    }
}

/// Maps a hue byte to a fully saturated, full-brightness colour.
pub fn hue_to_rgb(hue: u8) -> (rgb: [u8; 3])
    ensures
        rgb@ == hue_color(hue),
{
    let h6: u32 = hue as u32 * 6;
    let sector: u8 = (h6 / 256) as u8;
    let f: u8 = (h6 % 256) as u8;
    let inv: u8 = 255 - f;
    match sector {
        0 => [255, f, 0],
        1 => [inv, 255, 0],
        2 => [0, 255, f],
        3 => [0, inv, 255],
        4 => [f, 0, 255],
        _ => [255, 0, inv],
    }
}

/// Every hue is fully saturated (some component is off) and at full
/// brightness (some component is full).
pub proof fn law_hue_saturated_and_bright(hue: u8)
    ensures
        hue_color(hue).len() == 3,
        hue_color(hue).contains(0u8),
        hue_color(hue).contains(255u8),
{
    let c = hue_color(hue);
    let sector = (hue * 6) / 256;
    if sector == 0 {
        assert(c[0] == 255 && c[2] == 0);
    } else if sector == 1 {
        assert(c[1] == 255 && c[2] == 0);
    } else if sector == 2 {
        assert(c[1] == 255 && c[0] == 0);
    } else if sector == 3 {
        assert(c[2] == 255 && c[0] == 0);
    } else if sector == 4 {
        assert(c[2] == 255 && c[1] == 0);
    } else {
        assert(c[0] == 255 && c[1] == 0);
    }
}

/// Different hues are different colours.
pub proof fn law_hues_distinct(a: u8, b: u8)
    requires
        a != b,
    ensures
        hue_color(a) != hue_color(b),
{
    let x = hue_color(a);
    let y = hue_color(b);
    if x == y {
        assert(x[0] == y[0] && x[1] == y[1] && x[2] == y[2]);
        assert(((a * 6) % 256) % 2 == 0);
        assert(((b * 6) % 256) % 2 == 0);
    }
}

/// The three components along the hue circle, each on its own: a component is
/// full for a third of the circle around its own hue, off for the third opposite,
/// and rises and falls evenly in between. The circle is 1536 steps long; a hue is
/// six steps from the next.
pub proof fn law_hue_components(hue: u8)
    ensures
        ({
            let x = hue * 6;
            let c = hue_color(hue);
            &&& c.len() == 3
            // red is full at both ends
            &&& x < 256 || x >= 1280 ==> c[0] == 255
            &&& 256 <= x < 512 ==> c[0] == 511 - x
            &&& 512 <= x < 1024 ==> c[0] == 0
            &&& 1024 <= x < 1280 ==> c[0] == x - 1024
            // green is full a third of the way round
            &&& x < 256 ==> c[1] == x
            &&& 256 <= x < 768 ==> c[1] == 255
            &&& 768 <= x < 1024 ==> c[1] == 1023 - x
            &&& x >= 1024 ==> c[1] == 0
            // blue is full two thirds of the way round
            &&& x < 512 ==> c[2] == 0
            &&& 512 <= x < 768 ==> c[2] == x - 512
            &&& 768 <= x < 1280 ==> c[2] == 255
            &&& x >= 1280 ==> c[2] == 1535 - x
        }),
{
}

} // verus!
