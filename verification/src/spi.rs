//! The controller's SPI flash, as far as the console reads it.
//!
//! ```text
//! 0x6000  user stick calibration, 0xFF: none, use the factory values
//! 0x6020  six-axis sensor factory calibration
//! 0x603D  factory stick calibration, then the body colour
//! 0x6050  body, button and grip colours
//! 0x6080  factory sensor parameters, then the stick parameters
//! 0x6098  factory stick parameters
//! 0x8010  serial number area, 0xFF: blank
//! ```
use vstd::prelude::*;

use crate::report::{fill, put};

verus! {

/// Subcommand that reads the flash.
pub const CMD_SPI_READ: u8 = 0x10;

/// Stick parameters, served at 0x6098 and behind the sensor parameters at 0x6080.
pub const STICK_PARAMETERS: [u8; 18] = [
    0x0F, 0x30, 0x61, 0x96, 0x30, 0xF3,
    0xD4, 0x14, 0x54, 0x41, 0x15, 0x54,
    0xC7, 0x79, 0x9C, 0x33, 0x36, 0x63,
];

/// Sensor parameters at 0x6080.
pub const SENSOR_PARAMETERS: [u8; 6] = [0x50, 0xFD, 0x00, 0x00, 0xC6, 0x0F];

/// Factory calibration of the left stick at 0x603D.
pub const LEFT_CALIBRATION: [u8; 9] = [0xBA, 0xF5, 0x62, 0x6F, 0xC8, 0x77, 0xED, 0x95, 0x5B];

/// Factory calibration of the right stick, behind that of the left.
pub const RIGHT_CALIBRATION: [u8; 9] = [0x16, 0xD8, 0x7D, 0xF2, 0xB5, 0x5F, 0x86, 0x65, 0x5E];

/// Six-axis sensor calibration at 0x6020.
pub const SENSOR_CALIBRATION: [u8; 24] = [
    0xD3, 0xFF, 0xD5, 0xFF, 0x55, 0x01,
    0x00, 0x40, 0x00, 0x40, 0x00, 0x40,
    0x19, 0x00, 0xDD, 0xFF, 0xDC, 0xFF,
    0x3B, 0x34, 0x3B, 0x34, 0x3B, 0x34,
];

/// `count` bytes of erased flash.
pub open spec fn blank(count: nat) -> Seq<u8> {
    Seq::new(count, |i: int| 0xFFu8)
}

/// What the flash of a controller with body colour `color` holds at an
/// address; nothing where the console has no business reading.
pub open spec fn flash_at(address: int, color: Seq<u8>) -> Seq<u8> {
    if address == 0x6000 {
        blank(16)
    } else if address == 0x6020 {
        SENSOR_CALIBRATION@
    } else if address == 0x603D {
        LEFT_CALIBRATION@ + RIGHT_CALIBRATION@ + blank(1) + color + blank(3)
    } else if address == 0x6050 {
        color + blank(10)
    } else if address == 0x6080 {
        SENSOR_PARAMETERS@ + STICK_PARAMETERS@
    } else if address == 0x6098 {
        STICK_PARAMETERS@
    } else if address == 0x8010 {
        blank(24)
    } else {
        Seq::empty()
    }
}

/// The bytes of a flash reply behind the report header: acknowledgement, echo
/// of address and length, then the flash contents.
pub open spec fn spi_payload(lo: u8, hi: u8, len: u8, color: Seq<u8>) -> Seq<u8> {
    seq![0x90u8, CMD_SPI_READ, lo, hi, 0u8, 0u8, len] + flash_at(hi * 256 + lo, color)
}

/// Answers a flash read. `sub` is the subcommand with its arguments: address
/// low byte, address high byte, two unused bytes, length.
///
/// Positions 18 and 19 of the report are left as they are.
pub fn spi_reply(report: [u8; 50], sub: &[u8], color: &[u8; 3]) -> (r: [u8; 50])
    requires
        sub@.len() >= 6,
    ensures
        r@ == crate::report::overwritten(
            report@,
            14,
            spi_payload(sub@[1], sub@[2], sub@[5], color@).update(4, report@[18]).update(
                5,
                report@[19],
            ),
        ),
{
    let lo: u8 = sub[1];
    let hi: u8 = sub[2];
    let len: u8 = sub[5];
    let mut r = report;
    r[14] = 0x90;
    r[15] = CMD_SPI_READ;
    r[16] = lo;
    r[17] = hi;
    r[20] = len;
    match (hi, lo) {
        (0x60, 0x00) => fill(&mut r, 21, 16, 0xFF),
        (0x60, 0x50) => {
            put(&mut r, 21, color);
            fill(&mut r, 24, 10, 0xFF);
        },
        (0x60, 0x80) => {
            put(&mut r, 21, &SENSOR_PARAMETERS);
            put(&mut r, 27, &STICK_PARAMETERS);
        },
        (0x60, 0x98) => put(&mut r, 21, &STICK_PARAMETERS),
        (0x80, 0x10) => fill(&mut r, 21, 24, 0xFF),
        (0x60, 0x3D) => {
            put(&mut r, 21, &LEFT_CALIBRATION);
            put(&mut r, 30, &RIGHT_CALIBRATION);
            r[39] = 0xFF;
            put(&mut r, 40, color);
            fill(&mut r, 43, 3, 0xFF);
        },
        (0x60, 0x20) => put(&mut r, 21, &SENSOR_CALIBRATION),
        _ => {},
    }
    r
}

/// What the console reads, byte by byte: acknowledgement, the address and length
/// that it asked for, then the contents of the flash there. The body colour shows
/// in two places, and an address without contents is only echoed.
pub proof fn law_flash_contents(lo: u8, hi: u8, len: u8, color: Seq<u8>)
    requires
        color.len() == 3,
    ensures
        ({
            let p = spi_payload(lo, hi, len, color);
            &&& p.take(7) == seq![0x90u8, 0x10u8, lo, hi, 0u8, 0u8, len]
            &&& hi == 0x60 && lo == 0x00 ==> p.len() == 23 && forall|i: int|
                7 <= i < 23 ==> p[i] == 0xFF
            &&& hi == 0x60 && lo == 0x20 ==> p.skip(7) == seq![
                0xD3u8, 0xFF, 0xD5, 0xFF, 0x55, 0x01, 0x00, 0x40, 0x00, 0x40, 0x00, 0x40,
                0x19, 0x00, 0xDD, 0xFF, 0xDC, 0xFF, 0x3B, 0x34, 0x3B, 0x34, 0x3B, 0x34,
            ]
            &&& hi == 0x60 && lo == 0x3D ==> p.skip(7) == seq![
                0xBAu8, 0xF5, 0x62, 0x6F, 0xC8, 0x77, 0xED, 0x95, 0x5B,
                0x16, 0xD8, 0x7D, 0xF2, 0xB5, 0x5F, 0x86, 0x65, 0x5E,
                0xFF, color[0], color[1], color[2], 0xFF, 0xFF, 0xFF,
            ]
            &&& hi == 0x60 && lo == 0x50 ==> p.len() == 20 && p.subrange(7, 10) == color && forall|
                i: int,
            |
                10 <= i < 20 ==> p[i] == 0xFF
            &&& hi == 0x60 && lo == 0x80 ==> p.skip(7) == seq![
                0x50u8, 0xFD, 0x00, 0x00, 0xC6, 0x0F, 0x0F, 0x30, 0x61, 0x96, 0x30, 0xF3,
                0xD4, 0x14, 0x54, 0x41, 0x15, 0x54, 0xC7, 0x79, 0x9C, 0x33, 0x36, 0x63,
            ]
            &&& hi == 0x60 && lo == 0x98 ==> p.skip(7) == seq![
                0x0Fu8, 0x30, 0x61, 0x96, 0x30, 0xF3, 0xD4, 0x14, 0x54, 0x41, 0x15, 0x54,
                0xC7, 0x79, 0x9C, 0x33, 0x36, 0x63,
            ]
            &&& hi == 0x80 && lo == 0x10 ==> p.len() == 31 && forall|i: int|
                7 <= i < 31 ==> p[i] == 0xFF
            &&& !(hi == 0x60 && (lo == 0x00 || lo == 0x20 || lo == 0x3D || lo == 0x50 || lo == 0x80
                || lo == 0x98)) && !(hi == 0x80 && lo == 0x10) ==> p.len() == 7
        }),
{
    let p = spi_payload(lo, hi, len, color);
    assert(p.take(7) =~= seq![0x90u8, 0x10u8, lo, hi, 0u8, 0u8, len]);
    assert(p.skip(7) =~= flash_at(hi * 256 + lo, color));
    if hi == 0x60 && lo == 0x50 {
        assert(p.subrange(7, 10) =~= color);
    }
    if hi == 0x60 && lo == 0x3D {
        assert(p.skip(7) =~= seq![
            0xBAu8, 0xF5, 0x62, 0x6F, 0xC8, 0x77, 0xED, 0x95, 0x5B,
            0x16, 0xD8, 0x7D, 0xF2, 0xB5, 0x5F, 0x86, 0x65, 0x5E,
            0xFF, color[0], color[1], color[2], 0xFF, 0xFF, 0xFF,
        ]);
    }
}

} // verus!
