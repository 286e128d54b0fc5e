use wireless_taiko::handshake::parse_address;
use wireless_taiko::Handshake;

fn packet(sub: &[u8]) -> Vec<u8> {
    let mut pkt = vec![0u8; 50];
    pkt[0] = 0xA2;
    pkt[11..11 + sub.len()].copy_from_slice(sub);
    pkt
}

fn ask(hs: &mut Handshake, sub: &[u8]) -> [u8; 50] {
    let pkt = packet(sub);
    hs.process(Some(&pkt[..]))
}

fn handshake() -> Handshake {
    Handshake::new("DC:A6:32:0A:14:1E")
}

fn std_address(text: &str) -> [u8; 6] {
    let mut bytes = [0u8; 6];
    for (i, part) in text.split(':').enumerate().take(6) {
        bytes[i] = u8::from_str_radix(part, 16).unwrap_or(0);
    }
    bytes
}

#[test]
fn address_in_usual_notation() {
    assert_eq!(parse_address("DC:A6:32:0A:14:1E"), [0xDC, 0xA6, 0x32, 0x0A, 0x14, 0x1E]);
    assert_eq!(parse_address("dc:a6:32:0a:14:1e"), [0xDC, 0xA6, 0x32, 0x0A, 0x14, 0x1E]);
}

#[test]
fn address_parts_that_are_no_bytes_count_as_zero() {
    assert_eq!(parse_address(""), [0; 6]);
    assert_eq!(parse_address("1:2"), [1, 2, 0, 0, 0, 0]);
    assert_eq!(parse_address("xx:100:-1:+f:+:00000ff"), [0, 0, 0, 15, 0, 255]);
    assert_eq!(parse_address("1:2:3:4:5:6:7:8"), [1, 2, 3, 4, 5, 6]);
    assert_eq!(parse_address("::a::\u{e9}:b"), [0, 0, 10, 0, 0, 11]);
}

#[test]
fn address_agrees_with_the_standard_library() {
    for text in [
        "DC:A6:32:0A:14:1E", "", ":", ":::::::", "1", "+1:++1:1+:+", " 1:1 :0x1:1_0",
        "100:ff:FF:0ff:0100:fff", "g:f:G:F:@:`", "\u{ff11}:\u{661}:1", "99999999999999999999:1",
    ] {
        assert_eq!(parse_address(text), std_address(text));
    }
}

#[test]
fn address_in_either_case_and_with_more_behind() {
    let bytes = [0xDC, 0xA6, 0x32, 0x0A, 0x14, 0xFE];
    for text in ["DC:A6:32:0A:14:FE", "dc:a6:32:0a:14:fe", "dC:A6:32:0a:14:Fe:", "DC:A6:32:0A:14:FE:77:x::"] {
        assert_eq!(parse_address(text), bytes);
    }
}

#[test]
fn every_address_byte_round_trips() {
    for byte in 0..=255u8 {
        let text = format!("{:02X}:{:02X}:{:02X}:{:02X}:{:02X}:{:02X}", byte, 1, 2, byte, 0, 255 - byte);
        assert_eq!(parse_address(&text), [byte, 1, 2, byte, 0, 255 - byte]);
    }
}

#[test]
fn boot_report_is_an_idle_report() {
    let mut hs = handshake();
    let r = hs.process(None);
    let mut expected = [0u8; 50];
    expected[..14].copy_from_slice(&[
        0xA1, 0x30, 0x00, 0x90, 0x00, 0x00, 0x00, 0x6F, 0xC8, 0x77, 0x16, 0xD8, 0x7D, 0xA0,
    ]);
    assert_eq!(r, expected);
    assert!(!hs.is_complete());
}

#[test]
fn packets_that_are_no_requests_get_an_idle_report() {
    let mut hs = handshake();
    let mut short = packet(&[0x48]);
    short.truncate(49);
    let mut other = packet(&[0x48]);
    other[0] = 0xA1;
    for pkt in [&short[..], &other[..], &[][..]] {
        let r = hs.process(Some(pkt));
        assert_eq!(r[..2], [0xA1, 0x30]);
        assert!(r[14..].iter().all(|b| *b == 0));
        assert!(!hs.vibration_enabled);
        assert_eq!(hs.player_number, None);
    }
}

#[test]
fn every_subcommand_gets_a_subcommand_reply() {
    let listed = [0x02u8, 0x03, 0x04, 0x08, 0x10, 0x21, 0x22, 0x30, 0x40, 0x48];
    for sub in 0..=255u8 {
        let mut hs = handshake();
        let r = ask(&mut hs, &[sub]);
        assert_eq!(r[..2], [0xA1, 0x21]);
        assert_eq!(r[15], sub);
        if !listed.contains(&sub) {
            assert_eq!(r[14], 0x80);
            assert!(r[16..].iter().all(|b| *b == 0));
            assert!(!hs.vibration_enabled);
            assert_eq!(hs.player_number, None);
        }
    }
}

#[test]
fn longer_packets_are_answered_too() {
    let mut hs = handshake();
    let mut pkt = packet(&[0x08]);
    pkt.push(0x77);
    let r = hs.process(Some(&pkt[..]));
    assert_eq!(r[14..16], [0x80, 0x08]);
}

#[test]
fn plain_acknowledgements() {
    for (sub, ack) in [
        (0x08u8, 0x80u8), (0x03, 0x80), (0x04, 0x83), (0x40, 0x80), (0x48, 0x82), (0x30, 0x80),
        (0x22, 0x80),
    ] {
        let mut hs = handshake();
        let r = ask(&mut hs, &[sub]);
        assert_eq!(r[..2], [0xA1, 0x21]);
        assert_eq!(r[3..7], [0x90, 0, 0, 0]);
        assert_eq!(r[13..16], [0xA0, ack, sub]);
        assert!(r[16..].iter().all(|b| *b == 0));
    }
}

#[test]
fn device_info_gives_version_type_and_address() {
    let mut hs = handshake();
    let r = ask(&mut hs, &[0x02]);
    assert_eq!(r[1], 0x21);
    assert_eq!(
        r[14..28],
        [0x82, 0x02, 0x03, 0x8B, 0x03, 0x02, 0xDC, 0xA6, 0x32, 0x0A, 0x14, 0x1E, 0x01, 0x01]
    );
    assert!(r[28..].iter().all(|b| *b == 0));
}

#[test]
fn nfc_ir_config_says_there_is_no_unit() {
    let mut hs = handshake();
    let r = ask(&mut hs, &[0x21]);
    assert_eq!(r[14..24], [0xA0, 0x21, 0x01, 0x00, 0xFF, 0x00, 0x08, 0x00, 0x1B, 0x01]);
    assert!(r[24..49].iter().all(|b| *b == 0));
    assert_eq!(r[49], 0xC8);
}

fn flash(lo: u8, hi: u8, len: u8) -> [u8; 50] {
    let mut hs = handshake();
    let r = ask(&mut hs, &[0x10, lo, hi, 0, 0, len]);
    assert_eq!(r[1], 0x21);
    assert_eq!(r[14..21], [0x90, 0x10, lo, hi, 0, 0, len]);
    r
}

const STICK: [u8; 18] = [
    0x0F, 0x30, 0x61, 0x96, 0x30, 0xF3, 0xD4, 0x14, 0x54, 0x41, 0x15, 0x54, 0xC7, 0x79, 0x9C, 0x33,
    0x36, 0x63,
];

// 0x0A + 0x14 + 0x1E is hue 60: 360 is 104 into the second sector.
const COLOR: [u8; 3] = [151, 255, 0];

#[test]
fn flash_blank_areas() {
    let r = flash(0x00, 0x60, 0x10);
    assert!(r[21..37].iter().all(|b| *b == 0xFF));
    assert!(r[37..].iter().all(|b| *b == 0));
    let r = flash(0x10, 0x80, 0x18);
    assert!(r[21..45].iter().all(|b| *b == 0xFF));
    assert!(r[45..].iter().all(|b| *b == 0));
}

#[test]
fn flash_colors() {
    let r = flash(0x50, 0x60, 0x0D);
    assert_eq!(r[21..24], COLOR);
    assert!(r[24..34].iter().all(|b| *b == 0xFF));
    assert!(r[34..].iter().all(|b| *b == 0));
}

#[test]
fn flash_parameters() {
    let r = flash(0x80, 0x60, 0x18);
    assert_eq!(r[21..27], [0x50, 0xFD, 0x00, 0x00, 0xC6, 0x0F]);
    assert_eq!(r[27..45], STICK);
    assert!(r[45..].iter().all(|b| *b == 0));
    let r = flash(0x98, 0x60, 0x12);
    assert_eq!(r[21..39], STICK);
    assert!(r[39..].iter().all(|b| *b == 0));
}

#[test]
fn flash_calibration() {
    let r = flash(0x3D, 0x60, 0x19);
    assert_eq!(r[21..30], [0xBA, 0xF5, 0x62, 0x6F, 0xC8, 0x77, 0xED, 0x95, 0x5B]);
    assert_eq!(r[30..39], [0x16, 0xD8, 0x7D, 0xF2, 0xB5, 0x5F, 0x86, 0x65, 0x5E]);
    assert_eq!(r[39], 0xFF);
    assert_eq!(r[40..43], COLOR);
    assert_eq!(r[43..], [0xFF, 0xFF, 0xFF, 0, 0, 0, 0]);
    let r = flash(0x20, 0x60, 0x18);
    assert_eq!(
        r[21..45],
        [
            0xD3, 0xFF, 0xD5, 0xFF, 0x55, 0x01, 0x00, 0x40, 0x00, 0x40, 0x00, 0x40, 0x19, 0x00,
            0xDD, 0xFF, 0xDC, 0xFF, 0x3B, 0x34, 0x3B, 0x34, 0x3B, 0x34,
        ]
    );
    assert!(r[45..].iter().all(|b| *b == 0));
}

#[test]
fn flash_elsewhere_is_only_echoed() {
    let r = flash(0x60, 0x50, 0x07);
    assert!(r[21..].iter().all(|b| *b == 0));
}

#[test]
fn player_slots() {
    for (bits, slot) in [
        (0x01u8, Some(1u8)), (0x10, Some(1)), (0x03, Some(2)), (0x30, Some(2)), (0x07, Some(3)),
        (0x70, Some(3)), (0x0F, Some(4)), (0xF0, Some(4)), (0x00, None), (0x02, None), (0x11, None),
        (0xFF, None),
    ] {
        let mut hs = handshake();
        ask(&mut hs, &[0x30, bits]);
        assert_eq!(hs.player_number, slot);
        assert_eq!(hs.assigned_player(), slot);
    }
}

#[test]
fn completes_in_either_order() {
    let mut hs = handshake();
    ask(&mut hs, &[0x48]);
    assert!(!hs.is_complete());
    ask(&mut hs, &[0x30, 0x01]);
    assert!(hs.is_complete());

    let mut hs = handshake();
    ask(&mut hs, &[0x30, 0x01]);
    assert!(!hs.is_complete());
    ask(&mut hs, &[0x48]);
    assert!(hs.is_complete());
}

#[test]
fn completion_lasts_unless_the_lights_mean_nothing() {
    let mut hs = handshake();
    ask(&mut hs, &[0x48]);
    ask(&mut hs, &[0x30, 0x03]);
    for sub in [0x02u8, 0x03, 0x04, 0x08, 0x10, 0x21, 0x22, 0x40, 0x48, 0x99] {
        ask(&mut hs, &[sub]);
        assert!(hs.is_complete());
        assert_eq!(hs.player_number, Some(2));
    }
    ask(&mut hs, &[0x30, 0x07]);
    assert_eq!(hs.player_number, Some(3));
    ask(&mut hs, &[0x30, 0x55]);
    assert!(!hs.is_complete());
}

#[test]
fn replies_share_one_vibration_cycle() {
    let mut hs = handshake();
    let bytes = [
        hs.process(None)[13], ask(&mut hs, &[0x02])[13], ask(&mut hs, &[0x10])[13],
        ask(&mut hs, &[0x99])[13], ask(&mut hs, &[0x21])[13],
    ];
    assert_eq!(bytes, [0xA0, 0xB0, 0xC0, 0x90, 0xA0]);
}

fn body_color(address: &str) -> Vec<u8> {
    let mut hs = Handshake::new(address);
    ask(&mut hs, &[0x10, 0x50, 0x60, 0, 0, 0x0D])[21..24].to_vec()
}

#[test]
fn controllers_look_different() {
    let mut colors: Vec<Vec<u8>> = (0..=255u8).map(|b| body_color(&format!("DC:A6:32:0A:14:{b:02X}"))).collect();
    colors.sort();
    colors.dedup();
    assert_eq!(colors.len(), 256);
    assert_eq!(body_color("00:00:00:00:00:01"), [255, 6, 0]);
    assert_eq!(body_color("00:00:00:00:01:00"), [255, 6, 0]);
}
