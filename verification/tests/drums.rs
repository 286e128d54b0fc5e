use wireless_taiko::drum::{after_publish, after_read, HidDevice, ReadAction};
use wireless_taiko::{find_drums, hid_to_button_state, ButtonState};

fn buttons(right: u8, shared: u8, left: u8) -> ButtonState {
    ButtonState { right, shared, left }
}

fn reference(b0: u8, b1: u8, hat: u8) -> ButtonState {
    let mut right = 0u8;
    let mut shared = 0u8;
    let mut left = 0u8;
    if b0 & 0x01 != 0 { right |= 0x01; }
    if b0 & 0x02 != 0 { right |= 0x04; }
    if b0 & 0x04 != 0 { right |= 0x08; }
    if b0 & 0x08 != 0 { right |= 0x02; }
    if b0 & 0x10 != 0 { left |= 0x08; }
    if b0 & 0x20 != 0 { left |= 0x04; }
    if b0 & 0x40 != 0 { left |= 0x40; }
    if b0 & 0x80 != 0 { right |= 0x40; }
    if b1 & 0x01 != 0 { shared |= 0x01; }
    if b1 & 0x02 != 0 { shared |= 0x02; }
    if b1 & 0x04 != 0 { right |= 0x04; }
    if b1 & 0x08 != 0 { right |= 0x08; }
    if b1 & 0x10 != 0 { shared |= 0x10; }
    if b1 & 0x20 != 0 { shared |= 0x20; }
    match hat {
        0 => left |= 0x02,
        2 => left |= 0x04,
        4 => left |= 0x01,
        6 => left |= 0x08,
        _ => {}
    }
    buttons(right, shared, left)
}

#[test]
fn drum_hits() {
    assert_eq!(hid_to_button_state(&[0x00, 0x04, 0x0F]), buttons(0x04, 0, 0));
    assert_eq!(hid_to_button_state(&[0x00, 0x08, 0x0F]), buttons(0x08, 0, 0));
    assert_eq!(hid_to_button_state(&[0x40, 0x00, 0x0F]), buttons(0, 0, 0x40));
    assert_eq!(hid_to_button_state(&[0x80, 0x00, 0x0F]), buttons(0x40, 0, 0));
    assert_eq!(hid_to_button_state(&[0xC0, 0x0C, 0x0F]), buttons(0x4C, 0, 0x40));
}

#[test]
fn hat_directions() {
    assert_eq!(hid_to_button_state(&[0, 0, 0]), buttons(0, 0, 0x02));
    assert_eq!(hid_to_button_state(&[0, 0, 2]), buttons(0, 0, 0x04));
    assert_eq!(hid_to_button_state(&[0, 0, 4]), buttons(0, 0, 0x01));
    assert_eq!(hid_to_button_state(&[0, 0, 6]), buttons(0, 0, 0x08));
    assert_eq!(hid_to_button_state(&[0, 0, 1]), buttons(0, 0, 0));
}

#[test]
fn all_buttons_of_every_report() {
    for b0 in 0..=255u8 {
        for b1 in 0..=255u8 {
            for hat in [0u8, 1, 2, 4, 6, 8, 0x0F, 0xFF] {
                let raw = [b0, b1, hat, 0x80, 0x80, 0x80, 0x80, 0x80];
                assert_eq!(hid_to_button_state(&raw), reference(b0, b1, hat));
            }
        }
    }
}

#[test]
fn short_reports_press_nothing() {
    assert_eq!(hid_to_button_state(&[]), ButtonState::default());
    assert_eq!(hid_to_button_state(&[0xFF, 0xFF]), ButtonState::default());
}

fn device(product: Option<&str>, path: &str) -> HidDevice {
    HidDevice { product: product.map(|p| p.to_string()), path: path.to_string() }
}

#[test]
fn drums_are_found_by_product_name() {
    let devices = vec![
        device(Some("Keyboard"), "/dev/hidraw0"),
        device(Some("HORI Taiko Controller"), "/dev/hidraw1"),
        device(None, "/dev/hidraw2"),
        device(Some("taiko"), "/dev/hidraw3"),
        device(Some("Taiko"), "/dev/hidraw4"),
        device(Some("TaikTaiko"), "/dev/hidraw5"),
        device(Some("Taik"), "/dev/hidraw6"),
    ];
    assert_eq!(find_drums(&devices), ["/dev/hidraw1", "/dev/hidraw4", "/dev/hidraw5"]);
    assert!(find_drums(&vec![]).is_empty());
}

#[test]
fn reads_lead_to_actions() {
    let raw = [0x00, 0x04, 0x0F, 0, 0, 0, 0, 0];
    assert_eq!(after_read(Some(0), true, &raw), ReadAction::Again);
    for listening in [false, true] {
        assert_eq!(after_read(Some(8), listening, &raw), ReadAction::Publish(buttons(0x04, 0, 0)));
        assert_eq!(after_read(Some(1), listening, &raw), ReadAction::Publish(buttons(0x04, 0, 0)));
        assert_eq!(after_read(None, listening, &raw), ReadAction::Stop);
    }
}

#[test]
fn reader_stops_once_nobody_listens() {
    assert_eq!(after_read(Some(0), false, &[0; 8]), ReadAction::Stop);
    assert_eq!(after_publish(false), ReadAction::Stop);
    assert_eq!(after_publish(true), ReadAction::Again);
}
