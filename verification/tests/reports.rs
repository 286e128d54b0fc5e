use std::time::{Duration, Instant};

use wireless_taiko::color::hue_to_rgb;
use wireless_taiko::report::{LEFT_STICK, RIGHT_STICK};
use wireless_taiko::{idle_report, input_report, ButtonState, Timer};

fn wait(millis: u64) {
    let start = Instant::now();
    while start.elapsed() < Duration::from_millis(millis) {}
}

fn float_units(elapsed: Duration) -> u64 {
    let delta_ms = elapsed.as_secs_f64() * 1000.0;
    (delta_ms * 4.0) as u64
}

#[test]
fn first_tick_keeps_the_timestamp() {
    let mut timer = Timer::new();
    assert_eq!(timer.tick(), 0);
}

#[test]
fn timestamp_moves_four_units_per_millisecond() {
    let mut timer = Timer::new();
    assert_eq!(timer.advance(None), 0);
    assert_eq!(timer.advance(Some(1_000_000)), 4);
    assert_eq!(timer.advance(Some(249_999)), 4);
    assert_eq!(timer.advance(Some(250_000)), 5);
    assert_eq!(timer.advance(Some(62_750_000)), 0);
}

#[test]
fn timestamp_wraps_freely() {
    let mut timer = Timer::new();
    assert_eq!(timer.advance(Some(63_750_000)), 255);
    assert_eq!(timer.advance(Some(64_000_000)), 255);
    assert_eq!(timer.advance(Some(100_000_000)), 143);
    assert_eq!(timer.advance(Some(1_000_000_000)), 47);
    let mut timer = Timer::new();
    assert_eq!(timer.advance(Some(100_000_000)), 144);
    let mut timer = Timer::new();
    assert_eq!(timer.advance(Some(u128::MAX)), ((u128::MAX / 250_000) % 256) as u8);
}

#[test]
fn timestamp_follows_the_readings() {
    let start = Instant::now();
    let mut timer = Timer::new();
    assert_eq!(timer.tick_at(start), 0);
    assert_eq!(timer.tick_at(start + Duration::from_millis(10)), 40);
    assert_eq!(timer.tick_at(start + Duration::from_millis(110)), 184);
    assert_eq!(timer.tick_at(start + Duration::from_millis(110)), 184);
    assert_eq!(timer.tick_at(start), 184);
    assert_eq!(timer.tick_at(start + Duration::from_millis(64)), 184);
}

#[test]
fn timestamp_step_agrees_with_floating_point() {
    for k in 0u64..300 {
        for nanos in [k * 250_000, k * 250_000 + 1, k * 250_000 + 249_999] {
            let mut timer = Timer::new();
            let units = float_units(Duration::from_nanos(nanos));
            assert_eq!(timer.advance(Some(nanos as u128)), (units % 256) as u8);
        }
    }
    for secs in [1u64, 2, 60, 86_400] {
        let elapsed = Duration::new(secs, 100_000);
        let mut timer = Timer::new();
        assert_eq!(timer.advance(Some(elapsed.as_nanos())), (float_units(elapsed) % 256) as u8);
    }
}

#[test]
fn tick_follows_the_clock() {
    let mut timer = Timer::new();
    timer.tick();
    wait(5);
    let stamp = timer.tick();
    assert!(stamp >= 20);
}

#[test]
fn vibration_byte_goes_round() {
    let mut timer = Timer::new();
    let bytes: Vec<u8> = (0..9).map(|_| timer.vib()).collect();
    assert_eq!(bytes, [0xA0, 0xB0, 0xC0, 0x90, 0xA0, 0xB0, 0xC0, 0x90, 0xA0]);
    for pair in bytes.windows(2) {
        assert_ne!(pair[0], pair[1]);
    }
}

#[test]
fn first_idle_report_bytes() {
    let mut timer = Timer::new();
    let mut expected = [0u8; 50];
    expected[..14].copy_from_slice(&[
        0xA1, 0x30, 0x00, 0x90, 0x00, 0x00, 0x00, 0x6F, 0xC8, 0x77, 0x16, 0xD8, 0x7D, 0xA0,
    ]);
    assert_eq!(idle_report(&mut timer), expected);
}

#[test]
fn input_report_carries_the_buttons() {
    let mut timer = Timer::new();
    idle_report(&mut timer);
    let state = ButtonState { right: 0x4C, shared: 0x21, left: 0x43 };
    let r = input_report(&mut timer, &state);
    assert_eq!(r[..2], [0xA1, 0x30]);
    assert_eq!(r[3..14], [0x90, 0x4C, 0x21, 0x43, 0x6F, 0xC8, 0x77, 0x16, 0xD8, 0x7D, 0xB0]);
    assert!(r[14..].iter().all(|b| *b == 0));
}

#[test]
fn report_timestamp_advances_between_reports() {
    let mut timer = Timer::new();
    let first = idle_report(&mut timer);
    wait(3);
    let second = idle_report(&mut timer);
    assert_eq!(first[2], 0);
    assert!(second[2] >= 12);
    assert_ne!(first[13], second[13]);
}

#[test]
fn sticks_rest_near_the_centre() {
    for stick in [LEFT_STICK, RIGHT_STICK] {
        let x = stick[0] as i32 | ((stick[1] as i32 & 0x0F) << 8);
        let y = (stick[1] as i32 >> 4) | ((stick[2] as i32) << 4);
        assert!((x - 2048).abs() < 150);
        assert!((y - 2048).abs() < 150);
    }
}

#[test]
fn hue_examples() {
    assert_eq!(hue_to_rgb(0), [255, 0, 0]);
    assert_eq!(hue_to_rgb(10), [255, 60, 0]);
    assert_eq!(hue_to_rgb(43), [253, 255, 0]);
    assert_eq!(hue_to_rgb(86), [0, 255, 4]);
    assert_eq!(hue_to_rgb(128), [0, 255, 255]);
    assert_eq!(hue_to_rgb(171), [2, 0, 255]);
    assert_eq!(hue_to_rgb(255), [255, 0, 5]);
}

#[test]
fn hues_are_distinct_saturated_and_bright() {
    let colors: Vec<[u8; 3]> = (0..=255u8).map(hue_to_rgb).collect();
    for (i, color) in colors.iter().enumerate() {
        assert!(color.contains(&0));
        assert!(color.contains(&255));
        assert!(!colors[..i].contains(color));
    }
}

#[test]
fn default_state_has_nothing_pressed() {
    assert_eq!(ButtonState::default(), ButtonState { right: 0, shared: 0, left: 0 });
}
