use wireless_taiko::connect::{next_task_step, ConnectStep, Link, TaskEvent, TaskStep};
use wireless_taiko::session::{Action, Ended, Received, Session};
use wireless_taiko::ButtonState;

const NONE: ButtonState = ButtonState { right: 0, shared: 0, left: 0 };
const HIT: ButtonState = ButtonState { right: 0x04, shared: 0, left: 0 };

fn request(sub: &[u8]) -> Vec<u8> {
    let mut pkt = vec![0u8; 50];
    pkt[0] = 0xA2;
    pkt[11..11 + sub.len()].copy_from_slice(sub);
    pkt
}

fn send(session: &mut Session, sub: &[u8]) -> Action {
    let pkt = request(sub);
    session.step(Received::Bytes(&pkt), true, &NONE)
}

fn quiet(session: &mut Session, buttons: &ButtonState) -> Action {
    session.step(Received::Quiet, true, buttons)
}

fn session(permit: bool) -> Session {
    Session::new("DC:A6:32:0A:14:1E", permit)
}

#[test]
fn opening_report_is_idle() {
    let mut s = session(true);
    let r = s.open();
    assert_eq!(r[..4], [0xA1, 0x30, 0x00, 0x90]);
    assert_eq!(r[13], 0xA0);
}

#[test]
fn connection_ends() {
    let mut s = session(true);
    assert!(matches!(
        s.step(Received::Bytes(&[]), true, &NONE),
        Action::Stop(Ended::Disconnected)
    ));
    assert!(matches!(s.step(Received::Failed, true, &NONE), Action::Stop(Ended::ChannelFailed)));
    assert!(matches!(
        s.step(Received::Quiet, false, &NONE),
        Action::Stop(Ended::DrumUnplugged)
    ));
    assert!(matches!(
        s.step(Received::Bytes(&[]), false, &NONE),
        Action::Stop(Ended::Disconnected)
    ));
    assert!(matches!(
        s.step(Received::Bytes(&request(&[0x48])), false, &NONE),
        Action::Stop(Ended::DrumUnplugged)
    ));
}

#[test]
fn requests_are_answered_on_the_spot() {
    let mut s = session(false);
    for sub in [0x02u8, 0x08, 0x10, 0x03, 0x04, 0x40, 0x48, 0x22, 0x21, 0x30] {
        match send(&mut s, &[sub]) {
            Action::Reply { report, released } => {
                assert_eq!(report[1], 0x21);
                assert_eq!(report[15], sub);
                assert_eq!(released, None);
            }
            _ => panic!("no reply"),
        }
    }
}

#[test]
fn short_request_still_gets_a_report() {
    let mut s = session(false);
    match s.step(Received::Bytes(&[0xA2]), true, &NONE) {
        Action::Reply { report, .. } => assert_eq!(report[1], 0x30),
        _ => panic!("no reply"),
    }
}

#[test]
fn permit_is_released_once_on_completion() {
    let mut s = session(true);
    assert!(matches!(send(&mut s, &[0x48]), Action::Reply { released: None, .. }));
    assert!(matches!(send(&mut s, &[0x30, 0x03]), Action::Reply { released: Some(2), .. }));
    assert!(matches!(send(&mut s, &[0x30, 0x01]), Action::Reply { released: None, .. }));
    assert!(matches!(send(&mut s, &[0x48]), Action::Reply { released: None, .. }));
}

#[test]
fn keepalive_during_the_handshake() {
    let mut s = session(true);
    for tick in 1..=400 {
        let action = quiet(&mut s, &NONE);
        if tick % 132 == 0 {
            assert!(matches!(action, Action::Input { .. }));
        } else {
            assert!(matches!(action, Action::Wait));
        }
    }
}

#[test]
fn keepalive_after_the_handshake() {
    let mut s = session(true);
    send(&mut s, &[0x48]);
    send(&mut s, &[0x30, 0x01]);
    assert!(matches!(quiet(&mut s, &NONE), Action::Input { .. }));
    for tick in 1..=20 {
        let action = quiet(&mut s, &NONE);
        if tick % 2 == 0 {
            assert!(matches!(action, Action::Input { .. }));
        } else {
            assert!(matches!(action, Action::Wait));
        }
    }
}

#[test]
fn changes_are_reported_at_once() {
    let mut s = session(true);
    match quiet(&mut s, &HIT) {
        Action::Input { report } => {
            assert_eq!(report[1], 0x30);
            assert_eq!(report[4..7], [0x04, 0, 0]);
            assert_eq!(report[13], 0xA0);
        }
        _ => panic!("no report"),
    }
    assert!(matches!(quiet(&mut s, &HIT), Action::Wait));
    match quiet(&mut s, &NONE) {
        Action::Input { report } => {
            assert_eq!(report[4..7], [0, 0, 0]);
            assert_eq!(report[13], 0xB0);
        }
        _ => panic!("no report"),
    }
}

#[test]
fn other_packets_count_as_quiet() {
    let mut s = session(true);
    assert!(matches!(s.step(Received::Bytes(&[0xA1, 1, 2]), true, &NONE), Action::Wait));
    assert!(matches!(s.step(Received::Bytes(&[0xA1]), true, &HIT), Action::Input { .. }));
}

#[test]
fn keepalive_goes_on_whatever_else_arrives() {
    let mut s = session(true);
    for tick in 1..=400 {
        let received = if tick % 3 == 0 { Received::Quiet } else { Received::Bytes(&[0xA1, 0xA2]) };
        let action = s.step(received, true, &NONE);
        if tick % 132 == 0 {
            assert!(matches!(action, Action::Input { .. }));
        } else {
            assert!(matches!(action, Action::Wait));
        }
    }
}

#[test]
fn requests_do_not_set_the_keepalive_back() {
    let mut s = session(true);
    for _ in 0..100 {
        assert!(matches!(send(&mut s, &[0x08]), Action::Reply { .. }));
    }
    for _ in 100..131 {
        assert!(matches!(quiet(&mut s, &NONE), Action::Wait));
    }
    for _ in 131..140 {
        assert!(matches!(send(&mut s, &[0x08]), Action::Reply { .. }));
    }
    assert!(matches!(quiet(&mut s, &NONE), Action::Input { .. }));
    assert!(matches!(quiet(&mut s, &NONE), Action::Wait));
}

#[test]
fn request_postpones_a_change() {
    let mut s = session(true);
    let pkt = request(&[0x08]);
    assert!(matches!(s.step(Received::Bytes(&pkt), true, &HIT), Action::Reply { .. }));
    assert!(matches!(quiet(&mut s, &HIT), Action::Input { .. }));
}

fn walk(link: &mut Link) -> Vec<ConnectStep> {
    let mut steps = vec![link.first_step()];
    while let Some(next) = link.next_step(steps[steps.len() - 1]) {
        steps.push(next);
    }
    steps
}

#[test]
fn only_the_first_pairing_takes_the_permit() {
    let mut link = Link::new();
    assert_eq!(
        walk(&mut link),
        [
            ConnectStep::ClearPairing,
            ConnectStep::AcquirePermit,
            ConnectStep::SetDiscoverable,
            ConnectStep::SetDeviceClass,
            ConnectStep::AcceptInterrupt,
            ConnectStep::AcceptControl,
            ConnectStep::Serve,
        ]
    );
    assert_eq!(
        walk(&mut link),
        [
            ConnectStep::ClearPairing,
            ConnectStep::SetDiscoverable,
            ConnectStep::SetDeviceClass,
            ConnectStep::AcceptInterrupt,
            ConnectStep::AcceptControl,
            ConnectStep::Serve,
        ]
    );
}

#[test]
fn failed_attempt_before_the_console_comes_keeps_waiting_for_the_permit() {
    let mut link = Link::new();
    let step = link.first_step();
    assert_eq!(link.next_step(step), Some(ConnectStep::AcquirePermit));
    link.next_step(ConnectStep::AcquirePermit);
    link.next_step(ConnectStep::SetDiscoverable);
    let step = link.first_step();
    assert_eq!(link.next_step(step), Some(ConnectStep::AcquirePermit));
}

#[test]
fn controller_task_goes_through_its_steps() {
    let mut step = TaskStep::SetUpAdapter;
    let mut seen = vec![step];
    for _ in 0..6 {
        step = next_task_step(step, TaskEvent::Done);
        seen.push(step);
    }
    assert_eq!(
        seen,
        [
            TaskStep::SetUpAdapter,
            TaskStep::ReadAddress,
            TaskStep::StartReader,
            TaskStep::BindControl,
            TaskStep::BindInterrupt,
            TaskStep::CheckDrum,
            TaskStep::Connect,
        ]
    );
    assert_eq!(next_task_step(TaskStep::Connect, TaskEvent::Done), TaskStep::CheckDrum);
    assert_eq!(next_task_step(TaskStep::Connect, TaskEvent::Failed), TaskStep::CheckDrum);
    assert_eq!(next_task_step(TaskStep::Connect, TaskEvent::Interrupted), TaskStep::Finished);
}

#[test]
fn controller_task_ends_on_trouble_before_connecting() {
    for step in [
        TaskStep::SetUpAdapter,
        TaskStep::ReadAddress,
        TaskStep::BindControl,
        TaskStep::BindInterrupt,
        TaskStep::CheckDrum,
        TaskStep::Finished,
    ] {
        assert_eq!(next_task_step(step, TaskEvent::Failed), TaskStep::Finished);
    }
}
