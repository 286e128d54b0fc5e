//! Input reports: the fixed-size packets sent from controller to console.
//!
//! A report is fifty bytes. The first fourteen are common to every kind:
//!
//! ```text
//!  0       0xA1, HID DATA, device to host
//!  1       report ID: 0x21 subcommand reply, 0x30 standard full report
//!  2       timestamp
//!  3       0x90, battery full, Pro Controller over Bluetooth
//!  4..7    button bytes
//!  7..10   left stick
//!  10..13  right stick
//!  13      vibration byte
//! ```
use vstd::prelude::*;

use crate::timer::Timer;

verus! {

/// Report ID of a subcommand reply.
pub const REPORT_REPLY: u8 = 0x21;

/// Report ID of a standard full input report.
pub const REPORT_INPUT: u8 = 0x30;

/// Sticks at mechanical centre. Each axis is a 12-bit value and two axes share
/// three bytes.
pub const LEFT_STICK: [u8; 3] = [0x6F, 0xC8, 0x77];

pub const RIGHT_STICK: [u8; 3] = [0x16, 0xD8, 0x7D];

/// The three button bytes of a standard input report.
#[derive(Clone, Copy, Debug, PartialEq, Eq, Structural)]
pub struct ButtonState {
    /// Y=0x01 X=0x02 B=0x04 A=0x08 R=0x40 ZR=0x80
    pub right: u8,
    /// Minus=0x01 Plus=0x02 Home=0x10 Capture=0x20
    pub shared: u8,
    /// Down=0x01 Up=0x02 Right=0x04 Left=0x08 L=0x40 ZL=0x80
    pub left: u8,
}

/// Nothing pressed.
pub open spec fn no_buttons() -> ButtonState {
    ButtonState { right: 0, shared: 0, left: 0 }
}

impl Default for ButtonState {
    fn default() -> (state: ButtonState)
        ensures
            state == no_buttons(),
    {
        ButtonState { right: 0, shared: 0, left: 0 }
    }
}

/// The first fourteen bytes of a report.
pub open spec fn header(id: u8, stamp: u8, buttons: ButtonState, vib: u8) -> Seq<u8> {
    seq![0xA1u8, id, stamp, 0x90u8, buttons.right, buttons.shared, buttons.left] + LEFT_STICK@
        + RIGHT_STICK@ + seq![vib]
}

/// `bytes` followed by zeros up to `len`.
pub open spec fn padded(bytes: Seq<u8>, len: int) -> Seq<u8> {
    bytes + Seq::new((len - bytes.len()) as nat, |i: int| 0u8)
}

/// A whole report whose bytes from the fourteenth on start with `payload`.
pub open spec fn report_bytes(
    id: u8,
    stamp: u8,
    buttons: ButtonState,
    vib: u8,
    payload: Seq<u8>,
) -> Seq<u8> {
    padded(header(id, stamp, buttons, vib) + payload, 50)
}

/// What building one report does to the timer it draws on: the clock is read
/// once and one vibration byte is used up.
pub open spec fn reported(before: Timer, after: Timer) -> bool {
    &&& after.wf()
    &&& crate::timer::ticked(before, after)
    &&& after.phase() == (before.phase() + 1) % 4
}

/// `base` with `bytes` written over it from position `at`.
pub open spec fn overwritten(base: Seq<u8>, at: int, bytes: Seq<u8>) -> Seq<u8> {
    Seq::new(
        base.len(),
        |i: int|
            if at <= i < at + bytes.len() {
                bytes[i - at]
            } else {
                base[i]
            },
    )
}

/// Writes `bytes` into the report from position `at`.
pub(crate) fn put(r: &mut [u8; 50], at: usize, bytes: &[u8])
    requires
        at + bytes@.len() <= 50,
    ensures
        final(r)@ == overwritten(old(r)@, at as int, bytes@),
{
    let mut i: usize = 0;
    while i < bytes.len()
        invariant
            at + bytes@.len() <= 50,
            i <= bytes@.len(),
            r@ == overwritten(old(r)@, at as int, bytes@.take(i as int)),
        decreases bytes@.len() - i,
    {
        r[at + i] = bytes[i];
        i = i + 1;
    }
    assert(bytes@.take(i as int) == bytes@);
}

/// Writes `byte` into the report `count` times from position `at`.
pub(crate) fn fill(r: &mut [u8; 50], at: usize, count: usize, byte: u8)
    requires
        at + count <= 50,
    ensures
        final(r)@ == overwritten(old(r)@, at as int, Seq::new(count as nat, |i: int| byte)),
{
    let mut i: usize = 0;
    while i < count
        invariant
            at + count <= 50,
            i <= count,
            r@ == overwritten(old(r)@, at as int, Seq::new(i as nat, |k: int| byte)),
        decreases count - i,
    {
        r[at + i] = byte;
        i = i + 1;
    }
}

/// A zeroed report with the HID DATA header byte in place.
pub fn make_report() -> (r: [u8; 50])
    ensures
        r@ == padded(seq![0xA1u8], 50),
{
    let mut r = [0u8; 50];
    r[0] = 0xA1;
    assert(r@ =~= padded(seq![0xA1u8], 50));
    r
}

/// Fills in the fields that every kind of report has in common.
pub fn fill_standard(r: &mut [u8; 50], timer: &mut Timer)
    requires
        old(timer).wf(),
    ensures
        reported(*old(timer), *final(timer)),
        final(r)@ == overwritten(
            overwritten(old(r)@, 2, seq![final(timer).stamp(), 0x90u8]),
            7,
            LEFT_STICK@ + RIGHT_STICK@ + seq![crate::timer::vib_byte(old(timer).phase())],
        ),
{
    r[2] = timer.tick();
    r[3] = 0x90;
    r[7] = LEFT_STICK[0];
    r[8] = LEFT_STICK[1];
    r[9] = LEFT_STICK[2];
    r[10] = RIGHT_STICK[0];
    r[11] = RIGHT_STICK[1];
    r[12] = RIGHT_STICK[2];
    r[13] = timer.vib();
}

/// A standard input report with nothing pressed.
pub fn idle_report(timer: &mut Timer) -> (r: [u8; 50])
    requires
        old(timer).wf(),
    ensures
        reported(*old(timer), *final(timer)),
        r@ == report_bytes(
            REPORT_INPUT,
            final(timer).stamp(),
            no_buttons(),
            crate::timer::vib_byte(old(timer).phase()),
            Seq::empty(),
        ),
{
    input_report(timer, &ButtonState::default())
}

/// A standard input report with the given buttons pressed.
pub fn input_report(timer: &mut Timer, state: &ButtonState) -> (r: [u8; 50])
    requires
        old(timer).wf(),
    ensures
        reported(*old(timer), *final(timer)),
        r@ == report_bytes(
            REPORT_INPUT,
            final(timer).stamp(),
            *state,
            crate::timer::vib_byte(old(timer).phase()),
            Seq::empty(),
        ),
{
    let mut r = make_report();
    r[1] = REPORT_INPUT;
    fill_standard(&mut r, timer);
    r[4] = state.right;
    r[5] = state.shared;
    r[6] = state.left;
    r
}

/// Two reports in a row that draw on the same timer never carry the same
/// vibration byte.
pub proof fn law_successive_reports_differ(before: Timer, between: Timer)
    requires
        before.wf(),
        reported(before, between),
    ensures
        crate::timer::vib_byte(before.phase()) != crate::timer::vib_byte(between.phase()),
{
    crate::timer::law_vibration_keeps_changing(before.phase());
}

/// An input report is fifty bytes, marked as such, with the button bytes in
/// their places and nothing behind the header.
pub proof fn law_input_report_layout(stamp: u8, buttons: ButtonState, vib: u8)
    ensures
        report_bytes(REPORT_INPUT, stamp, buttons, vib, Seq::empty()).len() == 50,
        report_bytes(REPORT_INPUT, stamp, buttons, vib, Seq::empty()).take(4) == seq![
            0xA1u8,
            REPORT_INPUT,
            stamp,
            0x90u8,
        ],
        report_bytes(REPORT_INPUT, stamp, buttons, vib, Seq::empty()).subrange(4, 7) == seq![
            buttons.right,
            buttons.shared,
            buttons.left,
        ],
        report_bytes(REPORT_INPUT, stamp, buttons, vib, Seq::empty())[13] == vib,
        forall|i: int|
            14 <= i < 50 ==> report_bytes(REPORT_INPUT, stamp, buttons, vib, Seq::empty())[i] == 0,
{
}

/// Where everything stands in a report, whatever kind it is: the header byte,
/// the report ID, the timestamp, battery and connection, the buttons, both
/// sticks at rest, the vibration byte, then the payload and nothing behind it.
pub proof fn law_report_layout(
    id: u8,
    stamp: u8,
    buttons: ButtonState,
    vib: u8,
    payload: Seq<u8>,
)
    requires
        payload.len() <= 36,
    ensures
        report_bytes(id, stamp, buttons, vib, payload).len() == 50,
        report_bytes(id, stamp, buttons, vib, payload).subrange(0, 4) == seq![
            0xA1u8,
            id,
            stamp,
            0x90u8,
        ],
        report_bytes(id, stamp, buttons, vib, payload).subrange(4, 7) == seq![
            buttons.right,
            buttons.shared,
            buttons.left,
        ],
        report_bytes(id, stamp, buttons, vib, payload).subrange(7, 10) == seq![
            0x6Fu8,
            0xC8u8,
            0x77u8,
        ],
        report_bytes(id, stamp, buttons, vib, payload).subrange(10, 13) == seq![
            0x16u8,
            0xD8u8,
            0x7Du8,
        ],
        report_bytes(id, stamp, buttons, vib, payload)[13] == vib,
        report_bytes(id, stamp, buttons, vib, payload).subrange(14, (14 + payload.len()) as int)
            == payload,
        forall|i: int|
            14 + payload.len() <= i < 50 ==> report_bytes(id, stamp, buttons, vib, payload)[i]
                == 0,
{
}

/// The buttons show in their own three bytes and nowhere else: two reports that
/// differ only in what is pressed have the same header, the same sticks, at rest,
/// and the same bytes behind them.
pub proof fn law_buttons_leave_the_rest_alone(
    id: u8,
    stamp: u8,
    a: ButtonState,
    b: ButtonState,
    vib: u8,
    payload: Seq<u8>,
)
    requires
        payload.len() <= 36,
    ensures
        report_bytes(id, stamp, a, vib, payload).subrange(7, 10) == LEFT_STICK@,
        report_bytes(id, stamp, a, vib, payload).subrange(10, 13) == RIGHT_STICK@,
        report_bytes(id, stamp, a, vib, payload).take(4) == report_bytes(
            id,
            stamp,
            b,
            vib,
            payload,
        ).take(4),
        report_bytes(id, stamp, a, vib, payload).skip(7) == report_bytes(
            id,
            stamp,
            b,
            vib,
            payload,
        ).skip(7),
{
}

/// A report with nothing pressed has three zeros for buttons.
pub proof fn law_nothing_pressed(id: u8, stamp: u8, vib: u8, payload: Seq<u8>)
    requires
        payload.len() <= 36,
    ensures
        report_bytes(id, stamp, no_buttons(), vib, payload).subrange(4, 7) == seq![0u8, 0u8, 0u8],
{
}

/// What a report takes from its timer: one reading of the clock, of which the
/// timestamp follows, and one step of the vibration cycle, which carries on from
/// report to report.
pub proof fn law_report_takes_one_step(before: Timer, after: Timer)
    requires
        before.wf(),
        reported(before, after),
    ensures
        after.wf(),
        after.phase() == if before.phase() == 3 {
            0
        } else {
            before.phase() + 1
        },
        after.last_tick() is Some,
        before.last_tick() is None ==> after.stamp() == before.stamp(),
        before.last_tick() is Some ==> after.stamp() == (before.stamp()
            + crate::clock::nanos_between(before.last_tick()->0, after.last_tick()->0) as int
            / 250_000) % 256,
{
    crate::timer::law_tick_adds_elapsed_time(before, after);
}

/// Writing over a report changes the bytes written and no others.
pub proof fn law_overwritten_in_place(base: Seq<u8>, at: int, bytes: Seq<u8>)
    requires
        0 <= at,
        at + bytes.len() <= base.len(),
    ensures
        overwritten(base, at, bytes).len() == base.len(),
        overwritten(base, at, bytes).take(at) == base.take(at),
        overwritten(base, at, bytes).subrange(at, at + bytes.len()) == bytes,
        overwritten(base, at, bytes).skip(at + bytes.len()) == base.skip(at + bytes.len()),
{
}

/// Padding keeps the bytes and adds zeros up to the length asked for.
pub proof fn law_padding_is_zeros(bytes: Seq<u8>, len: int)
    requires
        bytes.len() <= len,
    ensures
        padded(bytes, len).len() == len,
        padded(bytes, len).take(bytes.len() as int) == bytes,
        forall|i: int| bytes.len() <= i < len ==> padded(bytes, len)[i] == 0,
{
}

} // verus!
