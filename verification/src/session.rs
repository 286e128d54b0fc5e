//! One connection to the console, from the opening report on.
//!
//! The program around it keeps time: on every tick it looks once for a packet,
//! hands over what it found, and carries out the action that comes back.
//! Subcommands are answered at once. Input reports are sent when the buttons
//! change, and else only once per window: a report on every tick would fill the
//! send buffer during the handshake and delay the replies that the console is
//! waiting for.
use vstd::prelude::*;

use crate::handshake::{Handshake, HID_SET_REPORT};
use crate::report::{input_report, ButtonState};
use crate::timer::Timer;

verus! {

/// Length of a tick, about 132 to the second: a little faster than the console
/// polls.
pub const TICK_MICROS: u64 = 7576;

/// How long a tick waits for a packet.
pub const RECEIVE_MICROS: u64 = 100;

/// Ticks between input reports while the handshake is under way: about a second.
pub const HANDSHAKE_WINDOW: u32 = 132;

/// Ticks between input reports afterwards: about sixty a second.
pub const IDLE_WINDOW: u32 = 2;

/// What a tick found on the interrupt channel.
pub enum Received<'a> {
    /// Nothing came in time.
    Quiet,
    /// A packet; an empty one means that the console closed the channel.
    Bytes(&'a [u8]),
    /// The channel failed.
    Failed,
}

/// Why a connection is over.
#[derive(Clone, Copy, Debug, PartialEq, Eq)]
pub enum Ended {
    /// The console closed the channel.
    Disconnected,
    /// The channel failed.
    ChannelFailed,
    /// The drum was unplugged.
    DrumUnplugged,
}

/// What to do on a tick.
#[derive(Clone, Copy, Debug)]
pub enum Action {
    /// Give up the connection.
    Stop(Ended),
    /// Answer a subcommand. Where the first pairing is now complete, give up
    /// the pairing permit first; `released` is the player slot assigned.
    Reply { report: [u8; 50], released: Option<u8> },
    /// Send an input report.
    Input { report: [u8; 50] },
    /// Send nothing.
    Wait,
}

/// The connection ends on this tick, and why.
pub open spec fn ending(received: Received<'_>, drum_present: bool) -> Option<Ended> {
    match received {
        Received::Bytes(bytes) if bytes@.len() == 0 => Some(Ended::Disconnected),
        Received::Failed => Some(Ended::ChannelFailed),
        _ => if drum_present {
            None
        } else {
            Some(Ended::DrumUnplugged)
        },
    }
}

/// A packet that must be answered at once.
pub open spec fn is_request(received: Received<'_>) -> bool {
    received matches Received::Bytes(bytes) && bytes@.len() > 0 && bytes@[0] == HID_SET_REPORT
}

/// The tick counter one tick on. It wraps.
pub open spec fn next_tick(idle: u32) -> u32 {
    ((idle + 1) % 0x1_0000_0000) as u32
}

/// Ticks between input reports while the buttons stay as they are.
pub open spec fn window(complete: bool) -> u32 {
    if complete {
        IDLE_WINDOW
    } else {
        HANDSHAKE_WINDOW
    }
}

/// State of a connection.
pub struct Session {
    timer: Timer,
    hs: Handshake,
    holds_permit: bool,
    idle_ticks: u32,
    last_buttons: ButtonState,
}

impl Session {
    /// The timer behind the input reports.
    pub closed spec fn input_timer(&self) -> Timer {
        self.timer
    }

    pub closed spec fn handshake(&self) -> Handshake {
        self.hs
    }

    /// Whether the connection still holds the pairing permit.
    pub closed spec fn permit(&self) -> bool {
        self.holds_permit
    }

    /// Ticks since the last input report.
    pub closed spec fn idle(&self) -> u32 {
        self.idle_ticks
    }

    /// The buttons that the console was last told of.
    pub closed spec fn told(&self) -> ButtonState {
        self.last_buttons
    }

    pub open spec fn wf(&self) -> bool {
        self.input_timer().wf() && self.handshake().wf()
    }

    /// An input report is due.
    pub open spec fn input_due(&self, buttons: ButtonState) -> bool {
        buttons != self.told() || next_tick(self.idle()) >= window(self.handshake().complete())
    }

    /// A new connection of the adapter with the given address.
    pub fn new(addr_str: &str, holds_permit: bool) -> (session: Session)
        ensures
            session.wf(),
            session.handshake().address() == crate::handshake::address_of(addr_str@),
            session.handshake().color() == crate::handshake::body_color_of(
                crate::handshake::address_of(addr_str@),
            ),
            session.handshake().report_timer().stamp() == 0,
            session.handshake().report_timer().last_tick() is None,
            session.handshake().report_timer().phase() == 0,
            !session.handshake().vibration(),
            session.handshake().player() is None,
            session.input_timer().stamp() == 0,
            session.input_timer().last_tick() is None,
            session.input_timer().phase() == 0,
            session.permit() == holds_permit,
            session.idle() == 0,
            session.told() == crate::report::no_buttons(),
    {
        Session {
            timer: Timer::new(),
            hs: Handshake::new(addr_str),
            holds_permit,
            idle_ticks: 0,
            last_buttons: ButtonState::default(),
        }
    }

    /// The report that opens the connection, before the first subcommand.
    pub fn open(&mut self) -> (report: [u8; 50])
        requires
            old(self).wf(),
        ensures
            final(self).wf(),
            report@ == crate::report::report_bytes(
                crate::report::REPORT_INPUT,
                final(self).handshake().report_timer().stamp(),
                crate::report::no_buttons(),
                crate::timer::vib_byte(old(self).handshake().report_timer().phase()),
                Seq::empty(),
            ),
            crate::report::reported(
                old(self).handshake().report_timer(),
                final(self).handshake().report_timer(),
            ),
            final(self).handshake().same_but_timer(&old(self).handshake()),
            final(self).input_timer() == old(self).input_timer(),
            final(self).permit() == old(self).permit(),
            final(self).idle() == old(self).idle(),
            final(self).told() == old(self).told(),
    {
        self.hs.process(None)
    }

    /// Decides what to do on a tick.
    pub fn step(
        &mut self,
        received: Received<'_>,
        drum_present: bool,
        buttons: &ButtonState,
    ) -> (action: Action)
        requires
            old(self).wf(),
        ensures
            final(self).wf(),
            stepped(*old(self), received, drum_present, *buttons, action, *final(self)),
    {
        self.idle_ticks = self.idle_ticks.wrapping_add(1);
        match received {
            Received::Failed => {
                return Action::Stop(Ended::ChannelFailed);
            },
            Received::Bytes(bytes) => {
                if bytes.len() == 0 {
                    return Action::Stop(Ended::Disconnected);
                }
            },
            Received::Quiet => {},
        }
        if !drum_present {
            return Action::Stop(Ended::DrumUnplugged);
        }
        if let Received::Bytes(bytes) = received {
            if bytes[0] == HID_SET_REPORT {
                let report = self.hs.process(Some(bytes));
                let mut released: Option<u8> = None;
                if self.holds_permit && self.hs.is_complete() {
                    self.holds_permit = false;
                    released = self.hs.assigned_player();
                }
                return Action::Reply { report, released };
            }
        }
        let threshold: u32 = if self.hs.is_complete() {
            IDLE_WINDOW
        } else {
            HANDSHAKE_WINDOW
        };
        if *buttons != self.last_buttons || self.idle_ticks >= threshold {
            let report = input_report(&mut self.timer, buttons);
            self.last_buttons = *buttons;
            self.idle_ticks = 0;
            Action::Input { report }
        } else {
            Action::Wait
        }
    }
}

/// What a tick leads to.
pub open spec fn stepped(
    before: Session,
    received: Received<'_>,
    drum_present: bool,
    buttons: ButtonState,
    action: Action,
    after: Session,
) -> bool {
    if ending(received, drum_present) is Some {
        &&& action == Action::Stop(ending(received, drum_present)->0)
        &&& after.handshake() == before.handshake()
        &&& after.input_timer() == before.input_timer()
        &&& after.permit() == before.permit()
        &&& after.told() == before.told()
        &&& after.idle() == next_tick(before.idle())
    } else if is_request(received) {
        &&& answered(before, received->Bytes_0@, action, after)
        &&& after.input_timer() == before.input_timer()
        &&& after.told() == before.told()
        &&& after.idle() == next_tick(before.idle())
    } else {
        &&& after.handshake() == before.handshake()
        &&& after.permit() == before.permit()
        &&& if before.input_due(buttons) {
            &&& action matches Action::Input { report }
            &&& report@ == crate::report::report_bytes(
                crate::report::REPORT_INPUT,
                after.input_timer().stamp(),
                buttons,
                crate::timer::vib_byte(before.input_timer().phase()),
                Seq::empty(),
            )
            &&& crate::report::reported(before.input_timer(), after.input_timer())
            &&& after.told() == buttons
            &&& after.idle() == 0
        } else {
            &&& action == Action::Wait
            &&& after.input_timer() == before.input_timer()
            &&& after.told() == before.told()
            &&& after.idle() == next_tick(before.idle())
        }
    }
}

/// The handshake answers a packet, and the permit is given up on completion.
pub open spec fn answered(
    before: Session,
    pkt: Seq<u8>,
    action: Action,
    after: Session,
) -> bool {
    &&& action matches Action::Reply { report, released }
    &&& report@ == crate::handshake::answer(
        Some(pkt),
        before.handshake().address(),
        before.handshake().color(),
        after.handshake().report_timer().stamp(),
        crate::timer::vib_byte(before.handshake().report_timer().phase()),
    )
    &&& crate::report::reported(
        before.handshake().report_timer(),
        after.handshake().report_timer(),
    )
    &&& after.handshake().address() == before.handshake().address()
    &&& after.handshake().color() == before.handshake().color()
    &&& after.handshake().vibration() == crate::handshake::vibration_after(
        before.handshake().vibration(),
        Some(pkt),
    )
    &&& after.handshake().player() == crate::handshake::player_after(
        before.handshake().player(),
        Some(pkt),
    )
    &&& released == if before.permit() && after.handshake().complete() {
        after.handshake().player()
    } else {
        None
    }
    &&& after.permit() == (before.permit() && !after.handshake().complete())
}

/// Every packet that starts with 0xA2 is answered on the tick that brings it,
/// whatever else is in it: while the drum is there, it is never throttled or
/// dropped.
pub proof fn law_requests_answered_at_once(
    before: Session,
    received: Received<'_>,
    buttons: ButtonState,
    action: Action,
    after: Session,
)
    requires
        received matches Received::Bytes(bytes) && bytes@.len() > 0 && bytes@[0] == 0xA2,
        stepped(before, received, true, buttons, action, after),
    ensures
        action is Reply,
{
}

/// Between requests, a change of buttons is reported on the tick that sees it,
/// and once it is reported it is not news any more.
pub proof fn law_changes_reported_at_once(
    before: Session,
    received: Received<'_>,
    buttons: ButtonState,
    action: Action,
    after: Session,
)
    requires
        match received {
            Received::Quiet => true,
            Received::Bytes(bytes) => bytes@.len() > 0 && bytes@[0] != 0xA2,
            Received::Failed => false,
        },
        buttons != before.told(),
        stepped(before, received, true, buttons, action, after),
    ensures
        action is Input,
        action->Input_report@[4] == buttons.right,
        action->Input_report@[5] == buttons.shared,
        action->Input_report@[6] == buttons.left,
        after.told() == buttons,
{
}

/// A history of ticks: `states[i]` is what tick `i` starts from.
pub open spec fn is_history(
    states: Seq<Session>,
    received: Seq<Received<'_>>,
    drum_present: Seq<bool>,
    buttons: Seq<ButtonState>,
    actions: Seq<Action>,
) -> bool {
    &&& states.len() == actions.len() + 1
    &&& received.len() == actions.len()
    &&& drum_present.len() == actions.len()
    &&& buttons.len() == actions.len()
    &&& forall|i: int|
        0 <= i < actions.len() ==> stepped(
            states[i],
            received[i],
            drum_present[i],
            buttons[i],
            #[trigger] actions[i],
            states[i + 1],
        )
}

/// The action gives up the pairing permit.
pub open spec fn releases(action: Action) -> bool {
    action matches Action::Reply { report, released } && released is Some
}

/// A permit that is gone stays gone.
proof fn lemma_permit_stays_gone(
    states: Seq<Session>,
    received: Seq<Received<'_>>,
    drum_present: Seq<bool>,
    buttons: Seq<ButtonState>,
    actions: Seq<Action>,
    from: int,
    to: int,
)
    requires
        is_history(states, received, drum_present, buttons, actions),
        0 <= from <= to < states.len(),
        !states[from].permit(),
    ensures
        !states[to].permit(),
    decreases to - from,
{
    if from < to {
        lemma_permit_stays_gone(
            states,
            received,
            drum_present,
            buttons,
            actions,
            from,
            to - 1,
        );
        assert(stepped(
            states[to - 1],
            received[to - 1],
            drum_present[to - 1],
            buttons[to - 1],
            actions[to - 1],
            states[to],
        ));
    }
}

/// The permit is given up only by a connection that holds it, exactly when the
/// handshake completes, and at most once.
pub proof fn law_permit_released_once(
    states: Seq<Session>,
    received: Seq<Received<'_>>,
    drum_present: Seq<bool>,
    buttons: Seq<ButtonState>,
    actions: Seq<Action>,
    i: int,
)
    requires
        is_history(states, received, drum_present, buttons, actions),
        0 <= i < actions.len(),
    ensures
        releases(actions[i]) ==> states[i].permit() && states[i + 1].handshake().complete(),
        releases(actions[i]) <==> states[i].permit() && !states[i + 1].permit(),
        actions[i] is Reply && states[i].permit() && states[i + 1].handshake().complete()
            ==> releases(actions[i]),
        releases(actions[i]) ==> forall|j: int|
            i < j < actions.len() ==> !releases(#[trigger] actions[j]),
{
    assert(stepped(
        states[i],
        received[i],
        drum_present[i],
        buttons[i],
        actions[i],
        states[i + 1],
    ));
    if releases(actions[i]) {
        assert forall|j: int| i < j < actions.len() implies !releases(#[trigger] actions[j]) by {
            lemma_permit_stays_gone(
                states,
                received,
                drum_present,
                buttons,
                actions,
                i + 1,
                j,
            );
            assert(stepped(
                states[j],
                received[j],
                drum_present[j],
                buttons[j],
                actions[j],
                states[j + 1],
            ));
        }
    }
}

/// In the first `count` ticks the connection stays up, no request arrives, and
/// nothing is pressed or let go. Other packets may arrive.
pub open spec fn uneventful(
    states: Seq<Session>,
    received: Seq<Received<'_>>,
    drum_present: Seq<bool>,
    buttons: Seq<ButtonState>,
    count: int,
) -> bool {
    forall|i: int|
        0 <= i < count ==> drum_present[i] && buttons[i] == states[0].told() && match
        #[trigger] received[i] {
            Received::Quiet => true,
            Received::Bytes(bytes) => bytes@.len() > 0 && bytes@[0] != 0xA2,
            Received::Failed => false,
        }
}

/// Counting on within a window.
proof fn lemma_window_step(n: int, complete: bool)
    requires
        n > 0,
    ensures
        0 <= (n - 1) % (window(complete) as int) < window(complete),
        n % (window(complete) as int) == (if (n - 1) % (window(complete) as int) + 1 == window(
            complete,
        ) {
            0
        } else {
            (n - 1) % (window(complete) as int) + 1
        }),
{
    if complete {
        assert(window(complete) == 2);
    } else {
        assert(window(complete) == 132);
    }
}

proof fn lemma_idle_counts(
    states: Seq<Session>,
    received: Seq<Received<'_>>,
    drum_present: Seq<bool>,
    buttons: Seq<ButtonState>,
    actions: Seq<Action>,
    n: int,
)
    requires
        is_history(states, received, drum_present, buttons, actions),
        0 <= n <= actions.len(),
        uneventful(states, received, drum_present, buttons, n),
        states[0].idle() == 0,
    ensures
        states[n].idle() == n % (window(states[0].handshake().complete()) as int),
        states[n].handshake() == states[0].handshake(),
        states[n].told() == states[0].told(),
    decreases n,
{
    if n == 0 {
        assert(0int % (window(states[0].handshake().complete()) as int) == 0);
    } else {
        lemma_idle_counts(states, received, drum_present, buttons, actions, n - 1);
        lemma_window_step(n, states[0].handshake().complete());
        assert(!is_request(received[n - 1]));
        assert(stepped(
            states[n - 1],
            received[n - 1],
            drum_present[n - 1],
            buttons[n - 1],
            actions[n - 1],
            states[n],
        ));
    }
}

/// The keepalive: with neither requests nor changes of buttons, whatever else
/// arrives, and counted from the last input report, every window of ticks ends with one input report and has no other: one tick
/// in two after the handshake, one in a hundred and thirty-two before.
pub proof fn law_keepalive(
    states: Seq<Session>,
    received: Seq<Received<'_>>,
    drum_present: Seq<bool>,
    buttons: Seq<ButtonState>,
    actions: Seq<Action>,
    i: int,
)
    requires
        is_history(states, received, drum_present, buttons, actions),
        0 <= i < actions.len(),
        uneventful(states, received, drum_present, buttons, i + 1),
        states[0].idle() == 0,
    ensures
        ({
            let ticks = if states[0].handshake().complete() {
                2int
            } else {
                132
            };
            if (i + 1) % ticks == 0 {
                actions[i] is Input
            } else {
                actions[i] is Wait
            }
        }),
{
    lemma_idle_counts(states, received, drum_present, buttons, actions, i);
    lemma_window_step(i + 1, states[0].handshake().complete());
    assert(!is_request(received[i]));
    assert(stepped(
        states[i],
        received[i],
        drum_present[i],
        buttons[i],
        actions[i],
        states[i + 1],
    ));
}

/// Until an input report is sent, every tick counts, whatever happens on it.
proof fn lemma_idle_grows(
    states: Seq<Session>,
    received: Seq<Received<'_>>,
    drum_present: Seq<bool>,
    buttons: Seq<ButtonState>,
    actions: Seq<Action>,
    n: int,
)
    requires
        is_history(states, received, drum_present, buttons, actions),
        0 <= n <= actions.len(),
        n <= u32::MAX,
        forall|j: int| 0 <= j < n ==> !(#[trigger] actions[j] is Input),
        states[0].idle() == 0,
    ensures
        states[n].idle() == n,
    decreases n,
{
    if n > 0 {
        lemma_idle_grows(states, received, drum_present, buttons, actions, n - 1);
        assert(!(actions[n - 1] is Input));
        assert(stepped(
            states[n - 1],
            received[n - 1],
            drum_present[n - 1],
            buttons[n - 1],
            actions[n - 1],
            states[n],
        ));
    }
}

/// Requests do not set the keepalive back: counted from the last input report,
/// ticks that brought requests included, the next input report with the same
/// buttons goes out on the first tick without a request once the window is
/// over, and not before.
pub proof fn law_keepalive_despite_requests(
    states: Seq<Session>,
    received: Seq<Received<'_>>,
    drum_present: Seq<bool>,
    buttons: Seq<ButtonState>,
    actions: Seq<Action>,
    i: int,
)
    requires
        is_history(states, received, drum_present, buttons, actions),
        0 <= i < actions.len(),
        i < u32::MAX,
        states[0].idle() == 0,
        forall|j: int| 0 <= j < i ==> !(#[trigger] actions[j] is Input),
        drum_present[i],
        match received[i] {
            Received::Quiet => true,
            Received::Bytes(bytes) => bytes@.len() > 0 && bytes@[0] != 0xA2,
            Received::Failed => false,
        },
        buttons[i] == states[i].told(),
    ensures
        ({
            let ticks = if states[i].handshake().complete() {
                2int
            } else {
                132
            };
            &&& actions[i] is Input <==> i + 1 >= ticks
            &&& actions[i] is Wait <==> i + 1 < ticks
        }),
{
    lemma_idle_grows(states, received, drum_present, buttons, actions, i);
    assert(stepped(
        states[i],
        received[i],
        drum_present[i],
        buttons[i],
        actions[i],
        states[i + 1],
    ));
}

/// When a connection ends, and when not: on an empty packet, on a channel that
/// failed, and, if it is neither of these, when the drum is gone. Nothing is lost
/// by it but the tick.
pub proof fn law_when_a_connection_ends(
    before: Session,
    received: Received<'_>,
    drum_present: bool,
    buttons: ButtonState,
    action: Action,
    after: Session,
)
    requires
        stepped(before, received, drum_present, buttons, action, after),
    ensures
        action == Action::Stop(Ended::Disconnected) <==> (received matches Received::Bytes(bytes)
            && bytes@.len() == 0),
        action == Action::Stop(Ended::ChannelFailed) <==> received is Failed,
        action == Action::Stop(Ended::DrumUnplugged) <==> !drum_present && !(received is Failed)
            && (received matches Received::Bytes(bytes) ==> bytes@.len() > 0),
        action is Stop <==> !drum_present || received is Failed || (received matches Received::Bytes(
            bytes,
        ) && bytes@.len() == 0),
        action is Stop ==> after.handshake() == before.handshake() && after.input_timer()
            == before.input_timer() && after.permit() == before.permit() && after.told()
            == before.told(),
{
}

/// What a request leads to: the handshake's answer to those very bytes goes out,
/// and what the packet says of vibration and player slot is taken over. The
/// permit is given up, with the slot that was assigned, on the tick after which
/// vibration is on and there is a slot, and is kept until then. The buttons that
/// the console was told of stay as they were.
pub proof fn law_what_a_request_leads_to(
    before: Session,
    received: Received<'_>,
    buttons: ButtonState,
    action: Action,
    after: Session,
)
    requires
        received matches Received::Bytes(bytes) && bytes@.len() > 0 && bytes@[0] == 0xA2,
        stepped(before, received, true, buttons, action, after),
    ensures
        ({
            let bytes = received->Bytes_0@;
            let settled = after.handshake().vibration() && after.handshake().player() is Some;
            &&& action is Reply
            &&& action->Reply_report@ == crate::handshake::answer(
                Some(bytes),
                before.handshake().address(),
                before.handshake().color(),
                after.handshake().report_timer().stamp(),
                crate::timer::vib_byte(before.handshake().report_timer().phase()),
            )
            &&& bytes.len() >= 50 ==> action->Reply_report@[1] == 0x21
            &&& bytes.len() >= 50 ==> action->Reply_report@[15] == bytes[11]
            &&& crate::report::reported(
                before.handshake().report_timer(),
                after.handshake().report_timer(),
            )
            &&& after.handshake().address() == before.handshake().address()
            &&& after.handshake().color() == before.handshake().color()
            &&& after.handshake().vibration() <==> before.handshake().vibration() || (bytes.len()
                >= 50 && bytes[11] == 0x48)
            &&& bytes.len() >= 50 && bytes[11] == 0x30 ==> after.handshake().player()
                == crate::handshake::player_of(bytes[12])
            &&& !(bytes.len() >= 50 && bytes[11] == 0x30) ==> after.handshake().player()
                == before.handshake().player()
            &&& before.permit() && settled ==> action->released == after.handshake().player()
                && !after.permit()
            &&& !(before.permit() && settled) ==> action->released is None && after.permit()
                == before.permit()
            &&& after.input_timer() == before.input_timer()
            &&& after.told() == before.told()
            &&& after.idle() == if before.idle() == u32::MAX {
                0
            } else {
                before.idle() + 1
            }
        }),
{
    let bytes = received->Bytes_0@;
    if bytes.len() >= 50 {
        assert(action->Reply_report@.len() == 50);
        assert(action->Reply_report@[15] == bytes[11]) by {
            assert(action->Reply_report@[15] == crate::handshake::reply_payload(
                bytes.skip(11),
                before.handshake().address(),
                before.handshake().color(),
            )[1]);
        }
    }
}

/// What a tick without a request leads to, whether nothing came or a packet of
/// another kind: an input report with the buttons as they are, if they changed or
/// the window is over, and else nothing. The handshake and the permit are not
/// touched.
pub proof fn law_what_a_quiet_tick_leads_to(
    before: Session,
    received: Received<'_>,
    buttons: ButtonState,
    action: Action,
    after: Session,
)
    requires
        match received {
            Received::Quiet => true,
            Received::Bytes(bytes) => bytes@.len() > 0 && bytes@[0] != 0xA2,
            Received::Failed => false,
        },
        stepped(before, received, true, buttons, action, after),
    ensures
        ({
            let ticks = if before.idle() == u32::MAX {
                0
            } else {
                before.idle() + 1
            };
            let settled = before.handshake().vibration() && before.handshake().player() is Some;
            let due = buttons != before.told() || ticks >= 132 || (settled && ticks >= 2);
            &&& action is Input <==> due
            &&& action is Wait <==> !due
            &&& due ==> action->Input_report@.len() == 50
            &&& due ==> action->Input_report@.take(14) == seq![
                0xA1u8, 0x30, after.input_timer().stamp(), 0x90,
                buttons.right, buttons.shared, buttons.left,
                0x6F, 0xC8, 0x77, 0x16, 0xD8, 0x7D,
                crate::timer::vib_byte(before.input_timer().phase()),
            ]
            &&& due ==> forall|i: int| 14 <= i < 50 ==> action->Input_report@[i] == 0
            &&& due ==> crate::report::reported(before.input_timer(), after.input_timer())
            &&& due ==> after.told() == buttons && after.idle() == 0
            &&& !due ==> after.input_timer() == before.input_timer() && after.told()
                == before.told() && after.idle() == ticks
            &&& after.handshake() == before.handshake()
            &&& after.permit() == before.permit()
        }),
{
}

/// The rates that the windows come to: a tick is a little shorter than the eight
/// milliseconds between two polls of the console and much longer than the wait
/// for a packet; the window of the handshake is a second, to within a tenth of a
/// millisecond, and the window afterwards gives at least sixty reports a second
/// but no more than the console polls.
pub proof fn law_rates()
    ensures
        7500 < TICK_MICROS < 8000,
        RECEIVE_MICROS == 100,
        999_900 <= HANDSHAKE_WINDOW * TICK_MICROS <= 1_000_100,
        60 * IDLE_WINDOW * TICK_MICROS <= 1_000_000 < 125 * IDLE_WINDOW * TICK_MICROS,
{
}

} // verus!
