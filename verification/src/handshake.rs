//! The pairing handshake.
//!
//! The console is the HID host and always speaks first. It sends output reports
//! that carry a subcommand, in no strict order, and every one of these is
//! answered with a subcommand reply:
//!
//! ```text
//! 0x02  request device info       firmware, controller type, address
//! 0x03  set input report mode     acknowledged
//! 0x04  trigger buttons elapsed   acknowledged
//! 0x08  set shipment low power    acknowledged
//! 0x10  read SPI flash            see the spi module
//! 0x21  set NFC/IR config         told that there is no NFC/IR unit
//! 0x22  set NFC/IR state          acknowledged
//! 0x30  set player lights         acknowledged; assigns the player slot
//! 0x40  enable motion sensors     acknowledged
//! 0x48  enable vibration          acknowledged; vibration is on from here
//! other                           acknowledged
//! ```
//!
//! The handshake is complete once vibration is on and a player slot is assigned.
use vstd::prelude::*;

use crate::color::hue_to_rgb;
use crate::report::{fill_standard, idle_report, make_report, put, REPORT_REPLY};
use crate::spi::{spi_reply, CMD_SPI_READ};
use crate::text::{parse_number, split_str};
use crate::timer::Timer;

verus! {

/// First byte of an output report, host to device.
pub const HID_SET_REPORT: u8 = 0xA2;

/// Length below which a packet is no output report.
pub const OUTPUT_REPORT_LEN: usize = 50;

/// Position of the subcommand in a packet: offset ten of the output report,
/// which follows the HID_SET_REPORT byte.
pub const SUBCOMMAND_AT: usize = 11;

pub const CMD_DEVICE_INFO: u8 = 0x02;

pub const CMD_SET_MODE: u8 = 0x03;

pub const CMD_TRIGGER_BUTTONS: u8 = 0x04;

pub const CMD_SET_SHIPMENT: u8 = 0x08;

pub const CMD_SET_NFC_IR_CONFIG: u8 = 0x21;

pub const CMD_SET_NFC_IR_STATE: u8 = 0x22;

pub const CMD_SET_PLAYER: u8 = 0x30;

pub const CMD_TOGGLE_IMU: u8 = 0x40;

pub const CMD_ENABLE_VIBRATION: u8 = 0x48;

/// The six bytes of an adapter address written as colon-separated hexadecimal
/// numbers. A part that is missing, malformed or over one byte counts as zero,
/// and parts past the sixth are ignored.
pub open spec fn address_of(text: Seq<char>) -> Seq<u8> {
    let parts = crate::text::split_on(text, seq![':']);
    Seq::new(
        6,
        |i: int|
            if i < parts.len() {
                match crate::text::number_of(parts[i], 16, 255) {
                    Some(byte) => byte as u8,
                    None => 0u8,
                }
            } else {
                0u8
            },
    )
}

/// Reads an adapter address.
pub fn parse_address(text: &str) -> (address: [u8; 6])
    ensures
        address@ == address_of(text@),
{
    proof {
        reveal_strlit(":");
        assert(":"@ =~= seq![':']);
    }
    let parts = split_str(text, ":");
    let ghost split = crate::text::split_on(text@, seq![':']);
    assert(crate::text::views(parts@).len() == parts@.len());
    let mut address = [0u8; 6];
    let mut i: usize = 0;
    while i < 6 && i < parts.len()
        invariant
            i <= 6,
            i <= parts@.len(),
            split == crate::text::split_on(text@, seq![':']),
            crate::text::views(parts@) == split,
            split.len() == parts@.len(),
            forall|k: int| 0 <= k < i ==> address@[k] == address_of(text@)[k],
            forall|k: int| i <= k < 6 ==> address@[k] == 0,
        decreases 6 - i,
    {
        assert(split[i as int] == parts@[i as int]@);
        match parse_number(parts[i], 16, 255) {
            Some(byte) => {
                address[i] = byte as u8;
            },
            None => {
                address[i] = 0;
            },
        }
        i = i + 1;
    }
    assert(address@ =~= address_of(text@));
    address
}

/// The body colour of the controller at an address: the hue is the sum of the
/// last three bytes, so that controllers side by side look different.
pub open spec fn body_color_of(address: Seq<u8>) -> Seq<u8> {
    crate::color::hue_color(((address[3] + address[4] + address[5]) % 256) as u8)
}

/// Controllers look different: two addresses whose last three bytes add up to
/// different hues have different body colours.
pub proof fn law_controllers_look_different(a: Seq<u8>, b: Seq<u8>)
    requires
        (a[3] + a[4] + a[5]) % 256 != (b[3] + b[4] + b[5]) % 256,
    ensures
        body_color_of(a) != body_color_of(b),
{
    crate::color::law_hues_distinct(
        ((a[3] + a[4] + a[5]) % 256) as u8,
        ((b[3] + b[4] + b[5]) % 256) as u8,
    );
}

/// A received packet as a sequence of bytes.
pub open spec fn packet(pkt: Option<&[u8]>) -> Option<Seq<u8>> {
    match pkt {
        Some(bytes) => Some(bytes@),
        None => None,
    }
}

/// The subcommand of a packet with its arguments. Nothing, or a packet that is
/// too short or no output report, carries none.
pub open spec fn subcommand_of(pkt: Option<Seq<u8>>) -> Option<Seq<u8>> {
    match pkt {
        Some(bytes) if bytes.len() >= OUTPUT_REPORT_LEN && bytes[0] == HID_SET_REPORT => Some(
            bytes.skip(SUBCOMMAND_AT as int),
        ),
        _ => None,
    }
}

/// Whether the packet carries the subcommand `id`.
pub open spec fn asks(pkt: Option<Seq<u8>>, id: u8) -> bool {
    subcommand_of(pkt) matches Some(sub) && sub[0] == id
}

/// What a device info reply carries: acknowledgement, firmware version,
/// controller type, address, and where the colours are kept.
pub open spec fn device_info_payload(address: Seq<u8>) -> Seq<u8> {
    seq![0x82u8, CMD_DEVICE_INFO, 0x03u8, 0x8Bu8, 0x03u8, 0x02u8] + address + seq![0x01u8, 0x01u8]
}

/// What an NFC/IR config reply carries: there is no such unit. It fills the
/// report to its last byte, which the console checks.
pub open spec fn nfc_ir_payload() -> Seq<u8> {
    crate::report::padded(
        seq![
            0xA0u8,
            CMD_SET_NFC_IR_CONFIG,
            0x01u8,
            0x00u8,
            0xFFu8,
            0x00u8,
            0x08u8,
            0x00u8,
            0x1Bu8,
            0x01u8,
        ],
        35,
    ) + seq![0xC8u8]
}

/// The reply to a subcommand, from the acknowledgement byte on, by a
/// controller with the given address and body colour. A subcommand that asks
/// for nothing in particular, or is not known, is simply acknowledged.
pub open spec fn reply_payload(sub: Seq<u8>, address: Seq<u8>, color: Seq<u8>) -> Seq<u8> {
    let id = sub[0];
    if id == CMD_DEVICE_INFO {
        device_info_payload(address)
    } else if id == CMD_SPI_READ {
        crate::spi::spi_payload(sub[1], sub[2], sub[5], color)
    } else if id == CMD_SET_NFC_IR_CONFIG {
        nfc_ir_payload()
    } else if id == CMD_ENABLE_VIBRATION {
        seq![0x82u8, id]
    } else if id == CMD_TRIGGER_BUTTONS {
        seq![0x83u8, id]
    } else {
        seq![0x80u8, id]
    }
}

/// The report that answers a packet: a subcommand reply if it carries a
/// subcommand, and else an input report with nothing pressed, for the console
/// expects reports to keep flowing.
pub open spec fn answer(
    pkt: Option<Seq<u8>>,
    address: Seq<u8>,
    color: Seq<u8>,
    stamp: u8,
    vib: u8,
) -> Seq<u8> {
    match subcommand_of(pkt) {
        Some(sub) => crate::report::report_bytes(
            REPORT_REPLY,
            stamp,
            crate::report::no_buttons(),
            vib,
            reply_payload(sub, address, color),
        ),
        None => crate::report::report_bytes(
            crate::report::REPORT_INPUT,
            stamp,
            crate::report::no_buttons(),
            vib,
            Seq::empty(),
        ),
    }
}

/// The player slot that a light pattern stands for, solid or blinking.
pub open spec fn player_of(bits: u8) -> Option<u8> {
    if bits == 0x01 || bits == 0x10 {
        Some(1)
    } else if bits == 0x03 || bits == 0x30 {
        Some(2)
    } else if bits == 0x07 || bits == 0x70 {
        Some(3)
    } else if bits == 0x0F || bits == 0xF0 {
        Some(4)
    } else {
        None
    }
}

/// Whether vibration is on after a packet.
pub open spec fn vibration_after(enabled: bool, pkt: Option<Seq<u8>>) -> bool {
    enabled || asks(pkt, CMD_ENABLE_VIBRATION)
}

/// The player slot after a packet.
pub open spec fn player_after(player: Option<u8>, pkt: Option<Seq<u8>>) -> Option<u8> {
    if asks(pkt, CMD_SET_PLAYER) {
        player_of(subcommand_of(pkt)->0[1])
    } else {
        player
    }
}

/// State of the pairing handshake.
pub struct Handshake {
    bt_addr: [u8; 6],
    body_color: [u8; 3],
    timer: Timer,
    /// Set once the console has enabled vibration.
    pub vibration_enabled: bool,
    /// The slot that the player lights encode, once the console has set them.
    pub player_number: Option<u8>,
}

impl Handshake {
    /// The adapter address reported to the console.
    pub closed spec fn address(&self) -> Seq<u8> {
        self.bt_addr@
    }

    /// The body colour reported to the console.
    pub closed spec fn color(&self) -> Seq<u8> {
        self.body_color@
    }

    /// The timer behind the reports of the handshake.
    pub closed spec fn report_timer(&self) -> Timer {
        self.timer
    }

    /// Whether vibration is on.
    pub closed spec fn vibration(&self) -> bool {
        self.vibration_enabled
    }

    /// The player slot, once assigned.
    pub closed spec fn player(&self) -> Option<u8> {
        self.player_number
    }

    pub open spec fn wf(&self) -> bool {
        &&& self.report_timer().wf()
        &&& self.address().len() == 6
        &&& self.color().len() == 3
    }

    /// Vibration is on and a player slot is assigned.
    pub open spec fn complete(&self) -> bool {
        self.vibration() && self.player() is Some
    }

    /// The handshake of the adapter with the given address.
    pub fn new(bt_addr_str: &str) -> (hs: Handshake)
        ensures
            hs.wf(),
            hs.address() == address_of(bt_addr_str@),
            hs.color() == body_color_of(address_of(bt_addr_str@)),
            hs.report_timer().stamp() == 0,
            hs.report_timer().last_tick() is None,
            hs.report_timer().phase() == 0,
            !hs.vibration(),
            hs.player() is None,
    {
        let bt_addr = parse_address(bt_addr_str);
        let hue: u8 = bt_addr[3].wrapping_add(bt_addr[4]).wrapping_add(bt_addr[5]);
        let body_color = hue_to_rgb(hue);
        Handshake {
            bt_addr,
            body_color,
            timer: Timer::new(),
            vibration_enabled: false,
            player_number: None,
        }
    }

    /// Whether vibration is on and a player slot is assigned.
    pub fn is_complete(&self) -> (complete: bool)
        ensures
            complete == self.complete(),
            complete == (self.vibration() && self.player() is Some),
    {
        self.vibration_enabled && self.player_number.is_some()
    }

    /// The player slot, once assigned.
    pub fn assigned_player(&self) -> (player: Option<u8>)
        ensures
            player == self.player(),
    {
        self.player_number
    }

    /// Takes a packet, or nothing for the report that opens a connection, and
    /// gives the report to send back.
    pub fn process(&mut self, pkt: Option<&[u8]>) -> (r: [u8; 50])
        requires
            old(self).wf(),
        ensures
            final(self).wf(),
            r@ == answer(
                packet(pkt),
                old(self).address(),
                old(self).color(),
                final(self).report_timer().stamp(),
                crate::timer::vib_byte(old(self).report_timer().phase()),
            ),
            crate::report::reported(old(self).report_timer(), final(self).report_timer()),
            final(self).vibration() == vibration_after(old(self).vibration(), packet(pkt)),
            final(self).player() == player_after(old(self).player(), packet(pkt)),
            final(self).address() == old(self).address(),
            final(self).color() == old(self).color(),
    {
        let data: &[u8] = match pkt {
            None => {
                return idle_report(&mut self.timer);
            },
            Some(bytes) => {
                if bytes.len() < OUTPUT_REPORT_LEN || bytes[0] != HID_SET_REPORT {
                    return idle_report(&mut self.timer);
                }
                bytes
            },
        };
        let sub = vstd::slice::slice_subrange(data, SUBCOMMAND_AT, data.len());
        assert(sub@ =~= data@.skip(SUBCOMMAND_AT as int));
        match sub[0] {
            CMD_DEVICE_INFO => self.reply_device_info(),
            CMD_SET_SHIPMENT => self.reply_ack(0x80, CMD_SET_SHIPMENT),
            CMD_SPI_READ => {
                let r = self.reply_base();
                let r = spi_reply(r, sub, &self.body_color);
                assert(r@ =~= answer(
                    packet(pkt),
                    old(self).address(),
                    old(self).color(),
                    self.timer.stamp(),
                    crate::timer::vib_byte(old(self).timer.phase()),
                ));
                r
            },
            CMD_SET_MODE => self.reply_ack(0x80, CMD_SET_MODE),
            CMD_TRIGGER_BUTTONS => self.reply_ack(0x83, CMD_TRIGGER_BUTTONS),
            CMD_TOGGLE_IMU => self.reply_ack(0x80, CMD_TOGGLE_IMU),
            CMD_ENABLE_VIBRATION => {
                self.vibration_enabled = true;
                self.reply_ack(0x82, CMD_ENABLE_VIBRATION)
            },
            CMD_SET_PLAYER => {
                self.set_player(sub[1]);
                self.reply_ack(0x80, CMD_SET_PLAYER)
            },
            CMD_SET_NFC_IR_STATE => self.reply_ack(0x80, CMD_SET_NFC_IR_STATE),
            CMD_SET_NFC_IR_CONFIG => self.reply_nfc_ir_config(),
            id => self.reply_ack(0x80, id),
        }
    }

    /// The part of the state that building a reply leaves alone.
    pub open spec fn same_but_timer(&self, other: &Handshake) -> bool {
        &&& self.address() == other.address()
        &&& self.color() == other.color()
        &&& self.vibration() == other.vibration()
        &&& self.player() == other.player()
    }

    /// `r` is a subcommand reply with the given payload, built between the two
    /// states.
    pub open spec fn replied(before: Handshake, after: Handshake, r: Seq<u8>, payload: Seq<u8>) -> bool {
        &&& after.wf()
        &&& after.same_but_timer(&before)
        &&& crate::report::reported(before.report_timer(), after.report_timer())
        &&& r == crate::report::report_bytes(
            REPORT_REPLY,
            after.report_timer().stamp(),
            crate::report::no_buttons(),
            crate::timer::vib_byte(before.report_timer().phase()),
            payload,
        )
    }

    /// A subcommand reply with nothing behind the header.
    pub fn reply_base(&mut self) -> (r: [u8; 50])
        requires
            old(self).wf(),
        ensures
            Self::replied(*old(self), *final(self), r@, Seq::empty()),
    {
        let mut r = make_report();
        r[1] = REPORT_REPLY;
        fill_standard(&mut r, &mut self.timer);
        assert(r@ =~= crate::report::report_bytes(
            REPORT_REPLY,
            self.timer.stamp(),
            crate::report::no_buttons(),
            crate::timer::vib_byte(old(self).timer.phase()),
            Seq::empty(),
        ));
        r
    }

    /// An acknowledgement that echoes the subcommand.
    pub fn reply_ack(&mut self, ack: u8, sub: u8) -> (r: [u8; 50])
        requires
            old(self).wf(),
        ensures
            Self::replied(*old(self), *final(self), r@, seq![ack, sub]),
    {
        let mut r = self.reply_base();
        r[14] = ack;
        r[15] = sub;
        assert(r@ =~= crate::report::report_bytes(
            REPORT_REPLY,
            self.timer.stamp(),
            crate::report::no_buttons(),
            crate::timer::vib_byte(old(self).timer.phase()),
            seq![ack, sub],
        ));
        r
    }

    /// Firmware version, controller type and address, which the console needs
    /// before it goes on with the handshake.
    pub fn reply_device_info(&mut self) -> (r: [u8; 50])
        requires
            old(self).wf(),
        ensures
            Self::replied(
                *old(self),
                *final(self),
                r@,
                device_info_payload(old(self).address()),
            ),
    {
        let mut r = self.reply_base();
        put(&mut r, 14, &[0x82, CMD_DEVICE_INFO, 0x03, 0x8B, 0x03, 0x02]);
        put(&mut r, 20, &self.bt_addr);
        r[26] = 0x01;
        r[27] = 0x01;
        assert(r@ =~= crate::report::report_bytes(
            REPORT_REPLY,
            self.timer.stamp(),
            crate::report::no_buttons(),
            crate::timer::vib_byte(old(self).timer.phase()),
            device_info_payload(old(self).address()),
        ));
        r
    }

    /// Tells the console that there is no NFC/IR unit; it asks every controller.
    pub fn reply_nfc_ir_config(&mut self) -> (r: [u8; 50])
        requires
            old(self).wf(),
        ensures
            Self::replied(*old(self), *final(self), r@, nfc_ir_payload()),
    {
        let mut r = self.reply_base();
        r[14] = 0xA0;
        r[15] = CMD_SET_NFC_IR_CONFIG;
        put(&mut r, 16, &[0x01, 0x00, 0xFF, 0x00, 0x08, 0x00, 0x1B, 0x01]);
        r[49] = 0xC8;
        assert(r@ =~= crate::report::report_bytes(
            REPORT_REPLY,
            self.timer.stamp(),
            crate::report::no_buttons(),
            crate::timer::vib_byte(old(self).timer.phase()),
            nfc_ir_payload(),
        ));
        r
    }

    /// Takes over the player slot from a light pattern.
    pub fn set_player(&mut self, bits: u8)
        ensures
            final(self).player() == player_of(bits),
            final(self).vibration() == old(self).vibration(),
            final(self).address() == old(self).address(),
            final(self).color() == old(self).color(),
            final(self).report_timer() == old(self).report_timer(),
    {
        self.player_number = match bits {
            0x01 | 0x10 => Some(1),
            0x03 | 0x30 => Some(2),
            0x07 | 0x70 => Some(3),
            0x0F | 0xF0 => Some(4),
            _ => None,
        };
    }
}

/// A subcommand reply acknowledges the very subcommand that was asked, and its
/// payload fits behind the report header.
pub proof fn law_reply_echoes_subcommand(sub: Seq<u8>, address: Seq<u8>, color: Seq<u8>)
    requires
        address.len() == 6,
        color.len() == 3,
    ensures
        reply_payload(sub, address, color)[1] == sub[0],
        2 <= reply_payload(sub, address, color).len() <= 36,
{
}

/// Whatever arrives, the answer is a fifty-byte HID DATA report with the
/// standard fields: a subcommand reply if the packet carries a subcommand,
/// whichever it is, and an input report in all other cases.
pub proof fn law_answer_well_formed(
    pkt: Option<Seq<u8>>,
    address: Seq<u8>,
    color: Seq<u8>,
    stamp: u8,
    vib: u8,
)
    requires
        address.len() == 6,
        color.len() == 3,
    ensures
        answer(pkt, address, color, stamp, vib).len() == 50,
        answer(pkt, address, color, stamp, vib)[0] == 0xA1,
        answer(pkt, address, color, stamp, vib)[1] == (if subcommand_of(pkt) is Some {
            REPORT_REPLY
        } else {
            crate::report::REPORT_INPUT
        }),
        answer(pkt, address, color, stamp, vib)[2] == stamp,
        answer(pkt, address, color, stamp, vib)[13] == vib,
{
    if let Some(sub) = subcommand_of(pkt) {
        law_reply_echoes_subcommand(sub, address, color);
    }
}

/// Nothing, a packet that is too short, and a packet that is no output report
/// all lead to a bare input report and leave the handshake where it is.
pub proof fn law_other_packets_change_nothing(
    pkt: Option<Seq<u8>>,
    address: Seq<u8>,
    color: Seq<u8>,
    stamp: u8,
    vib: u8,
    enabled: bool,
    player: Option<u8>,
)
    requires
        pkt matches Some(bytes) ==> bytes.len() < OUTPUT_REPORT_LEN || bytes[0] != HID_SET_REPORT,
    ensures
        answer(pkt, address, color, stamp, vib) == crate::report::report_bytes(
            crate::report::REPORT_INPUT,
            stamp,
            crate::report::no_buttons(),
            vib,
            Seq::empty(),
        ),
        vibration_after(enabled, pkt) == enabled,
        player_after(player, pkt) == player,
{
}

/// A subcommand other than those that enable vibration or set the player
/// lights, known or not, is answered with a subcommand reply and leaves the
/// handshake where it is.
pub proof fn law_other_subcommands_only_replied(
    pkt: Option<Seq<u8>>,
    address: Seq<u8>,
    color: Seq<u8>,
    stamp: u8,
    vib: u8,
    enabled: bool,
    player: Option<u8>,
)
    requires
        subcommand_of(pkt) is Some,
        !asks(pkt, CMD_ENABLE_VIBRATION),
        !asks(pkt, CMD_SET_PLAYER),
        address.len() == 6,
        color.len() == 3,
    ensures
        answer(pkt, address, color, stamp, vib)[0] == 0xA1,
        answer(pkt, address, color, stamp, vib)[1] == REPORT_REPLY,
        answer(pkt, address, color, stamp, vib)[15] == subcommand_of(pkt)->0[0],
        vibration_after(enabled, pkt) == enabled,
        player_after(player, pkt) == player,
{
    law_reply_echoes_subcommand(subcommand_of(pkt)->0, address, color);
}

/// The order does not matter: whichever comes first, once vibration has been
/// enabled and a player slot assigned the handshake is complete.
pub proof fn law_completion_in_any_order(
    enabled: bool,
    player: Option<u8>,
    vibration: Option<Seq<u8>>,
    lights: Option<Seq<u8>>,
)
    requires
        asks(vibration, CMD_ENABLE_VIBRATION),
        asks(lights, CMD_SET_PLAYER),
        player_of(subcommand_of(lights)->0[1]) is Some,
    ensures
        vibration_after(vibration_after(enabled, vibration), lights),
        player_after(player_after(player, vibration), lights) is Some,
        vibration_after(vibration_after(enabled, lights), vibration),
        player_after(player_after(player, lights), vibration) is Some,
        player_after(player_after(player, vibration), lights) == player_after(
            player_after(player, lights),
            vibration,
        ),
{
}

/// A complete handshake stays complete, whatever arrives, but for player
/// lights whose pattern stands for no slot.
pub proof fn law_completion_lasts(player: Option<u8>, pkt: Option<Seq<u8>>)
    requires
        player is Some,
        asks(pkt, CMD_SET_PLAYER) ==> player_of(subcommand_of(pkt)->0[1]) is Some,
    ensures
        vibration_after(true, pkt),
        player_after(player, pkt) is Some,
{
}

/// Whether vibration is on after a new handshake has seen these packets.
pub open spec fn vibration_history(pkts: Seq<Option<Seq<u8>>>) -> bool
    decreases pkts.len(),
{
    pkts.len() > 0 && vibration_after(vibration_history(pkts.drop_last()), pkts.last())
}

/// The player slot after a new handshake has seen these packets.
pub open spec fn player_history(pkts: Seq<Option<Seq<u8>>>) -> Option<u8>
    decreases pkts.len(),
{
    if pkts.len() == 0 {
        None
    } else {
        player_after(player_history(pkts.drop_last()), pkts.last())
    }
}

/// Vibration is on exactly if some packet enabled it.
pub proof fn law_vibration_history(pkts: Seq<Option<Seq<u8>>>)
    ensures
        vibration_history(pkts) <==> exists|i: int|
            0 <= i < pkts.len() && asks(#[trigger] pkts[i], CMD_ENABLE_VIBRATION),
    decreases pkts.len(),
{
    if pkts.len() > 0 {
        let init = pkts.drop_last();
        law_vibration_history(init);
        if vibration_history(init) {
            let i = choose|i: int|
                0 <= i < init.len() && asks(#[trigger] init[i], CMD_ENABLE_VIBRATION);
            assert(asks(pkts[i], CMD_ENABLE_VIBRATION));
        }
        if exists|i: int| 0 <= i < pkts.len() && asks(#[trigger] pkts[i], CMD_ENABLE_VIBRATION) {
            let i = choose|i: int|
                0 <= i < pkts.len() && asks(#[trigger] pkts[i], CMD_ENABLE_VIBRATION);
            if i < init.len() {
                assert(asks(init[i], CMD_ENABLE_VIBRATION));
            }
        }
    }
}

/// The player slot is the one that the latest player lights encode.
pub proof fn law_player_history(pkts: Seq<Option<Seq<u8>>>, latest: int)
    requires
        0 <= latest < pkts.len(),
        asks(pkts[latest], CMD_SET_PLAYER),
        forall|i: int| latest < i < pkts.len() ==> !asks(#[trigger] pkts[i], CMD_SET_PLAYER),
    ensures
        player_history(pkts) == player_of(subcommand_of(pkts[latest])->0[1]),
    decreases pkts.len(),
{
    let init = pkts.drop_last();
    if latest < init.len() {
        assert(!asks(pkts[pkts.len() - 1], CMD_SET_PLAYER));
        assert forall|i: int| latest < i < init.len() implies !asks(
            #[trigger] init[i],
            CMD_SET_PLAYER,
        ) by {
            assert(!asks(pkts[i], CMD_SET_PLAYER));
        }
        law_player_history(init, latest);
    }
}

/// Without player lights there is no player slot.
pub proof fn law_no_lights_no_player(pkts: Seq<Option<Seq<u8>>>)
    requires
        forall|i: int| 0 <= i < pkts.len() ==> !asks(#[trigger] pkts[i], CMD_SET_PLAYER),
    ensures
        player_history(pkts) is None,
    decreases pkts.len(),
{
    if pkts.len() > 0 {
        let init = pkts.drop_last();
        assert(!asks(pkts[pkts.len() - 1], CMD_SET_PLAYER));
        assert forall|i: int| 0 <= i < init.len() implies !asks(
            #[trigger] init[i],
            CMD_SET_PLAYER,
        ) by {
            assert(!asks(pkts[i], CMD_SET_PLAYER));
        }
        law_no_lights_no_player(init);
    }
}

/// A hexadecimal digit in upper case.
pub open spec fn hex_digit(value: u8) -> char {
    seq!['0', '1', '2', '3', '4', '5', '6', '7', '8', '9', 'A', 'B', 'C', 'D', 'E', 'F'][value as int]
}

/// A hexadecimal digit in lower case.
pub open spec fn hex_digit_lower(value: u8) -> char {
    seq!['0', '1', '2', '3', '4', '5', '6', '7', '8', '9', 'a', 'b', 'c', 'd', 'e', 'f'][value as int]
}

/// `pair` writes `byte` as two hexadecimal digits, each in either case.
pub open spec fn writes_byte(pair: Seq<char>, byte: u8) -> bool {
    &&& pair.len() == 2
    &&& pair[0] == hex_digit(byte / 16) || pair[0] == hex_digit_lower(byte / 16)
    &&& pair[1] == hex_digit(byte % 16) || pair[1] == hex_digit_lower(byte % 16)
}

/// Two hexadecimal digits are read as the byte that they write.
proof fn lemma_pair_read(pair: Seq<char>, byte: u8)
    requires
        writes_byte(pair, byte),
    ensures
        crate::text::number_of(pair, 16, 255) == Some(byte as int),
        !pair.contains(':'),
{
    let high = byte / 16;
    let low = byte % 16;
    assert(pair.drop_last() =~= seq![pair[0]]);
    assert(pair.drop_last().drop_last() =~= Seq::<char>::empty());
    reveal_with_fuel(crate::text::digits_value, 3);
    assert(crate::text::digit_of(pair[0], 16) == Some(high as int));
    assert(crate::text::digit_of(pair[1], 16) == Some(low as int));
    assert(pair[0] != '+');
    assert(pair[0] != ':' && pair[1] != ':');
}

/// Six pairs of hexadecimal digits, in either case, are read as the bytes that
/// they write, and whatever follows behind a further colon is ignored.
pub proof fn law_address_read(pairs: Seq<Seq<char>>, tail: Seq<char>, bytes: Seq<u8>)
    requires
        bytes.len() == 6,
        pairs.len() == 6,
        forall|i: int| 0 <= i < 6 ==> writes_byte(#[trigger] pairs[i], bytes[i]),
    ensures
        address_of(crate::text::joined(pairs, ':')) == bytes,
        address_of(crate::text::joined(pairs, ':') + seq![':'] + tail) == bytes,
{
    assert forall|i: int| 0 <= i < 6 implies crate::text::number_of(#[trigger] pairs[i], 16, 255)
        == Some(bytes[i] as int) && !pairs[i].contains(':') by {
        lemma_pair_read(pairs[i], bytes[i]);
    }
    crate::text::lemma_split_joined(pairs, ':');
    crate::text::lemma_split_joined_tail(pairs, ':', tail);
    let split = pairs + crate::text::split_on(tail, seq![':']);
    assert forall|i: int| 0 <= i < 6 implies #[trigger] split[i] == pairs[i] by {}
    assert(address_of(crate::text::joined(pairs, ':')) =~= bytes);
    assert(address_of(crate::text::joined(pairs, ':') + seq![':'] + tail) =~= bytes);
}

/// Bytes written as pairs of upper-case hexadecimal digits with colons between
/// them.
pub open spec fn written_address(bytes: Seq<u8>) -> Seq<char> {
    crate::text::joined(
        bytes.map_values(|byte: u8| seq![hex_digit(byte / 16), hex_digit(byte % 16)]),
        ':',
    )
}

/// An address in the usual notation is read as the very bytes that were
/// written.
pub proof fn law_address_round_trip(bytes: Seq<u8>)
    requires
        bytes.len() == 6,
    ensures
        address_of(written_address(bytes)) == bytes,
{
    let pairs = bytes.map_values(|byte: u8| seq![hex_digit(byte / 16), hex_digit(byte % 16)]);
    law_address_read(pairs, Seq::empty(), bytes);
}

/// The address of any text, part by part: each of the first six parts between
/// colons that is a hexadecimal number of one byte gives that byte, and a part
/// that is none, or is not there, gives zero.
pub proof fn law_address_part_by_part(parts: Seq<Seq<char>>, i: int)
    requires
        parts.len() > 0,
        forall|k: int| 0 <= k < parts.len() ==> !(#[trigger] parts[k]).contains(':'),
        0 <= i < 6,
    ensures
        address_of(crate::text::rejoined(parts, seq![':'])).len() == 6,
        i >= parts.len() ==> address_of(crate::text::rejoined(parts, seq![':']))[i] == 0,
        i < parts.len() && crate::text::number_of(parts[i], 16, 255) is Some ==> address_of(
            crate::text::rejoined(parts, seq![':']),
        )[i] == crate::text::number_of(parts[i], 16, 255)->0,
        i < parts.len() && crate::text::number_of(parts[i], 16, 255) is None ==> address_of(
            crate::text::rejoined(parts, seq![':']),
        )[i] == 0,
{
    lemma_rejoined_is_joined(parts);
    crate::text::lemma_split_joined(parts, ':');
    if i < parts.len() && crate::text::number_of(parts[i], 16, 255) is Some {
        crate::text::lemma_number_not_negative(parts[i], 16, 255);
    }
}

proof fn lemma_rejoined_is_joined(parts: Seq<Seq<char>>)
    ensures
        crate::text::rejoined(parts, seq![':']) == crate::text::joined(parts, ':'),
    decreases parts.len(),
{
    if parts.len() > 1 {
        lemma_rejoined_is_joined(parts.drop_first());
    }
}

/// The body colour of an address depends on the sum of its last three bytes, and
/// is the colour of that hue.
pub proof fn law_body_color_is_a_hue(address: Seq<u8>, hue: u8)
    requires
        address.len() == 6,
        (address[3] + address[4] + address[5]) % 256 == hue,
    ensures
        body_color_of(address) == crate::color::hue_color(hue),
{
}

/// Every output report long enough to carry a subcommand gets a subcommand
/// reply, whatever the subcommand and whatever else is in the packet: header,
/// timestamp, no buttons, sticks at rest, vibration byte, and the subcommand
/// echoed behind its acknowledgement.
pub proof fn law_every_subcommand_is_answered(
    bytes: Seq<u8>,
    address: Seq<u8>,
    color: Seq<u8>,
    stamp: u8,
    vib: u8,
)
    requires
        bytes.len() >= 50,
        bytes[0] == 0xA2,
        address.len() == 6,
        color.len() == 3,
    ensures
        answer(Some(bytes), address, color, stamp, vib).len() == 50,
        answer(Some(bytes), address, color, stamp, vib).take(14) == seq![
            0xA1u8, 0x21, stamp, 0x90, 0, 0, 0, 0x6F, 0xC8, 0x77, 0x16, 0xD8, 0x7D, vib,
        ],
        answer(Some(bytes), address, color, stamp, vib)[15] == bytes[11],
{
    law_reply_echoes_subcommand(bytes.skip(11), address, color);
}

/// In all other cases, which are no packet, a short one, and one of another
/// kind, the answer is an input report with nothing pressed.
pub proof fn law_anything_else_gets_an_input_report(
    pkt: Option<Seq<u8>>,
    address: Seq<u8>,
    color: Seq<u8>,
    stamp: u8,
    vib: u8,
)
    requires
        pkt matches Some(bytes) ==> bytes.len() < 50 || bytes[0] != 0xA2,
    ensures
        answer(pkt, address, color, stamp, vib).len() == 50,
        answer(pkt, address, color, stamp, vib).take(14) == seq![
            0xA1u8, 0x30, stamp, 0x90, 0, 0, 0, 0x6F, 0xC8, 0x77, 0x16, 0xD8, 0x7D, vib,
        ],
        forall|i: int| 14 <= i < 50 ==> answer(pkt, address, color, stamp, vib)[i] == 0,
{
}

/// A request for device info is told the firmware version, the controller type
/// and the adapter's own address, byte for byte as it is.
pub proof fn law_device_info_gives_the_address(
    bytes: Seq<u8>,
    address: Seq<u8>,
    color: Seq<u8>,
    stamp: u8,
    vib: u8,
)
    requires
        bytes.len() >= 50,
        bytes[0] == 0xA2,
        bytes[11] == 0x02,
        address.len() == 6,
    ensures
        answer(Some(bytes), address, color, stamp, vib).len() == 50,
        answer(Some(bytes), address, color, stamp, vib)[1] == 0x21,
        answer(Some(bytes), address, color, stamp, vib).subrange(14, 20) == seq![
            0x82u8, 0x02, 0x03, 0x8B, 0x03, 0x02,
        ],
        answer(Some(bytes), address, color, stamp, vib).subrange(20, 26) == address,
        answer(Some(bytes), address, color, stamp, vib).subrange(26, 28) == seq![0x01u8, 0x01],
        forall|i: int|
            28 <= i < 50 ==> answer(Some(bytes), address, color, stamp, vib)[i] == 0,
{
}

/// A request to set up the NFC/IR unit is told that there is none, to the last
/// byte of the report.
pub proof fn law_nfc_ir_config_reply(
    bytes: Seq<u8>,
    address: Seq<u8>,
    color: Seq<u8>,
    stamp: u8,
    vib: u8,
)
    requires
        bytes.len() >= 50,
        bytes[0] == 0xA2,
        bytes[11] == 0x21,
    ensures
        answer(Some(bytes), address, color, stamp, vib).len() == 50,
        answer(Some(bytes), address, color, stamp, vib)[1] == 0x21,
        answer(Some(bytes), address, color, stamp, vib).subrange(14, 24) == seq![
            0xA0u8, 0x21, 0x01, 0x00, 0xFF, 0x00, 0x08, 0x00, 0x1B, 0x01,
        ],
        forall|i: int|
            24 <= i < 49 ==> answer(Some(bytes), address, color, stamp, vib)[i] == 0,
        answer(Some(bytes), address, color, stamp, vib)[49] == 0xC8,
{
}

/// A request to read the flash is answered with the flash's bytes at the address
/// and for the length in the packet, and zeros behind them.
pub proof fn law_flash_read_reply(
    bytes: Seq<u8>,
    address: Seq<u8>,
    color: Seq<u8>,
    stamp: u8,
    vib: u8,
)
    requires
        bytes.len() >= 50,
        bytes[0] == 0xA2,
        bytes[11] == 0x10,
        color.len() == 3,
    ensures
        ({
            let contents = crate::spi::spi_payload(bytes[12], bytes[13], bytes[16], color);
            let r = answer(Some(bytes), address, color, stamp, vib);
            &&& contents.len() <= 32
            &&& r.len() == 50
            &&& r[1] == 0x21
            &&& r.subrange(14, 21) == seq![
                0x90u8, 0x10, bytes[12], bytes[13], 0, 0, bytes[16],
            ]
            &&& r.subrange(14, (14 + contents.len()) as int) == contents
            &&& forall|i: int| 14 + contents.len() <= i < 50 ==> r[i] == 0
        }),
{
    crate::spi::law_flash_contents(bytes[12], bytes[13], bytes[16], color);
    let contents = crate::spi::spi_payload(bytes[12], bytes[13], bytes[16], color);
    let r = answer(Some(bytes), address, color, stamp, vib);
    assert(r.subrange(14, (14 + contents.len()) as int) =~= contents);
    assert(r.subrange(14, 21) =~= contents.take(7));
}

/// Every other subcommand is acknowledged and nothing more. The acknowledgement
/// tells apart the elapsed times of the trigger buttons and the vibration.
pub proof fn law_other_subcommands_acknowledged(
    bytes: Seq<u8>,
    address: Seq<u8>,
    color: Seq<u8>,
    stamp: u8,
    vib: u8,
)
    requires
        bytes.len() >= 50,
        bytes[0] == 0xA2,
        bytes[11] != 0x02 && bytes[11] != 0x10 && bytes[11] != 0x21,
    ensures
        answer(Some(bytes), address, color, stamp, vib).len() == 50,
        answer(Some(bytes), address, color, stamp, vib)[1] == 0x21,
        answer(Some(bytes), address, color, stamp, vib)[14] == (if bytes[11] == 0x48 {
            0x82u8
        } else if bytes[11] == 0x04 {
            0x83u8
        } else {
            0x80u8
        }),
        answer(Some(bytes), address, color, stamp, vib)[15] == bytes[11],
        forall|i: int|
            16 <= i < 50 ==> answer(Some(bytes), address, color, stamp, vib)[i] == 0,
{
}

/// The reply that a handshake builds has its payload behind the header, and
/// costs it one step of its timer and nothing else.
pub proof fn law_reply_carries_payload(
    before: Handshake,
    after: Handshake,
    r: Seq<u8>,
    payload: Seq<u8>,
)
    requires
        before.wf(),
        Handshake::replied(before, after, r, payload),
        payload.len() <= 36,
    ensures
        r.len() == 50,
        r.take(13) == seq![
            0xA1u8, 0x21, after.report_timer().stamp(), 0x90, 0, 0, 0, 0x6F, 0xC8, 0x77, 0x16, 0xD8,
            0x7D,
        ],
        r[13] == crate::timer::vib_byte(before.report_timer().phase()),
        r.subrange(14, (14 + payload.len()) as int) == payload,
        forall|i: int| 14 + payload.len() <= i < 50 ==> r[i] == 0,
        after.address() == before.address(),
        after.color() == before.color(),
        after.vibration() == before.vibration(),
        after.player() == before.player(),
        after.report_timer().phase() == (before.report_timer().phase() + 1) % 4,
{
    assert(r.subrange(14, (14 + payload.len()) as int) =~= payload);
}

/// The slot is the number of lights that are on, solid in the low half of the
/// pattern or blinking in the high half. Any other pattern stands for no slot.
pub proof fn law_slot_is_the_number_of_lights(bits: u8)
    ensures
        player_of(bits) == Some(1u8) <==> bits == 0x01 || bits == 0x10,
        player_of(bits) == Some(2u8) <==> bits == 0x03 || bits == 0x30,
        player_of(bits) == Some(3u8) <==> bits == 0x07 || bits == 0x70,
        player_of(bits) == Some(4u8) <==> bits == 0x0F || bits == 0xF0,
        player_of(bits) matches Some(slot) ==> 1 <= slot <= 4,
{
}

/// The packet is an output report with the subcommand `id` in its place.
pub open spec fn carries(pkt: Option<Seq<u8>>, id: u8) -> bool {
    pkt matches Some(bytes) && bytes.len() >= 50 && bytes[0] == 0xA2 && bytes[11] == id
}

/// The packet sets player lights in one of the patterns that stand for a slot.
pub open spec fn assigns_slot(pkt: Option<Seq<u8>>) -> bool {
    carries(pkt, 0x30) && (pkt->0[12] == 0x01 || pkt->0[12] == 0x10 || pkt->0[12] == 0x03
        || pkt->0[12] == 0x30 || pkt->0[12] == 0x07 || pkt->0[12] == 0x70 || pkt->0[12] == 0x0F
        || pkt->0[12] == 0xF0)
}

/// What one packet does to the handshake: vibration goes on with subcommand 0x48
/// and never off, and the slot follows the lights of subcommand 0x30 and nothing
/// else.
pub proof fn law_packet_effect(enabled: bool, player: Option<u8>, pkt: Option<Seq<u8>>)
    ensures
        vibration_after(enabled, pkt) <==> enabled || carries(pkt, 0x48),
        !carries(pkt, 0x30) ==> player_after(player, pkt) == player,
        carries(pkt, 0x30) ==> (player_after(player, pkt) is Some <==> assigns_slot(pkt)),
        carries(pkt, 0x30) ==> player_after(player, pkt) == player_of(pkt->0[12]),
{
}

/// What it takes to be complete, in any state: vibration, and a slot, whichever
/// of the four it is.
pub proof fn law_complete_with_any_slot(hs: Handshake, slot: u8)
    ensures
        hs.complete() <==> hs.vibration() && hs.player() is Some,
        hs.vibration() && hs.player() == Some(slot) ==> hs.complete(),
        !hs.vibration() ==> !hs.complete(),
        hs.player() is None ==> !hs.complete(),
{
}

/// The states that a new handshake goes through as packets come in.
pub open spec fn is_handshake_history(states: Seq<Handshake>, pkts: Seq<Option<Seq<u8>>>) -> bool {
    &&& states.len() == pkts.len() + 1
    &&& !states[0].vibration()
    &&& states[0].player() is None
    &&& forall|i: int|
        0 <= i < pkts.len() ==> states[i + 1].vibration() == vibration_after(
            states[i].vibration(),
            #[trigger] pkts[i],
        ) && states[i + 1].player() == player_after(states[i].player(), pkts[i])
}

/// A handshake is complete once some packet has enabled vibration and the latest
/// player lights stand for a slot, whichever came first and whatever came in
/// between; and it is not complete otherwise.
pub proof fn law_complete_after_any_history(
    states: Seq<Handshake>,
    pkts: Seq<Option<Seq<u8>>>,
    lights: int,
)
    requires
        is_handshake_history(states, pkts),
        0 <= lights < pkts.len(),
        carries(pkts[lights], 0x30),
        forall|i: int| lights < i < pkts.len() ==> !carries(#[trigger] pkts[i], 0x30),
    ensures
        states[pkts.len() as int].complete() <==> assigns_slot(pkts[lights]) && exists|i: int|
            0 <= i < pkts.len() && carries(#[trigger] pkts[i], 0x48),
        states[pkts.len() as int].player() == player_of(pkts[lights]->0[12]),
{
    lemma_states_follow_packets(states, pkts, pkts.len() as int);
    assert(pkts.take(pkts.len() as int) =~= pkts);
    law_vibration_history(pkts);
    assert(asks(pkts[lights], CMD_SET_PLAYER));
    assert forall|i: int| lights < i < pkts.len() implies !asks(
        #[trigger] pkts[i],
        CMD_SET_PLAYER,
    ) by {
        assert(!carries(pkts[i], 0x30));
    }
    law_player_history(pkts, lights);
    if exists|i: int| 0 <= i < pkts.len() && carries(#[trigger] pkts[i], 0x48) {
        let i = choose|i: int| 0 <= i < pkts.len() && carries(#[trigger] pkts[i], 0x48);
        assert(asks(pkts[i], CMD_ENABLE_VIBRATION));
    }
    if vibration_history(pkts) {
        let i = choose|i: int|
            0 <= i < pkts.len() && asks(#[trigger] pkts[i], CMD_ENABLE_VIBRATION);
        assert(carries(pkts[i], 0x48));
    }
}

/// Without player lights a handshake is not complete.
pub proof fn law_incomplete_without_lights(states: Seq<Handshake>, pkts: Seq<Option<Seq<u8>>>)
    requires
        is_handshake_history(states, pkts),
        forall|i: int| 0 <= i < pkts.len() ==> !carries(#[trigger] pkts[i], 0x30),
    ensures
        !states[pkts.len() as int].complete(),
        states[pkts.len() as int].player() is None,
{
    lemma_states_follow_packets(states, pkts, pkts.len() as int);
    assert(pkts.take(pkts.len() as int) =~= pkts);
    assert forall|i: int| 0 <= i < pkts.len() implies !asks(#[trigger] pkts[i], CMD_SET_PLAYER) by {
        assert(!carries(pkts[i], 0x30));
    }
    law_no_lights_no_player(pkts);
}

/// The state after some packets is what those packets lead to.
proof fn lemma_states_follow_packets(
    states: Seq<Handshake>,
    pkts: Seq<Option<Seq<u8>>>,
    n: int,
)
    requires
        is_handshake_history(states, pkts),
        0 <= n <= pkts.len(),
    ensures
        states[n].vibration() == vibration_history(pkts.take(n)),
        states[n].player() == player_history(pkts.take(n)),
    decreases n,
{
    if n > 0 {
        lemma_states_follow_packets(states, pkts, n - 1);
        assert(pkts.take(n).drop_last() =~= pkts.take(n - 1));
        assert(pkts.take(n).last() == pkts[n - 1]);
    }
}

/// A packet is taken as the very bytes that came.
pub proof fn law_packet_is_its_bytes(pkt: Option<&[u8]>)
    ensures
        pkt is None <==> packet(pkt) is None,
        pkt matches Some(bytes) ==> packet(pkt) == Some(bytes@),
{
}

/// The two fields that callers can read say what the contracts speak of.
proof fn law_fields_say_the_state(hs: Handshake)
    ensures
        hs.vibration_enabled == hs.vibration(),
        hs.player_number == hs.player(),
{
}

} // verus!
