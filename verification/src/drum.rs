//! The USB side: telling drums from other devices, and reading them.
//!
//! A drum is a HID gamepad with eight-byte reports:
//!
//! ```text
//! byte 0   bit 0 Y, bit 1 B, bit 2 A, bit 3 X, bit 4 left, bit 5 right,
//!          bit 6 left rim, bit 7 right rim
//! byte 1   bit 0 minus, bit 1 plus, bit 2 left centre, bit 3 right centre,
//!          bit 4 home, bit 5 capture
//! byte 2   hat switch: 0 up, 2 right, 4 down, 6 left, 0x0F idle
//! ```
//!
//! The bytes that follow are unused.
use vstd::prelude::*;

use crate::report::ButtonState;
use crate::text::contains_str;

verus! {

/// Whether a bit of a byte is set.
pub open spec fn pressed(byte: u8, bit: u8) -> bool {
    byte & bit != 0
}

/// The `right` button byte shows what is pressed on the drum: a hit on a centre
/// counts as B or A, a hit on the right rim as R.
pub open spec fn right_shows(b0: u8, b1: u8, right: u8) -> bool {
    // Y, X, B, A, R
    &&& pressed(right, 0x01) <==> pressed(b0, 0x01)
    &&& pressed(right, 0x02) <==> pressed(b0, 0x08)
    &&& pressed(right, 0x04) <==> pressed(b0, 0x02) || pressed(b1, 0x04)
    &&& pressed(right, 0x08) <==> pressed(b0, 0x04) || pressed(b1, 0x08)
    &&& pressed(right, 0x40) <==> pressed(b0, 0x80)
    &&& !pressed(right, 0xB0)
}

/// The `shared` button byte shows what is pressed on the drum.
pub open spec fn shared_shows(b1: u8, shared: u8) -> bool {
    // minus, plus, home, capture
    &&& pressed(shared, 0x01) <==> pressed(b1, 0x01)
    &&& pressed(shared, 0x02) <==> pressed(b1, 0x02)
    &&& pressed(shared, 0x10) <==> pressed(b1, 0x10)
    &&& pressed(shared, 0x20) <==> pressed(b1, 0x20)
    &&& !pressed(shared, 0xCC)
}

/// The `left` button byte shows what is pressed on the drum: a hit on the left
/// rim counts as L.
pub open spec fn left_shows(b0: u8, hat: u8, left: u8) -> bool {
    // down, up, right, left, L
    &&& pressed(left, 0x01) <==> hat == 4
    &&& pressed(left, 0x02) <==> hat == 0
    &&& pressed(left, 0x04) <==> pressed(b0, 0x20) || hat == 2
    &&& pressed(left, 0x08) <==> pressed(b0, 0x10) || hat == 6
    &&& pressed(left, 0x40) <==> pressed(b0, 0x40)
    &&& !pressed(left, 0xB0)
}

/// `state` is what a raw drum report says: every button that the drum has, and
/// nothing else. A report too short to hold them says that nothing is pressed.
pub open spec fn shows(raw: Seq<u8>, state: ButtonState) -> bool {
    if raw.len() < 3 {
        state == crate::report::no_buttons()
    } else {
        &&& right_shows(raw[0], raw[1], state.right)
        &&& shared_shows(raw[1], state.shared)
        &&& left_shows(raw[0], raw[2], state.left)
    }
}

/// `out` if `bit` is set in `byte`.
fn flag(byte: u8, bit: u8, out: u8) -> (r: u8)
    ensures
        r == (if byte & bit != 0 {
            out
        } else {
            0
        }),
{
    if byte & bit != 0 {
        out
    } else {
        0
    }
}

/// Translates a raw drum report into controller buttons.
pub fn hid_to_button_state(raw: &[u8]) -> (state: ButtonState)
    ensures
        shows(raw@, state),
{
    if raw.len() < 3 {
        return ButtonState::default();
    }
    let b0: u8 = raw[0];
    let b1: u8 = raw[1];
    let hat: u8 = raw[2];

    let y: u8 = flag(b0, 0x01, 0x01);
    let b: u8 = flag(b0, 0x02, 0x04);
    let a: u8 = flag(b0, 0x04, 0x08);
    let x: u8 = flag(b0, 0x08, 0x02);
    let right_rim: u8 = flag(b0, 0x80, 0x40);
    let left_centre: u8 = flag(b1, 0x04, 0x04);
    let right_centre: u8 = flag(b1, 0x08, 0x08);
    let right: u8 = y | b | a | x | right_rim | left_centre | right_centre;
    assert(right_shows(b0, b1, right)) by (bit_vector)
        requires
            right == y | b | a | x | right_rim | left_centre | right_centre,
            y == (if b0 & 0x01 != 0 { 0x01u8 } else { 0u8 }),
            b == (if b0 & 0x02 != 0 { 0x04u8 } else { 0u8 }),
            a == (if b0 & 0x04 != 0 { 0x08u8 } else { 0u8 }),
            x == (if b0 & 0x08 != 0 { 0x02u8 } else { 0u8 }),
            right_rim == (if b0 & 0x80 != 0 { 0x40u8 } else { 0u8 }),
            left_centre == (if b1 & 0x04 != 0 { 0x04u8 } else { 0u8 }),
            right_centre == (if b1 & 0x08 != 0 { 0x08u8 } else { 0u8 }),
    ;

    let minus: u8 = flag(b1, 0x01, 0x01);
    let plus: u8 = flag(b1, 0x02, 0x02);
    let home: u8 = flag(b1, 0x10, 0x10);
    let capture: u8 = flag(b1, 0x20, 0x20);
    let shared: u8 = minus | plus | home | capture;
    assert(shared_shows(b1, shared)) by (bit_vector)
        requires
            shared == minus | plus | home | capture,
            minus == (if b1 & 0x01 != 0 { 0x01u8 } else { 0u8 }),
            plus == (if b1 & 0x02 != 0 { 0x02u8 } else { 0u8 }),
            home == (if b1 & 0x10 != 0 { 0x10u8 } else { 0u8 }),
            capture == (if b1 & 0x20 != 0 { 0x20u8 } else { 0u8 }),
    ;

    let pad_left: u8 = flag(b0, 0x10, 0x08);
    let pad_right: u8 = flag(b0, 0x20, 0x04);
    let left_rim: u8 = flag(b0, 0x40, 0x40);
    let direction: u8 = match hat {
        0 => 0x02,
        2 => 0x04,
        4 => 0x01,
        6 => 0x08,
        _ => 0,
    };
    let left: u8 = pad_left | pad_right | left_rim | direction;
    assert(left_shows(b0, hat, left)) by (bit_vector)
        requires
            left == pad_left | pad_right | left_rim | direction,
            pad_left == (if b0 & 0x10 != 0 { 0x08u8 } else { 0u8 }),
            pad_right == (if b0 & 0x20 != 0 { 0x04u8 } else { 0u8 }),
            left_rim == (if b0 & 0x40 != 0 { 0x40u8 } else { 0u8 }),
            direction == (if hat == 0 { 0x02u8 } else if hat == 2 { 0x04u8 } else if hat == 4 {
                0x01u8
            } else if hat == 6 { 0x08u8 } else { 0u8 }),
    ;

    ButtonState { right, shared, left }
}

/// A drum report says one thing only.
pub proof fn law_shows_one_state(raw: Seq<u8>, s: ButtonState, t: ButtonState)
    requires
        shows(raw, s),
        shows(raw, t),
    ensures
        s == t,
{
    if raw.len() >= 3 {
        lemma_right_unique(raw[0], raw[1], s.right, t.right);
        lemma_shared_unique(raw[1], s.shared, t.shared);
        lemma_left_unique(raw[0], raw[2], s.left, t.left);
    }
}

proof fn lemma_right_unique(b0: u8, b1: u8, s: u8, t: u8)
    by (bit_vector)
    requires
        right_shows(b0, b1, s),
        right_shows(b0, b1, t),
    ensures
        s == t,
{
}

proof fn lemma_shared_unique(b1: u8, s: u8, t: u8)
    by (bit_vector)
    requires
        shared_shows(b1, s),
        shared_shows(b1, t),
    ensures
        s == t,
{
}

proof fn lemma_left_unique(b0: u8, hat: u8, s: u8, t: u8)
    by (bit_vector)
    requires
        left_shows(b0, hat, s),
        left_shows(b0, hat, t),
    ensures
        s == t,
{
}

/// What an enumeration of HID devices says of one.
pub struct HidDevice {
    pub product: Option<String>,
    pub path: String,
}

/// A device is a drum if its product name says so.
pub open spec fn is_drum(device: HidDevice) -> bool {
    device.product matches Some(name) && crate::text::contains(name@, "Taiko"@)
}

/// The paths of the drums among `devices`, in the order of enumeration.
pub open spec fn drum_paths(devices: Seq<HidDevice>) -> Seq<Seq<char>> {
    devices.filter(|device: HidDevice| is_drum(device)).map_values(
        |device: HidDevice| device.path@,
    )
}

/// Picks out the connected drums.
pub fn find_drums(devices: &Vec<HidDevice>) -> (paths: Vec<String>)
    ensures
        crate::text::texts(paths@) == drum_paths(devices@),
{
    let mut paths: Vec<String> = Vec::new();
    let mut i: usize = 0;
    assert(crate::text::texts(paths@) =~= drum_paths(devices@.take(0))) by {
        reveal(Seq::filter);
    }
    while i < devices.len()
        invariant
            i <= devices@.len(),
            crate::text::texts(paths@) == drum_paths(devices@.take(i as int)),
        decreases devices@.len() - i,
    {
        let device = &devices[i];
        let ghost before = crate::text::texts(paths@);
        let drum: bool = match &device.product {
            Some(name) => contains_str(name.as_str(), "Taiko"),
            None => false,
        };
        if drum {
            let path = device.path.clone();
            paths.push(path);
            assert(crate::text::texts(paths@) =~= before.push(path@));
        }
        proof {
            lemma_drum_paths_step(devices@, i as int);
        }
        i = i + 1;
    }
    assert(devices@.take(i as int) =~= devices@);
    paths
}

/// Looking at one more device.
proof fn lemma_drum_paths_step(devices: Seq<HidDevice>, i: int)
    requires
        0 <= i < devices.len(),
    ensures
        drum_paths(devices.take(i + 1)) == (if is_drum(devices[i]) {
            drum_paths(devices.take(i)).push(devices[i].path@)
        } else {
            drum_paths(devices.take(i))
        }),
{
    reveal(Seq::filter);
    let head = devices.take(i + 1);
    assert(head.drop_last() =~= devices.take(i));
    assert(head.last() == devices[i]);
    assert(drum_paths(head) =~= (if is_drum(devices[i]) {
        drum_paths(devices.take(i)).push(devices[i].path@)
    } else {
        drum_paths(devices.take(i))
    }));
}

/// What the loop that reads a drum does after a read.
#[derive(Clone, Copy, Debug, PartialEq, Eq)]
pub enum ReadAction {
    /// Read again.
    Again,
    /// Publish the state.
    Publish(ButtonState),
    /// The drum is gone, or nobody listens any more.
    Stop,
}

/// Decides what a read of the drum leads to. `read` is the number of bytes that
/// came, zero at the timeout, or nothing if the read failed; `listening` says
/// whether anybody still wants the states; `buf` is the report buffer.
///
/// A reader that nobody listens to stops at the next timeout, so that an idle
/// drum does not keep it going.
pub fn after_read(read: Option<usize>, listening: bool, buf: &[u8]) -> (action: ReadAction)
    ensures
        match read {
            Some(n) if n > 0 => action matches ReadAction::Publish(state) && shows(buf@, state),
            Some(_) => action == if listening {
                ReadAction::Again
            } else {
                ReadAction::Stop
            },
            None => action == ReadAction::Stop,
        },
{
    match read {
        Some(n) => {
            if n > 0 {
                ReadAction::Publish(hid_to_button_state(buf))
            } else if listening {
                ReadAction::Again
            } else {
                ReadAction::Stop
            }
        },
        None => ReadAction::Stop,
    }
}

/// Decides how to go on once a state was published. Publishing fails only when
/// nobody listens any more.
pub fn after_publish(sent: bool) -> (action: ReadAction)
    ensures
        action == if sent {
            ReadAction::Again
        } else {
            ReadAction::Stop
        },
{
    if sent {
        ReadAction::Again
    } else {
        ReadAction::Stop
    }
}

/// The button bytes of a drum report, bit for bit: every button of the drum is
/// moved to its place in the controller's bytes, the two centres together with B
/// and A, and the hat switch adds its direction.
pub proof fn law_buttons_bit_for_bit(raw: Seq<u8>, state: ButtonState)
    requires
        raw.len() >= 3,
        shows(raw, state),
    ensures
        state.right == (raw[0] & 0x01) | ((raw[0] & 0x08) >> 2) | ((raw[0] & 0x06) << 1) | (raw[1]
            & 0x0C) | ((raw[0] & 0x80) >> 1),
        state.shared == raw[1] & 0x33,
        state.left == ((raw[0] & 0x10) >> 1) | ((raw[0] & 0x20) >> 3) | (raw[0] & 0x40) | (if raw[2]
            == 0 {
            0x02u8
        } else if raw[2] == 2 {
            0x04u8
        } else if raw[2] == 4 {
            0x01u8
        } else if raw[2] == 6 {
            0x08u8
        } else {
            0u8
        }),
{
    lemma_right_bits(raw[0], raw[1], state.right);
    lemma_shared_bits(raw[1], state.shared);
    lemma_left_bits(raw[0], raw[2], state.left);
}

proof fn lemma_right_bits(b0: u8, b1: u8, right: u8)
    by (bit_vector)
    requires
        right_shows(b0, b1, right),
    ensures
        right == (b0 & 0x01) | ((b0 & 0x08) >> 2) | ((b0 & 0x06) << 1) | (b1 & 0x0C) | ((b0
            & 0x80) >> 1),
{
}

proof fn lemma_shared_bits(b1: u8, shared: u8)
    by (bit_vector)
    requires
        shared_shows(b1, shared),
    ensures
        shared == b1 & 0x33,
{
}

proof fn lemma_left_bits(b0: u8, hat: u8, left: u8)
    by (bit_vector)
    requires
        left_shows(b0, hat, left),
    ensures
        left == ((b0 & 0x10) >> 1) | ((b0 & 0x20) >> 3) | (b0 & 0x40) | (if hat == 0 {
            0x02u8
        } else if hat == 2 {
            0x04u8
        } else if hat == 4 {
            0x01u8
        } else if hat == 6 {
            0x08u8
        } else {
            0u8
        }),
{
}

/// Nothing is pressed in a report that is too short, and what stands behind the
/// third byte does not matter.
pub proof fn law_only_three_bytes_matter(raw: Seq<u8>, state: ButtonState)
    ensures
        raw.len() < 3 && shows(raw, state) ==> state.right == 0 && state.shared == 0 && state.left
            == 0,
        raw.len() >= 3 ==> (shows(raw, state) <==> shows(raw.take(3), state)),
{
}

/// A device whose product name has `Taiko` in it adds its path to those found,
/// in its place, whatever other devices there are.
pub proof fn law_drum_is_found(
    before: Seq<HidDevice>,
    device: HidDevice,
    after: Seq<HidDevice>,
    head: Seq<char>,
    tail: Seq<char>,
)
    requires
        device.product is Some,
        device.product->0@ == head + seq!['T', 'a', 'i', 'k', 'o'] + tail,
    ensures
        drum_paths(before + seq![device] + after) == drum_paths(before) + seq![device.path@]
            + drum_paths(after),
{
    reveal_strlit("Taiko");
    assert("Taiko"@ =~= seq!['T', 'a', 'i', 'k', 'o']);
    crate::text::law_contains_what_it_is_made_of(head, "Taiko"@, tail);
    lemma_drum_paths_insert(before, device, after);
}

/// A device without a product name, or with one that has no `Taiko` in it, adds
/// nothing. No device, no drum.
pub proof fn law_other_devices_are_passed_over(
    before: Seq<HidDevice>,
    device: HidDevice,
    after: Seq<HidDevice>,
)
    requires
        device.product matches Some(name) ==> forall|i: int|
            0 <= i && i + 5 <= name@.len() ==> !(#[trigger] name@[i] == 'T' && name@[i + 1] == 'a'
                && name@[i + 2] == 'i' && name@[i + 3] == 'k' && name@[i + 4] == 'o'),
    ensures
        drum_paths(before + seq![device] + after) == drum_paths(before) + drum_paths(after),
        drum_paths(Seq::empty()) == Seq::<Seq<char>>::empty(),
{
    reveal(Seq::filter);
    reveal_strlit("Taiko");
    let letters = seq!['T', 'a', 'i', 'k', 'o'];
    assert("Taiko"@ =~= letters);
    if let Some(name) = device.product {
        assert forall|i: int| !crate::text::occurs_at(name@, letters, i) by {
            if crate::text::occurs_at(name@, letters, i) {
                let part = name@.subrange(i, i + 5);
                assert(part[0] == name@[i]);
                assert(part[1] == 'a' && part[2] == 'i' && part[3] == 'k' && part[4] == 'o');
            }
        }
    }
    lemma_drum_paths_insert(before, device, after);
    assert(drum_paths(Seq::empty()) =~= Seq::<Seq<char>>::empty());
}

/// Devices are judged one by one.
proof fn lemma_drum_paths_insert(
    before: Seq<HidDevice>,
    device: HidDevice,
    after: Seq<HidDevice>,
)
    ensures
        drum_paths(before + seq![device] + after) == if is_drum(device) {
            drum_paths(before) + seq![device.path@] + drum_paths(after)
        } else {
            drum_paths(before) + drum_paths(after)
        },
    decreases after.len(),
{
    let all = before + seq![device] + after;
    if after.len() == 0 {
        reveal(Seq::filter);
        lemma_drum_paths_step(all, before.len() as int);
        assert(all.take((before.len() + 1) as int) =~= all);
        assert(all.take(before.len() as int) =~= before);
        assert(drum_paths(after) =~= Seq::<Seq<char>>::empty());
        assert(drum_paths(before) + drum_paths(after) =~= drum_paths(before));
        assert(drum_paths(before) + seq![device.path@] + drum_paths(after) =~= drum_paths(
            before,
        ).push(device.path@));
    } else {
        let init = after.drop_last();
        lemma_drum_paths_insert(before, device, init);
        lemma_drum_paths_step(all, all.len() - 1);
        lemma_drum_paths_step(after, after.len() - 1);
        assert(all.take(all.len() as int) =~= all);
        assert(after.take(after.len() as int) =~= after);
        assert(all.take(all.len() - 1) =~= before + seq![device] + init);
        assert(after.take(after.len() - 1) =~= init);
        let last = after.last();
        assert(all[all.len() - 1] == last);
        if is_drum(last) {
            assert(drum_paths(before) + drum_paths(after) =~= (drum_paths(before) + drum_paths(
                init,
            )).push(last.path@));
            assert(drum_paths(before) + seq![device.path@] + drum_paths(after) =~= (drum_paths(
                before,
            ) + seq![device.path@] + drum_paths(init)).push(last.path@));
        }
    }
}

} // verus!
