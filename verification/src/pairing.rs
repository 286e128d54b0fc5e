//! Old pairings with a console.
//!
//! A pairing left over from an earlier run makes the Bluetooth stack ask for a
//! confirmation that nobody is there to give, so the program removes every
//! device that goes by the console's name.
use vstd::prelude::*;

use crate::text::same_str;

verus! {

/// A text in upper case, by the Unicode rules.
pub uninterp spec fn uppercase(text: Seq<char>) -> Seq<char>;

/// `str::to_uppercase`. Claims that the result depends on the text alone, and
/// nothing about what it is.
#[verifier::external_body]
fn to_uppercase(text: &str) -> (upper: String)
    ensures
        upper@ == uppercase(text@),
{
    text.to_uppercase()
}

/// Whether a name in upper case is that of the console.
pub fn is_switch_name(upper: &str) -> (is_switch: bool)
    ensures
        is_switch == (upper@ == "NINTENDO SWITCH"@),
{
    same_str(upper, "NINTENDO SWITCH")
}

/// Whether a device with this alias is the console. Case does not matter.
pub fn is_switch_alias(alias: &str) -> (is_switch: bool)
    ensures
        is_switch == (uppercase(alias@) == "NINTENDO SWITCH"@),
{
    let upper = to_uppercase(alias);
    is_switch_name(upper.as_str())
}

/// A walk over the devices that an adapter knows.
pub struct Sweep {
    removed: i32,
}

impl Sweep {
    /// How many devices were to be removed so far.
    pub closed spec fn count(&self) -> int {
        self.removed as int
    }

    pub fn new() -> (sweep: Sweep)
        ensures
            sweep.count() == 0,
    {
        Sweep { removed: 0 }
    }

    /// Decides whether to remove a device. `alias` is its name, or nothing
    /// where the device or its name could not be had; such a device stays.
    pub fn visit(&mut self, alias: Option<&str>) -> (remove: bool)
        requires
            0 <= old(self).count() < i32::MAX,
        ensures
            remove == (alias matches Some(name) && uppercase(name@) == "NINTENDO SWITCH"@),
            final(self).count() == old(self).count() + if remove {
                1int
            } else {
                0
            },
    {
        let remove: bool = match alias {
            Some(name) => is_switch_alias(name),
            None => false,
        };
        if remove {
            self.removed = self.removed + 1;
        }
        remove
    }

    /// How many devices were to be removed so far.
    pub fn removed(&self) -> (removed: i32)
        ensures
            removed == self.count(),
    {
        self.removed
    }
}

} // verus!
