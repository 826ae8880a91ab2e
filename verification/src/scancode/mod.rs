//! Keyboard scancodes and SPICE's mouse buttons.
//!
//! - [`keyboard`]: the name of a key -> its PC XT ("set 1") scancode.
//! - [`dvorak`]: a character of a Dvorak host -> the QWERTY key that typed it.
//! - [`mouse`]: SPICE's button numbers and their mask bits.

use vstd::prelude::*;
use vstd::string::*;

pub mod dvorak;
pub mod keyboard;
pub mod mouse;

pub use dvorak::{dvorak_to_physical, host_is_dvorak, active_group_is_dvorak, LayoutProbe};
pub use keyboard::scancode_for;
pub use mouse::{
    button_mask, SPICE_BUTTON_EXTRA, SPICE_BUTTON_LEFT, SPICE_BUTTON_MIDDLE, SPICE_BUTTON_RIGHT,
    SPICE_BUTTON_SIDE, SPICE_BUTTON_WHEEL_DOWN, SPICE_BUTTON_WHEEL_UP,
};

use crate::scancode::dvorak::physical;
use crate::scancode::keyboard::{scancode, KP_ASTERISK, KP_PLUS};
use crate::text::{ascii_lowercase, lowercase, same};

verus! {

/// Which layout the *host* keyboard is using.
///
/// The host reports the character its layout produced, not the physical key.
/// A remote desktop has to send the physical key position instead: the guest
/// applies its own layout, and applying two yields garbage. On a host that is
/// not QWERTY the reported character is therefore mapped back to the QWERTY key
/// position it was typed on.
#[derive(Clone, Copy, PartialEq, Eq, Structural, Debug)]
pub enum HostLayout {
    Qwerty,
    Dvorak,
}

impl HostLayout {
    /// The layout that the host is using: `forced` (the variable `INM_LAYOUT`,
    /// in any case) where it is given, otherwise what probing the host found.
    ///
    /// The variable alone would not do: it is absent when the program is
    /// started from Finder or the Dock, and QWERTY in its place makes every
    /// key of a Dvorak host arrive as another letter.
    pub fn detect(forced: Option<&str>, host_dvorak: bool) -> (r: Self)
        ensures
            forced matches Some(name) ==> (r == HostLayout::Dvorak) == (lowercase(name@)
                == "dvorak"@),
            forced matches Some(name) ==> (is_ascii(name) ==> (r == HostLayout::Dvorak) == (
            ascii_lowercase(name@) == "dvorak"@)),
            forced is None ==> (r == HostLayout::Dvorak) == host_dvorak,
    {
        let dvorak: bool = match forced {
            Some(name) => same(name.to_lowercase().as_str(), "dvorak"),
            None => host_dvorak,
        };
        if dvorak {
            HostLayout::Dvorak
        } else {
            HostLayout::Qwerty
        }
    }

    /// The layout that the variable `INM_LAYOUT` names by itself: Dvorak for
    /// `dvorak`, in exactly these letters, and QWERTY otherwise.
    pub fn from_env(value: Option<&str>) -> (r: Self)
        ensures
            (r == HostLayout::Dvorak) == (value matches Some(name) && name@ == "dvorak"@),
    {
        match value {
            Some(name) => if same(name, "dvorak") {
                HostLayout::Dvorak
            } else {
                HostLayout::Qwerty
            },
            None => HostLayout::Qwerty,
        }
    }

    pub fn label(self) -> (r: &'static str)
        ensures
            self == HostLayout::Qwerty ==> r@ == "QWERTY"@,
            self == HostLayout::Dvorak ==> r@ == "Dvorak"@,
    {
        match self {
            HostLayout::Qwerty => "QWERTY",
            HostLayout::Dvorak => "Dvorak",
        }
    }
}

/// The physical key, by its QWERTY name, behind a key as the host reports it.
pub open spec fn position(key: Seq<char>, layout: HostLayout) -> Seq<char> {
    match layout {
        HostLayout::Qwerty => key,
        HostLayout::Dvorak => physical(key),
    }
}

/// The scancode of a key as the host reports it. Without Shift, `+` and `*` can
/// only come from the numpad.
pub open spec fn host_scancode(key: Seq<char>, layout: HostLayout, shift_held: bool) -> Option<
    u32,
> {
    if !shift_held && key == "+"@ {
        Some(KP_PLUS)
    } else if !shift_held && key == "*"@ {
        Some(KP_ASTERISK)
    } else {
        scancode(position(key, layout))
    }
}

/// The scancode of a key as the host reports it, with the host's layout
/// accounted for.
///
/// `shift_held` is the host's Shift as it stands, not what the key event says
/// of it (which is cleared for everything but letters). It tells the numpad's
/// `+` and `*` from Shift-`=` and Shift-`8`, which report the same key.
pub fn scancode_for_host(key: &str, layout: HostLayout, shift_held: bool) -> (r: Option<u32>)
    ensures
        r == host_scancode(key@, layout, shift_held),
{
    if !shift_held {
        if same(key, "+") {
            return Some(KP_PLUS);
        }
        if same(key, "*") {
            return Some(KP_ASTERISK);
        }
    }
    match layout {
        HostLayout::Qwerty => scancode_for(key),
        HostLayout::Dvorak => scancode_for(dvorak_to_physical(key)),
    }
}

/// With Shift held, a key is sent as its position on the host's layout; only
/// without Shift do `+` and `*` mean the numpad.
pub proof fn shift_decides_the_numpad(key: Seq<char>, layout: HostLayout)
    ensures
        host_scancode(key, layout, true) == scancode(position(key, layout)),
        key != "+"@ && key != "*"@ ==> host_scancode(key, layout, false) == host_scancode(
            key,
            layout,
            true,
        ),
        host_scancode("+"@, layout, false) == Some(KP_PLUS),
        host_scancode("*"@, layout, false) == Some(KP_ASTERISK),
{
    reveal_strlit("+");
    reveal_strlit("*");
    assert("+"@[0] != "*"@[0]);
}

/// On either layout a key is sent by its place: a QWERTY host's key as itself, a
/// Dvorak host's as the QWERTY key in the same place, with Shift or without. Only
/// `+` and `*` without Shift are others, which the numpad types.
pub proof fn keys_are_sent_by_place(key: Seq<char>, shift_held: bool)
    requires
        shift_held || (key != seq!['+'] && key != seq!['*']),
    ensures
        host_scancode(key, HostLayout::Qwerty, shift_held) == scancode(key),
        host_scancode(key, HostLayout::Dvorak, shift_held) == scancode(physical(key)),
{
    reveal_strlit("+");
    reveal_strlit("*");
    assert("+"@ =~= seq!['+']);
    assert("*"@ =~= seq!['*']);
}

/// Without Shift, `+` and `*` are the numpad's keys on either layout: codes that
/// no other key has.
pub proof fn the_numpad_has_codes_of_its_own(layout: HostLayout, key: Seq<char>)
    ensures
        host_scancode(seq!['+'], layout, false) == Some(0x4Eu32),
        host_scancode(seq!['*'], layout, false) == Some(0x37u32),
        scancode(key) != Some(0x4Eu32),
        scancode(key) != Some(0x37u32),
{
    reveal_strlit("+");
    reveal_strlit("*");
    assert("+"@ =~= seq!['+']);
    assert("*"@ =~= seq!['*']);
}

} // verus!
