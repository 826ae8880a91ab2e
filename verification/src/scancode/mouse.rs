//! SPICE's mouse buttons and the bits of its `button_state` mask. The two
//! numberings do not line up (right is button 3 but mask bit 2), so they stand
//! side by side here.

use vstd::prelude::*;

verus! {

pub const SPICE_BUTTON_LEFT: i32 = 1;

pub const SPICE_BUTTON_MIDDLE: i32 = 2;

pub const SPICE_BUTTON_RIGHT: i32 = 3;

pub const SPICE_BUTTON_WHEEL_UP: i32 = 4;

pub const SPICE_BUTTON_WHEEL_DOWN: i32 = 5;

/// "Side" and "extra" are SPICE's names for the two buttons past the wheel,
/// the back and forward buttons of mice that have them.
pub const SPICE_BUTTON_SIDE: i32 = 6;

pub const SPICE_BUTTON_EXTRA: i32 = 7;

/// The buttons that SPICE has a number for.
pub open spec fn is_button(button: i32) -> bool {
    SPICE_BUTTON_LEFT <= button <= SPICE_BUTTON_EXTRA
}

/// The mask bit of a button: bit `n - 1` for button `n`, nothing for a number
/// that is no button.
pub open spec fn mask_of(button: i32) -> i32 {
    if button == 1 {
        1
    } else if button == 2 {
        2
    } else if button == 3 {
        4
    } else if button == 4 {
        8
    } else if button == 5 {
        16
    } else if button == 6 {
        32
    } else if button == 7 {
        64
    } else {
        0
    }
}

/// The mask bit of a button. Motion and position events carry the bits of the
/// buttons that are held: it is how the guest knows, in the middle of a drag,
/// that a button is still down.
pub fn button_mask(button: i32) -> (r: i32)
    ensures
        r == mask_of(button),
{
    match button {
        1 => 1,
        2 => 2,
        3 => 4,
        4 => 8,
        5 => 16,
        6 => 32,
        7 => 64,
        _ => 0,
    }
}

/// Every button has a mask bit, and no two buttons share one.
pub proof fn masks_are_distinct_bits(a: i32, b: i32)
    requires
        is_button(a),
        is_button(b),
        a != b,
    ensures
        mask_of(a) != 0,
        mask_of(a) & mask_of(b) == 0,
{
    assert(forall|x: i32, y: i32|
        #![trigger x & y]
        (x == 1 || x == 2 || x == 4 || x == 8 || x == 16 || x == 32 || x == 64) && (y == 1 || y == 2
            || y == 4 || y == 8 || y == 16 || y == 32 || y == 64) && x != y ==> x & y == 0)
        by (bit_vector);
}

/// The bit of each button is twice that of the button before it, and the first
/// has the lowest bit; a number that is no button has none.
pub proof fn bits_double_from_button_to_button(button: i32)
    ensures
        mask_of(1) == 1,
        1 <= button < 7 ==> mask_of((button + 1) as i32) == 2 * mask_of(button),
        button < 1 || button > 7 ==> mask_of(button) == 0,
{
}

/// The buttons in the order in which SPICE numbers them.
pub proof fn buttons_are_numbered()
    ensures
        SPICE_BUTTON_LEFT == 1,
        SPICE_BUTTON_MIDDLE == SPICE_BUTTON_LEFT + 1,
        SPICE_BUTTON_RIGHT == SPICE_BUTTON_MIDDLE + 1,
        SPICE_BUTTON_WHEEL_UP == SPICE_BUTTON_RIGHT + 1,
        SPICE_BUTTON_WHEEL_DOWN == SPICE_BUTTON_WHEEL_UP + 1,
        SPICE_BUTTON_SIDE == SPICE_BUTTON_WHEEL_DOWN + 1,
        SPICE_BUTTON_EXTRA == SPICE_BUTTON_SIDE + 1,
{
}

} // verus!
