use vstd::prelude::*;

verus! {

pub const BUTTON_LEFT: u8 = 16;

pub const BUTTON_RIGHT: u8 = 32;

pub const BUTTON_UP: u8 = 64;

pub const BUTTON_DOWN: u8 = 128;

pub open spec fn held(gamepad: u8, button: u8) -> bool {
    gamepad & button != 0
}

/// +1, -1 or 0 as only the positive button, only the negative one, or both or neither are held.
pub open spec fn intent(gamepad: u8, negative: u8, positive: u8) -> i8 {
    ((if held(gamepad, positive) {
        1int
    } else {
        0int
    }) - (if held(gamepad, negative) {
        1int
    } else {
        0int
    })) as i8
}

/// The directional pad as a 2-D intent: `(right - left, up - down)`. The camera reads it as
/// yaw and pitch from one pad and as strafe and forward motion from the other.
pub fn direction_input(gamepad: u8) -> (r: (i8, i8))
    ensures
        r.0 == intent(gamepad, BUTTON_LEFT, BUTTON_RIGHT),
        r.1 == intent(gamepad, BUTTON_DOWN, BUTTON_UP),
        -1 <= r.0 <= 1,
        -1 <= r.1 <= 1,
{
    let mut horizontal: i8 = 0;
    let mut vertical: i8 = 0;
    if gamepad & BUTTON_LEFT != 0 {
        horizontal = horizontal - 1;
    }
    if gamepad & BUTTON_RIGHT != 0 {
        horizontal = horizontal + 1;
    }
    if gamepad & BUTTON_UP != 0 {
        vertical = vertical + 1;
    }
    if gamepad & BUTTON_DOWN != 0 {
        vertical = vertical - 1;
    }
    (horizontal, vertical)
}

} // verus!
