//! Modifier bits carried by [`crate::behavior::KeyInput::modifiers`].

use vstd::prelude::*;

verus! {

pub const SHIFT: u32 = 1;
pub const CTRL: u32 = 2;
pub const ALT: u32 = 4;
pub const SUPER: u32 = 8;

/// Whether the Shift bit is set.
pub open spec fn has_shift(m: u32) -> bool {
    m & SHIFT != 0
}

/// Whether the Ctrl bit is set.
pub open spec fn has_ctrl(m: u32) -> bool {
    m & CTRL != 0
}

/// Whether any of Ctrl, Alt or Super is set (a shortcut rather than typing).
pub open spec fn has_command(m: u32) -> bool {
    m & (CTRL | ALT | SUPER) != 0
}

} // verus!
