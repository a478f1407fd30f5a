//! Key codes. A character key is its Unicode scalar value; navigation keys
//! that have no character use codes above the Unicode range, so the two can
//! never collide.

use vstd::prelude::*;

pub mod modifiers;

verus! {

pub const BACKSPACE: u32 = 0x08;
pub const TAB: u32 = 0x09;
pub const ENTER: u32 = 0x0D;
pub const ESCAPE: u32 = 0x1B;
pub const SPACE: u32 = 0x20;
pub const DELETE: u32 = 0x7F;
pub const ARROW_LEFT: u32 = 0x11_0001;
pub const ARROW_RIGHT: u32 = 0x11_0002;
pub const ARROW_UP: u32 = 0x11_0003;
pub const ARROW_DOWN: u32 = 0x11_0004;
pub const HOME: u32 = 0x11_0005;
pub const END: u32 = 0x11_0006;
pub const PAGE_UP: u32 = 0x11_0007;
pub const PAGE_DOWN: u32 = 0x11_0008;

/// Whether `k` is a Unicode scalar value (a valid `char`).
pub open spec fn is_scalar(k: u32) -> bool {
    k < 0xD800 || (0xE000 <= k && k <= 0x10FFFF)
}

/// Whether `k` is a control code (general category Cc).
pub open spec fn is_control_code(k: u32) -> bool {
    k < 0x20 || (0x7F <= k && k <= 0x9F)
}

/// `char::from_u32`: the character whose scalar value is `k`, if `k` is one.
#[verifier::external_body]
fn char_from_u32(k: u32) -> (r: Option<char>)
    ensures
        r is Some <==> is_scalar(k),
        r matches Some(c) ==> c as u32 == k && c == k as char,
{
    char::from_u32(k)
}

/// The printable character typed by key code `k`, if any.
pub fn printable_char(k: u32) -> (r: Option<char>)
    ensures
        r is Some <==> (is_scalar(k) && !is_control_code(k)),
        r matches Some(c) ==> c as u32 == k && c == k as char,
{
    if k < 0x20 || (0x7F <= k && k <= 0x9F) {
        return None;
    }
    char_from_u32(k)
}

} // verus!
