//! The vocabulary of the dual-thumb range slider. The slider's values and
//! pointer mapping are floating point and live with the host.

use vstd::prelude::*;

verus! {

/// Which thumb is active for drag / keyboard.
#[derive(Clone, Copy, Debug, PartialEq, Eq, Structural)]
pub enum Thumb {
    /// The lower (min) thumb.
    Low,
    /// The upper (max) thumb.
    High,
}

} // verus!
