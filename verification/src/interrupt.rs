//! The CPU-side interrupt lines the PPU can raise.

use vstd::prelude::*;

verus! {

/// Interrupt line state passed by value into and out of the vblank
/// operations; the PPU never holds a long-lived reference to CPU state.
#[derive(Clone, Copy, Debug, PartialEq, Eq, Structural)]
pub struct InterruptState {
    /// The non-maskable interrupt line.
    pub nmi: bool,
}

impl InterruptState {
    /// A fresh interrupt state with no line raised.
    pub fn new() -> (r: InterruptState)
        ensures
            !r.nmi,
    {
        InterruptState { nmi: false }
    }
}

} // verus!
