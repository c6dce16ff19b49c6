//! Parts of the ST7789 panel driver that stand apart from the hardware.
use vstd::prelude::*;

verus! {

/// The blocking microsecond delay that the panel driver waits with while it resets and
/// initialises the panel. It carries no state; the waiting itself is done by the
/// program around the library.
#[derive(Clone, Copy, Debug, PartialEq, Eq, Structural)]
pub struct RaspberryDelay;

impl RaspberryDelay {
    /// A delay source.
    pub fn new() -> (d: RaspberryDelay)
        ensures
            d == RaspberryDelay,
    {
        RaspberryDelay
    }
}

} // verus!
