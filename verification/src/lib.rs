//! Driver for an HD44780-protocol character LCD with an RGB backlight and
//! five buttons, all reached through a 16-pin GPIO expander on a shared bus.
//!
//! Every logical pin toggle of the legacy 4-bit parallel protocol is itself a
//! bus transaction. The driver issues those transactions against [`bus::Bus`],
//! a model of the expander and the delay provider that records the exact
//! operation sequence and can inject a bus failure at any chosen point. The
//! contract of each operation pins down the recorded traffic, the cursor
//! tracking, and exactly when the operation succeeds. Code outside the
//! library can replay a recorded sequence against a real expander.

use vstd::prelude::*;

pub mod bus;
pub mod laws;
pub mod lcd;
pub mod pins;
pub mod protocol;

verus! {

/// What a driver operation can fail with.
#[derive(Clone, Copy, Debug, PartialEq, Eq, Structural)]
pub enum LcdError {
    /// A failure of the bus transport underneath the expander.
    I2c,
    /// A failure raised by the expander itself.
    Mcp,
    /// A caller-input failure: an argument out of the panel's range.
    Other,
}

} // verus!
