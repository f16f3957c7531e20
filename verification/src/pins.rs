//! Static assignment of the sixteen expander pins to their roles on the
//! LCD/RGB/button panel.

use vstd::prelude::*;

verus! {

/// One of the sixteen general-purpose pins of the expander, port A pins
/// first, then port B.
#[derive(Clone, Copy, Debug, PartialEq, Eq, Structural)]
pub enum Mcp23017Pin {
    A0,
    A1,
    A2,
    A3,
    A4,
    A5,
    A6,
    A7,
    B0,
    B1,
    B2,
    B3,
    B4,
    B5,
    B6,
    B7,
}

impl Mcp23017Pin {
    /// The pin's index on the expander: 0 to 7 for port A, 8 to 15 for port B.
    pub open spec fn spec_num(self) -> u8 {
        match self {
            Mcp23017Pin::A0 => 0,
            Mcp23017Pin::A1 => 1,
            Mcp23017Pin::A2 => 2,
            Mcp23017Pin::A3 => 3,
            Mcp23017Pin::A4 => 4,
            Mcp23017Pin::A5 => 5,
            Mcp23017Pin::A6 => 6,
            Mcp23017Pin::A7 => 7,
            Mcp23017Pin::B0 => 8,
            Mcp23017Pin::B1 => 9,
            Mcp23017Pin::B2 => 10,
            Mcp23017Pin::B3 => 11,
            Mcp23017Pin::B4 => 12,
            Mcp23017Pin::B5 => 13,
            Mcp23017Pin::B6 => 14,
            Mcp23017Pin::B7 => 15,
        }
    }

    /// The pin's index on the expander, as the expander's own interface takes it.
    #[verifier::when_used_as_spec(spec_num)]
    pub fn num(self) -> (n: u8)
        ensures
            n == self.spec_num(),
            n < 16,
    {
        match self {
            Mcp23017Pin::A0 => 0,
            Mcp23017Pin::A1 => 1,
            Mcp23017Pin::A2 => 2,
            Mcp23017Pin::A3 => 3,
            Mcp23017Pin::A4 => 4,
            Mcp23017Pin::A5 => 5,
            Mcp23017Pin::A6 => 6,
            Mcp23017Pin::A7 => 7,
            Mcp23017Pin::B0 => 8,
            Mcp23017Pin::B1 => 9,
            Mcp23017Pin::B2 => 10,
            Mcp23017Pin::B3 => 11,
            Mcp23017Pin::B4 => 12,
            Mcp23017Pin::B5 => 13,
            Mcp23017Pin::B6 => 14,
            Mcp23017Pin::B7 => 15,
        }
    }
}

/// Register-select line of the LCD controller.
pub const LCD_RS: Mcp23017Pin = Mcp23017Pin::B7;

/// Enable (strobe) line of the LCD controller.
pub const LCD_E: Mcp23017Pin = Mcp23017Pin::B5;

/// Data line carrying bit 0 of each nibble.
pub const LCD_D4: Mcp23017Pin = Mcp23017Pin::B4;

/// Data line carrying bit 1 of each nibble.
pub const LCD_D5: Mcp23017Pin = Mcp23017Pin::B3;

/// Data line carrying bit 2 of each nibble.
pub const LCD_D6: Mcp23017Pin = Mcp23017Pin::B2;

/// Data line carrying bit 3 of each nibble.
pub const LCD_D7: Mcp23017Pin = Mcp23017Pin::B1;

/// Read/write line of the LCD controller; held low, the panel is write-only.
pub const LCD_RW: Mcp23017Pin = Mcp23017Pin::B6;

/// Red channel of the common-anode backlight LED.
pub const RGB_RED: Mcp23017Pin = Mcp23017Pin::A6;

/// Green channel of the common-anode backlight LED.
pub const RGB_GREEN: Mcp23017Pin = Mcp23017Pin::A7;

/// Blue channel of the common-anode backlight LED.
pub const RGB_BLUE: Mcp23017Pin = Mcp23017Pin::B0;

/// Backlight enable line; switched between output and input mode rather
/// than driven high or low.
pub const LCD_BACKLIGHT: Mcp23017Pin = Mcp23017Pin::A5;

/// Left button input.
pub const BTN_LEFT: Mcp23017Pin = Mcp23017Pin::A4;

/// Up button input.
pub const BTN_UP: Mcp23017Pin = Mcp23017Pin::A3;

/// Down button input.
pub const BTN_DOWN: Mcp23017Pin = Mcp23017Pin::A2;

/// Right button input.
pub const BTN_RIGHT: Mcp23017Pin = Mcp23017Pin::A1;

/// Select button input.
pub const BTN_SELECT: Mcp23017Pin = Mcp23017Pin::A0;

} // verus!
