//! Laws of the protocol traffic that tie several operations together.

use vstd::prelude::*;

use crate::bus::{BusOp, PinMode};
use crate::pins::{LCD_BACKLIGHT, LCD_RS};
use crate::protocol::{
    backlight_ops, break_column, byte_ops, msg_char, nibble_ops, pulse_ops, MsgConfig, MsgState,
    LINE_BREAK,
};

verus! {

/// A byte's traffic is exactly the register-select framing followed by its
/// high nibble's transfer and then its low nibble's transfer: the nibble
/// values are `v >> 4` and `v & 0x0F`, in that order.
pub proof fn lemma_byte_is_two_nibbles(v: u8, char_mode: bool)
    ensures
        byte_ops(v, char_mode) == seq![BusOp::WriteLevel(LCD_RS, char_mode)] + nibble_ops(v >> 4)
            + nibble_ops(v & 0x0F),
{
}

/// Each nibble transfer ends in exactly one enable pulse with the fixed
/// wait pattern: strobe low then a short wait, high then a short wait, low
/// then the long processing wait.
pub proof fn lemma_nibble_ends_in_one_pulse(v: u8)
    ensures
        nibble_ops(v).len() == 10,
        nibble_ops(v).skip(4) == pulse_ops(),
        forall|i: int| 4 <= i < 10 ==> nibble_ops(v)[i] == pulse_ops()[i - 4],
{
    assert(nibble_ops(v).skip(4) =~= pulse_ops());
}

/// A line break with column alignment off repositions to the entry edge:
/// column zero under left-to-right entry, the last column under
/// right-to-left entry.
pub proof fn lemma_line_break_returns_to_edge(cfg: MsgConfig, st: MsgState)
    requires
        !cfg.column_align,
        1 <= cfg.columns,
    ensures
        cfg.left_to_right ==> msg_char(cfg, st, LINE_BREAK).column == 0,
        !cfg.left_to_right ==> msg_char(cfg, st, LINE_BREAK).column == cfg.columns - 1,
{
}

/// A line break with column alignment on keeps the column that stood after
/// the break's own first-character positioning, clamped into the panel.
pub proof fn lemma_line_break_keeps_aligned_column(cfg: MsgConfig, st: MsgState)
    requires
        cfg.column_align,
        1 <= cfg.columns,
        0 <= st.column < cfg.columns,
        st.started,
    ensures
        msg_char(cfg, st, LINE_BREAK).column == st.column,
{
    assert(break_column(cfg, st) == st.column);
}

/// Switching the backlight off and then on puts exactly one
/// pin-mode-to-input and then one pin-mode-to-output on the bus, and never
/// drives the backlight line's level.
pub proof fn lemma_backlight_toggle_is_two_mode_changes()
    ensures
        backlight_ops(false) + backlight_ops(true) == seq![
            BusOp::SetMode(LCD_BACKLIGHT, PinMode::Input),
            BusOp::SetMode(LCD_BACKLIGHT, PinMode::Output),
        ],
        forall|i: int|
            0 <= i < 2 ==> !((backlight_ops(false) + backlight_ops(true))[i] is WriteLevel),
{
    assert(backlight_ops(false) + backlight_ops(true) =~= seq![
        BusOp::SetMode(LCD_BACKLIGHT, PinMode::Input),
        BusOp::SetMode(LCD_BACKLIGHT, PinMode::Output),
    ]);
}

} // verus!
