//! The LCD controller's fixed command set, and the exact expander traffic
//! that each protocol step generates.
//!
//! The command values encode a standard controller's instruction set and must
//! match it exactly. The `..._ops` functions say, operation by operation,
//! what the driver puts on the bus: they are the reference that every
//! driver contract is stated against.

use vstd::prelude::*;

use crate::bus::{BusOp, PinMode};
use crate::pins::{
    BTN_DOWN, BTN_LEFT, BTN_RIGHT, BTN_SELECT, BTN_UP, LCD_BACKLIGHT, LCD_D4, LCD_D5, LCD_D6,
    LCD_D7, LCD_E, LCD_RS, LCD_RW, RGB_BLUE, RGB_GREEN, RGB_RED,
};

verus! {

/// Clear the display and return the cursor home.
pub const LCD_CLEARDISPLAY: u8 = 0x01;

/// Return the cursor home without clearing.
pub const LCD_RETURNHOME: u8 = 0x02;

/// Select the entry mode; combined with the entry flag bits.
pub const LCD_ENTRYMODESET: u8 = 0x04;

/// Set display, cursor and blink on or off; combined with the control bits.
pub const LCD_DISPLAYCONTROL: u8 = 0x08;

/// Shift the cursor or the display; combined with the move bits.
pub const LCD_CURSORSHIFT: u8 = 0x10;

/// Select bus width, line count and font; combined with the function bits.
pub const LCD_FUNCTIONSET: u8 = 0x20;

/// Address the character-generator RAM.
pub const LCD_SETCGRAMADDR: u8 = 0x40;

/// Address the display RAM; the low bits carry the cell address.
pub const LCD_SETDDRAMADDR: u8 = 0x80;

/// Entry flag: the cursor advances left to right.
pub const LCD_ENTRYLEFT: u8 = 0x02;

/// Entry flag: the display does not shift on entry.
pub const LCD_ENTRYSHIFTDECREMENT: u8 = 0x00;

/// Control flag: display on.
pub const LCD_DISPLAYON: u8 = 0x04;

/// Control flag: cursor visible.
pub const LCD_CURSORON: u8 = 0x02;

/// Control flag: cursor hidden.
pub const LCD_CURSOROFF: u8 = 0x00;

/// Control flag: cursor blinking.
pub const LCD_BLINKON: u8 = 0x01;

/// Control flag: cursor not blinking.
pub const LCD_BLINKOFF: u8 = 0x00;

/// Move flag: shift the display rather than the cursor.
pub const LCD_DISPLAYMOVE: u8 = 0x08;

/// Move flag: shift to the right.
pub const LCD_MOVERIGHT: u8 = 0x04;

/// Move flag: shift to the left.
pub const LCD_MOVELEFT: u8 = 0x00;

/// Function flag: 4-bit bus.
pub const LCD_4BITMODE: u8 = 0x00;

/// Function flag: two display lines.
pub const LCD_2LINE: u8 = 0x08;

/// Function flag: one display line.
pub const LCD_1LINE: u8 = 0x00;

/// Function flag: 5 by 8 dot font.
pub const LCD_5X8DOTS: u8 = 0x00;

/// Entry direction value: the cursor advances left to right.
pub const LEFT_TO_RIGHT: usize = 0;

/// Entry direction value: the cursor advances right to left.
pub const RIGHT_TO_LEFT: usize = 1;

/// The byte a message treats as a line break.
pub const LINE_BREAK: u8 = 0x0A;

/// The most columns the driver accepts: any column index plus the largest
/// row start address must fit in the byte of an address command.
pub const MAX_COLUMNS: usize = 172;

/// Display-RAM start address of each row. The controller's RAM layout is
/// not contiguous: row 2 continues row 0's address space.
pub open spec fn spec_row_offset(row: int) -> u8 {
    if row == 0 {
        0x00
    } else if row == 1 {
        0x40
    } else if row == 2 {
        0x14
    } else {
        0x54
    }
}

/// Display-RAM start address of each of the four possible rows.
pub fn row_offset(row: usize) -> (off: u8)
    requires
        row < 4,
    ensures
        off == spec_row_offset(row as int),
{
    if row == 0 {
        0x00
    } else if row == 1 {
        0x40
    } else if row == 2 {
        0x14
    } else {
        0x54
    }
}

/// An index clamped below `bound`: saturates to the last valid value.
pub open spec fn clamped(v: int, bound: int) -> int {
    if v >= bound {
        bound - 1
    } else {
        v
    }
}

/// The address command that moves the cursor to `col` of `row`.
pub open spec fn addr_command(col: int, row: int) -> u8 {
    LCD_SETDDRAMADDR | ((col + spec_row_offset(row)) as u8)
}

/// The traffic of one enable pulse: drive the strobe low, high, low again,
/// with the controller's fixed guard times after each edge.
pub open spec fn pulse_ops() -> Seq<BusOp> {
    seq![
        BusOp::WriteLevel(LCD_E, false),
        BusOp::WaitUs(1),
        BusOp::WriteLevel(LCD_E, true),
        BusOp::WaitUs(1),
        BusOp::WriteLevel(LCD_E, false),
        BusOp::WaitUs(100),
    ]
}

/// The traffic of one nibble transfer: the four data lines take the low four
/// bits of `v`, then one enable pulse latches them.
pub open spec fn nibble_ops(v: u8) -> Seq<BusOp> {
    seq![
        BusOp::WriteLevel(LCD_D4, (v & 0x01) > 0),
        BusOp::WriteLevel(LCD_D5, (v & 0x02) > 0),
        BusOp::WriteLevel(LCD_D6, (v & 0x04) > 0),
        BusOp::WriteLevel(LCD_D7, (v & 0x08) > 0),
    ] + pulse_ops()
}

/// The traffic of one full byte: the register-select line frames it as a
/// command or as character data, then the high and the low nibble go out.
pub open spec fn byte_ops(v: u8, char_mode: bool) -> Seq<BusOp> {
    seq![BusOp::WriteLevel(LCD_RS, char_mode)] + nibble_ops(v >> 4) + nibble_ops(v & 0x0F)
}

/// The traffic of one colour change: each channel pin is driven low (on,
/// common-anode wiring) exactly when its value is above one.
pub open spec fn color_ops(r: u8, g: u8, b: u8) -> Seq<BusOp> {
    seq![
        BusOp::WriteLevel(RGB_RED, !(r > 1)),
        BusOp::WriteLevel(RGB_GREEN, !(g > 1)),
        BusOp::WriteLevel(RGB_BLUE, !(b > 1)),
    ]
}

/// The traffic of clearing the display: the clear command, then the
/// controller's long processing wait.
pub open spec fn clear_ops() -> Seq<BusOp> {
    byte_ops(LCD_CLEARDISPLAY, false) + seq![BusOp::WaitMs(3)]
}

/// The traffic of returning the cursor home: the home command, then the
/// controller's long processing wait.
pub open spec fn home_ops() -> Seq<BusOp> {
    byte_ops(LCD_RETURNHOME, false) + seq![BusOp::WaitMs(3)]
}

/// The traffic of switching the backlight: the backlight line's mode flips
/// to output (on) or to input (off, the line floats); its level is never
/// driven.
pub open spec fn backlight_ops(on: bool) -> Seq<BusOp> {
    seq![
        BusOp::SetMode(LCD_BACKLIGHT, if on {
            PinMode::Output
        } else {
            PinMode::Input
        }),
    ]
}

/// The traffic of configuring the pins: the seven LCD control and data
/// lines as outputs, the three colour channels as outputs, and the five
/// button lines as inputs with their pull-ups enabled.
pub open spec fn setup_ops() -> Seq<BusOp> {
    seq![
        BusOp::SetMode(LCD_RS, PinMode::Output),
        BusOp::SetMode(LCD_E, PinMode::Output),
        BusOp::SetMode(LCD_D4, PinMode::Output),
        BusOp::SetMode(LCD_D5, PinMode::Output),
        BusOp::SetMode(LCD_D6, PinMode::Output),
        BusOp::SetMode(LCD_D7, PinMode::Output),
        BusOp::SetMode(LCD_RW, PinMode::Output),
        BusOp::SetMode(RGB_RED, PinMode::Output),
        BusOp::SetMode(RGB_GREEN, PinMode::Output),
        BusOp::SetMode(RGB_BLUE, PinMode::Output),
        BusOp::SetMode(BTN_LEFT, PinMode::Input),
        BusOp::SetPullUp(BTN_LEFT, true),
        BusOp::SetMode(BTN_UP, PinMode::Input),
        BusOp::SetPullUp(BTN_UP, true),
        BusOp::SetMode(BTN_DOWN, PinMode::Input),
        BusOp::SetPullUp(BTN_DOWN, true),
        BusOp::SetMode(BTN_RIGHT, PinMode::Input),
        BusOp::SetPullUp(BTN_RIGHT, true),
        BusOp::SetMode(BTN_SELECT, PinMode::Input),
        BusOp::SetPullUp(BTN_SELECT, true),
    ]
}

/// The traffic of the power-on reset: the power-on wait; the
/// register-select, enable and read/write lines forced low; then the
/// documented three-times-0x03-then-0x02 nibble sequence that settles the
/// controller into 4-bit mode, at the delays its datasheet asks for.
pub open spec fn reset_ops() -> Seq<BusOp> {
    seq![
        BusOp::WaitMs(50),
        BusOp::WriteLevel(LCD_RS, false),
        BusOp::WriteLevel(LCD_E, false),
        BusOp::WriteLevel(LCD_RW, false),
    ] + nibble_ops(0x03) + seq![BusOp::WaitMs(5)] + nibble_ops(0x03) + seq![BusOp::WaitMs(5)]
        + nibble_ops(0x03) + seq![BusOp::WaitMs(1)] + nibble_ops(0x02) + seq![BusOp::WaitMs(1)]
}

/// The traffic of the power-on initialization: the reset, then the
/// function-set, display-control and entry-mode commands, a display clear,
/// and all colour channels off.
pub open spec fn init_ops() -> Seq<BusOp> {
    reset_ops()
        + byte_ops(LCD_FUNCTIONSET | (LCD_4BITMODE | LCD_1LINE | LCD_2LINE | LCD_5X8DOTS), false)
        + byte_ops(LCD_DISPLAYCONTROL | (LCD_DISPLAYON | LCD_CURSOROFF | LCD_BLINKOFF), false)
        + byte_ops(LCD_ENTRYMODESET | (LCD_ENTRYLEFT | LCD_ENTRYSHIFTDECREMENT), false)
        + clear_ops() + color_ops(0, 0, 0)
}

/// The whole traffic of construction: pin configuration, then the power-on
/// initialization.
pub open spec fn construction_ops() -> Seq<BusOp> {
    setup_ops() + init_ops()
}

/// The layout configuration a message is written under.
pub struct MsgConfig {
    /// Number of character columns of the panel.
    pub columns: int,
    /// Number of character lines of the panel.
    pub lines: int,
    /// Whether the entry mode advances left to right.
    pub left_to_right: bool,
    /// Whether a line break keeps the current column.
    pub column_align: bool,
}

/// The cursor tracking while a message is written: the clamped cursor the
/// driver stores, the unclamped logical line counter, and whether the
/// first character's positioning has happened.
pub struct MsgState {
    /// Tracked cursor row, always inside the panel.
    pub row: int,
    /// Tracked cursor column, always inside the panel.
    pub column: int,
    /// Logical line counter; grows past the panel, the row does not.
    pub line: int,
    /// Whether the first character's positioning has happened.
    pub started: bool,
}

/// The column the first character of a message goes to: the stored column,
/// mirrored when the entry mode runs right to left.
pub open spec fn first_column(cfg: MsgConfig, st: MsgState) -> int {
    if cfg.left_to_right {
        st.column
    } else {
        cfg.columns - 1 - st.column
    }
}

/// The column a line break repositions to: the stored column under column
/// alignment, else the entry edge of the panel.
pub open spec fn break_column(cfg: MsgConfig, st: MsgState) -> int {
    if cfg.column_align {
        st.column
    } else if cfg.left_to_right {
        0
    } else {
        cfg.columns - 1
    }
}

/// The traffic of a clamping reposition to `col` of `line`.
pub open spec fn pos_ops(cfg: MsgConfig, col: int, line: int) -> Seq<BusOp> {
    byte_ops(addr_command(clamped(col, cfg.columns), clamped(line, cfg.lines)), false)
}

/// The state after a clamping reposition to `col` of `line`.
pub open spec fn reposition(cfg: MsgConfig, st: MsgState, col: int, line: int) -> MsgState {
    MsgState {
        row: clamped(line, cfg.lines),
        column: clamped(col, cfg.columns),
        line: line,
        started: st.started,
    }
}

/// The state once a message's first character has positioned the cursor.
pub open spec fn msg_start(cfg: MsgConfig, st: MsgState) -> MsgState {
    if st.started {
        st
    } else {
        MsgState { started: true, ..reposition(cfg, st, first_column(cfg, st), st.line) }
    }
}

/// The traffic of a message's first-character positioning.
pub open spec fn msg_start_ops(cfg: MsgConfig, st: MsgState) -> Seq<BusOp> {
    if st.started {
        Seq::empty()
    } else {
        pos_ops(cfg, first_column(cfg, st), st.line)
    }
}

/// The state after one message character: a line break advances the line
/// counter and repositions, any other character leaves the tracking alone.
pub open spec fn msg_char(cfg: MsgConfig, st: MsgState, ch: u8) -> MsgState {
    let st0 = msg_start(cfg, st);
    if ch == LINE_BREAK {
        reposition(cfg, st0, break_column(cfg, st0), st0.line + 1)
    } else {
        st0
    }
}

/// The traffic of one message character: the first-character positioning if
/// it is still owed, then a reposition for a line break or one data byte
/// for anything else.
pub open spec fn msg_char_ops(cfg: MsgConfig, st: MsgState, ch: u8) -> Seq<BusOp> {
    let st0 = msg_start(cfg, st);
    msg_start_ops(cfg, st) + if ch == LINE_BREAK {
        pos_ops(cfg, break_column(cfg, st0), st0.line + 1)
    } else {
        byte_ops(ch, true)
    }
}

/// The cursor tracking after a whole message.
pub open spec fn msg_run(cfg: MsgConfig, st: MsgState, s: Seq<u8>) -> MsgState
    decreases s.len(),
{
    if s.len() == 0 {
        st
    } else {
        msg_run(cfg, msg_char(cfg, st, s[0]), s.drop_first())
    }
}

/// The traffic of a whole message.
pub open spec fn msg_run_ops(cfg: MsgConfig, st: MsgState, s: Seq<u8>) -> Seq<BusOp>
    decreases s.len(),
{
    if s.len() == 0 {
        Seq::empty()
    } else {
        msg_char_ops(cfg, st, s[0]) + msg_run_ops(cfg, msg_char(cfg, st, s[0]), s.drop_first())
    }
}

/// A message one character longer runs the old message and then that
/// character.
pub proof fn lemma_msg_run_push(cfg: MsgConfig, st: MsgState, s: Seq<u8>, ch: u8)
    ensures
        msg_run(cfg, st, s.push(ch)) == msg_char(cfg, msg_run(cfg, st, s), ch),
        msg_run_ops(cfg, st, s.push(ch)) == msg_run_ops(cfg, st, s) + msg_char_ops(
            cfg,
            msg_run(cfg, st, s),
            ch,
        ),
    decreases s.len(),
{
    if s.len() == 0 {
        assert(s.push(ch)[0] == ch);
        assert(s.push(ch).drop_first() =~= Seq::<u8>::empty());
        assert(msg_run(cfg, msg_char(cfg, st, ch), Seq::<u8>::empty()) == msg_char(cfg, st, ch));
        assert(msg_run(cfg, st, s.push(ch)) == msg_run(
            cfg,
            msg_char(cfg, st, ch),
            s.push(ch).drop_first(),
        ));
        assert(msg_run_ops(cfg, msg_char(cfg, st, ch), Seq::<u8>::empty()) == Seq::<
            BusOp,
        >::empty());
        assert(msg_run_ops(cfg, st, s.push(ch)) =~= msg_run_ops(cfg, st, s) + msg_char_ops(
            cfg,
            msg_run(cfg, st, s),
            ch,
        ));
    } else {
        assert(s.push(ch)[0] == s[0]);
        assert(s.push(ch).drop_first() =~= s.drop_first().push(ch));
        lemma_msg_run_push(cfg, msg_char(cfg, st, s[0]), s.drop_first(), ch);
        assert(msg_run_ops(cfg, st, s.push(ch)) =~= msg_run_ops(cfg, st, s) + msg_char_ops(
            cfg,
            msg_run(cfg, st, s),
            ch,
        ));
    }
}

/// A message splits at any position: the whole run is the run of the first
/// part followed by the run of the second part from where the first left
/// off.
pub proof fn lemma_msg_run_split(cfg: MsgConfig, st: MsgState, s: Seq<u8>, i: int)
    requires
        0 <= i <= s.len(),
    ensures
        msg_run(cfg, st, s) == msg_run(cfg, msg_run(cfg, st, s.take(i)), s.skip(i)),
        msg_run_ops(cfg, st, s) == msg_run_ops(cfg, st, s.take(i)) + msg_run_ops(
            cfg,
            msg_run(cfg, st, s.take(i)),
            s.skip(i),
        ),
    decreases i,
{
    if i == 0 {
        assert(s.take(0) =~= Seq::<u8>::empty());
        assert(s.skip(0) =~= s);
        assert(msg_run_ops(cfg, st, s) =~= msg_run_ops(cfg, st, s.take(0)) + msg_run_ops(
            cfg,
            msg_run(cfg, st, s.take(0)),
            s.skip(0),
        ));
    } else {
        let st1 = msg_char(cfg, st, s[0]);
        assert(s.take(i)[0] == s[0]);
        assert(s.take(i).drop_first() =~= s.drop_first().take(i - 1));
        assert(s.skip(i) =~= s.drop_first().skip(i - 1));
        lemma_msg_run_split(cfg, st1, s.drop_first(), i - 1);
        assert(msg_run_ops(cfg, st, s) =~= msg_run_ops(cfg, st, s.take(i)) + msg_run_ops(
            cfg,
            msg_run(cfg, st, s.take(i)),
            s.skip(i),
        ));
    }
}

} // verus!
