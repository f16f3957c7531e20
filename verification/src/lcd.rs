//! The driver: protocol engine, display state machine and peripheral I/O.

use vstd::prelude::*;

use crate::bus::{Bus, BusOp, PinMode};
use crate::pins::{
    BTN_DOWN, BTN_LEFT, BTN_RIGHT, BTN_SELECT, BTN_UP, LCD_BACKLIGHT, LCD_D4, LCD_D5, LCD_D6,
    LCD_D7, LCD_E, LCD_RS, LCD_RW, Mcp23017Pin, RGB_BLUE, RGB_GREEN, RGB_RED,
};
use crate::protocol::{
    addr_command, backlight_ops, break_column, byte_ops, clamped, clear_ops, color_ops,
    construction_ops, first_column, home_ops, init_ops, lemma_msg_run_push, lemma_msg_run_split,
    msg_char, msg_char_ops, msg_run, msg_run_ops, msg_start, msg_start_ops, nibble_ops, pos_ops,
    pulse_ops, reset_ops, row_offset, setup_ops, MsgConfig, MsgState, LCD_2LINE, LCD_4BITMODE,
    LCD_5X8DOTS, LCD_BLINKOFF, LCD_CLEARDISPLAY, LCD_CURSOROFF, LCD_DISPLAYCONTROL, LCD_DISPLAYON,
    LCD_ENTRYLEFT, LCD_ENTRYMODESET, LCD_ENTRYSHIFTDECREMENT, LCD_FUNCTIONSET, LCD_RETURNHOME,
    LCD_SETDDRAMADDR, LCD_1LINE, LEFT_TO_RIGHT, LINE_BREAK, MAX_COLUMNS,
};
use crate::LcdError;
use vstd::slice::slice_index_get;

verus! {

/// The character LCD with RGB backlight and buttons, driven through the
/// expander. Owns the bus exclusively; every operation runs to completion
/// before returning.
pub struct CharLCDRGBI2C {
    /// The expander and delay provider, recording all traffic.
    pub bus: Bus,
    /// Number of character columns of the panel.
    pub columns: usize,
    /// Number of character lines of the panel.
    pub lines: usize,
    /// Whether the backlight is enabled.
    pub backlight: bool,
    /// The last colour values handed to `set_color`, kept for inspection.
    pub color_value: (u8, u8, u8),
    /// Shadow of the controller's display-control flags.
    pub display_control: u8,
    /// Shadow of the controller's entry-mode flags.
    pub display_mode: u8,
    /// Shadow of the controller's function-set flags.
    pub display_function: u8,
    /// Tracked cursor row.
    pub row: usize,
    /// Tracked cursor column.
    pub column: usize,
    /// Whether a line break keeps the current column instead of returning
    /// to the edge.
    pub column_align: bool,
    /// Entry direction value, informational.
    pub direction: usize,
}

impl CharLCDRGBI2C {
    /// The driver's invariant: a well-formed bus, a geometry the controller
    /// can address, and a cursor inside it.
    pub open spec fn wf(self) -> bool {
        &&& self.bus.wf()
        &&& 1 <= self.lines <= 4
        &&& 1 <= self.columns <= MAX_COLUMNS
        &&& self.row < self.lines
        &&& self.column < self.columns
    }

    /// Everything but the bus and the cursor tracking is unchanged.
    pub open spec fn same_panel(a: Self, b: Self) -> bool {
        &&& b.columns == a.columns
        &&& b.lines == a.lines
        &&& b.backlight == a.backlight
        &&& b.color_value == a.color_value
        &&& b.display_control == a.display_control
        &&& b.display_mode == a.display_mode
        &&& b.display_function == a.display_function
        &&& b.column_align == a.column_align
        &&& b.direction == a.direction
    }

    /// The cursor tracking is unchanged.
    pub open spec fn same_cursor(a: Self, b: Self) -> bool {
        b.row == a.row && b.column == a.column
    }

    /// The bus environment — input levels and the injected failure — is
    /// unchanged: the driver only ever appends operations.
    pub open spec fn same_env(a: Self, b: Self) -> bool {
        b.bus.inputs@ == a.bus.inputs@ && b.bus.fail_at == a.bus.fail_at
    }

    /// One driven pin level within a planned sequence.
    fn step_write(
        &mut self,
        pin: Mcp23017Pin,
        level: bool,
        Ghost(b0): Ghost<Bus>,
        Ghost(e): Ghost<Seq<BusOp>>,
        Ghost(k): Ghost<int>,
    ) -> (r: Result<(), LcdError>)
        requires
            old(self).bus.wf(),
            old(self).bus.fail_at == b0.fail_at,
            old(self).bus.inputs@ == b0.inputs@,
            0 <= k < e.len(),
            e[k] == BusOp::WriteLevel(pin, level),
            old(self).bus.ops@ == b0.ops@ + e.take(k),
            !b0.hits(e.take(k)),
        ensures
            final(self).bus.wf(),
            final(self).bus.fail_at == b0.fail_at,
            final(self).bus.inputs@ == b0.inputs@,
            Self::same_panel(*old(self), *final(self)),
            Self::same_cursor(*old(self), *final(self)),
            r is Ok ==> final(self).bus.ops@ == b0.ops@ + e.take(k + 1) && !b0.hits(e.take(k + 1)),
            r matches Err(err) ==> err == LcdError::I2c && b0.hits(e) && final(self).bus.ops@
                == b0.after(e),
    {
        let ghost pre = self.bus;
        let r = self.bus.digital_write(pin, level);
        proof {
            Bus::lemma_one_bookkeeping(b0, pre, self.bus, e, k);
        }
        r
    }

    /// One pin-mode change within a planned sequence.
    fn step_mode(
        &mut self,
        pin: Mcp23017Pin,
        mode: PinMode,
        Ghost(b0): Ghost<Bus>,
        Ghost(e): Ghost<Seq<BusOp>>,
        Ghost(k): Ghost<int>,
    ) -> (r: Result<(), LcdError>)
        requires
            old(self).bus.wf(),
            old(self).bus.fail_at == b0.fail_at,
            old(self).bus.inputs@ == b0.inputs@,
            0 <= k < e.len(),
            e[k] == BusOp::SetMode(pin, mode),
            old(self).bus.ops@ == b0.ops@ + e.take(k),
            !b0.hits(e.take(k)),
        ensures
            final(self).bus.wf(),
            final(self).bus.fail_at == b0.fail_at,
            final(self).bus.inputs@ == b0.inputs@,
            Self::same_panel(*old(self), *final(self)),
            Self::same_cursor(*old(self), *final(self)),
            r is Ok ==> final(self).bus.ops@ == b0.ops@ + e.take(k + 1) && !b0.hits(e.take(k + 1)),
            r matches Err(err) ==> err == LcdError::I2c && b0.hits(e) && final(self).bus.ops@
                == b0.after(e),
    {
        let ghost pre = self.bus;
        let r = self.bus.set_pin_mode(pin, mode);
        proof {
            Bus::lemma_one_bookkeeping(b0, pre, self.bus, e, k);
        }
        r
    }

    /// One pull-up change within a planned sequence.
    fn step_pull(
        &mut self,
        pin: Mcp23017Pin,
        enabled: bool,
        Ghost(b0): Ghost<Bus>,
        Ghost(e): Ghost<Seq<BusOp>>,
        Ghost(k): Ghost<int>,
    ) -> (r: Result<(), LcdError>)
        requires
            old(self).bus.wf(),
            old(self).bus.fail_at == b0.fail_at,
            old(self).bus.inputs@ == b0.inputs@,
            0 <= k < e.len(),
            e[k] == BusOp::SetPullUp(pin, enabled),
            old(self).bus.ops@ == b0.ops@ + e.take(k),
            !b0.hits(e.take(k)),
        ensures
            final(self).bus.wf(),
            final(self).bus.fail_at == b0.fail_at,
            final(self).bus.inputs@ == b0.inputs@,
            Self::same_panel(*old(self), *final(self)),
            Self::same_cursor(*old(self), *final(self)),
            r is Ok ==> final(self).bus.ops@ == b0.ops@ + e.take(k + 1) && !b0.hits(e.take(k + 1)),
            r matches Err(err) ==> err == LcdError::I2c && b0.hits(e) && final(self).bus.ops@
                == b0.after(e),
    {
        let ghost pre = self.bus;
        let r = self.bus.set_pull_up(pin, enabled);
        proof {
            Bus::lemma_one_bookkeeping(b0, pre, self.bus, e, k);
        }
        r
    }

    /// One millisecond wait within a planned sequence; waiting cannot fail.
    fn step_wait_ms(
        &mut self,
        ms: u32,
        Ghost(b0): Ghost<Bus>,
        Ghost(e): Ghost<Seq<BusOp>>,
        Ghost(k): Ghost<int>,
    )
        requires
            old(self).bus.wf(),
            old(self).bus.fail_at == b0.fail_at,
            old(self).bus.inputs@ == b0.inputs@,
            0 <= k < e.len(),
            e[k] == BusOp::WaitMs(ms),
            old(self).bus.ops@ == b0.ops@ + e.take(k),
            !b0.hits(e.take(k)),
        ensures
            final(self).bus.wf(),
            final(self).bus.fail_at == b0.fail_at,
            final(self).bus.inputs@ == b0.inputs@,
            Self::same_panel(*old(self), *final(self)),
            Self::same_cursor(*old(self), *final(self)),
            final(self).bus.ops@ == b0.ops@ + e.take(k + 1),
            !b0.hits(e.take(k + 1)),
    {
        let ghost pre = self.bus;
        self.bus.delay_ms(ms);
        proof {
            assert(self.bus.ops@ =~= pre.after(seq![e[k]]));
            Bus::lemma_one_bookkeeping(b0, pre, self.bus, e, k);
        }
    }

    /// One microsecond wait within a planned sequence; waiting cannot fail.
    fn step_wait_us(
        &mut self,
        us: u32,
        Ghost(b0): Ghost<Bus>,
        Ghost(e): Ghost<Seq<BusOp>>,
        Ghost(k): Ghost<int>,
    )
        requires
            old(self).bus.wf(),
            old(self).bus.fail_at == b0.fail_at,
            old(self).bus.inputs@ == b0.inputs@,
            0 <= k < e.len(),
            e[k] == BusOp::WaitUs(us),
            old(self).bus.ops@ == b0.ops@ + e.take(k),
            !b0.hits(e.take(k)),
        ensures
            final(self).bus.wf(),
            final(self).bus.fail_at == b0.fail_at,
            final(self).bus.inputs@ == b0.inputs@,
            Self::same_panel(*old(self), *final(self)),
            Self::same_cursor(*old(self), *final(self)),
            final(self).bus.ops@ == b0.ops@ + e.take(k + 1),
            !b0.hits(e.take(k + 1)),
    {
        let ghost pre = self.bus;
        self.bus.delay_us(us);
        proof {
            assert(self.bus.ops@ =~= pre.after(seq![e[k]]));
            Bus::lemma_one_bookkeeping(b0, pre, self.bus, e, k);
        }
    }

    /// Latch the nibble standing on the data lines: strobe low, high, low,
    /// with the controller's fixed guard times, the long one after the
    /// falling edge.
    pub fn pulse_enable(&mut self) -> (r: Result<(), LcdError>)
        requires
            old(self).bus.wf(),
        ensures
            final(self).bus.wf(),
            Self::same_panel(*old(self), *final(self)),
            Self::same_cursor(*old(self), *final(self)),
            Self::same_env(*old(self), *final(self)),
            final(self).bus.ops@ == old(self).bus.after(pulse_ops()),
            r is Ok <==> !old(self).bus.hits(pulse_ops()),
            r matches Err(err) ==> err == LcdError::I2c,
    {
        let ghost b0 = self.bus;
        let ghost e = pulse_ops();
        proof {
            assert(b0.ops@ + e.take(0) =~= b0.ops@);
        }
        if let Err(err) = self.step_write(LCD_E, false, Ghost(b0), Ghost(e), Ghost(0int)) {
            return Err(err);
        }
        self.step_wait_us(1, Ghost(b0), Ghost(e), Ghost(1int));
        if let Err(err) = self.step_write(LCD_E, true, Ghost(b0), Ghost(e), Ghost(2int)) {
            return Err(err);
        }
        self.step_wait_us(1, Ghost(b0), Ghost(e), Ghost(3int));
        if let Err(err) = self.step_write(LCD_E, false, Ghost(b0), Ghost(e), Ghost(4int)) {
            return Err(err);
        }
        self.step_wait_us(100, Ghost(b0), Ghost(e), Ghost(5int));
        proof {
            assert(e.take(6) =~= e);
        }
        Ok(())
    }

    /// Put the low four bits of `value` on the data lines, then latch them
    /// with one enable pulse. Each line write is its own bus transaction;
    /// the first failure aborts the call.
    pub fn write4bits(&mut self, value: u8) -> (r: Result<(), LcdError>)
        requires
            old(self).bus.wf(),
        ensures
            final(self).bus.wf(),
            Self::same_panel(*old(self), *final(self)),
            Self::same_cursor(*old(self), *final(self)),
            Self::same_env(*old(self), *final(self)),
            final(self).bus.ops@ == old(self).bus.after(nibble_ops(value)),
            r is Ok <==> !old(self).bus.hits(nibble_ops(value)),
            r matches Err(err) ==> err == LcdError::I2c,
    {
        let ghost b0 = self.bus;
        let ghost e = nibble_ops(value);
        proof {
            assert(b0.ops@ + e.take(0) =~= b0.ops@);
        }
        if let Err(err) = self.step_write(LCD_D4, (value & 0x01) > 0, Ghost(b0), Ghost(e), Ghost(0int)) {
            return Err(err);
        }
        if let Err(err) = self.step_write(LCD_D5, (value & 0x02) > 0, Ghost(b0), Ghost(e), Ghost(1int)) {
            return Err(err);
        }
        if let Err(err) = self.step_write(LCD_D6, (value & 0x04) > 0, Ghost(b0), Ghost(e), Ghost(2int)) {
            return Err(err);
        }
        if let Err(err) = self.step_write(LCD_D7, (value & 0x08) > 0, Ghost(b0), Ghost(e), Ghost(3int)) {
            return Err(err);
        }
        let ghost pre = self.bus;
        match self.pulse_enable() {
            Ok(()) => {
                proof {
                    Bus::lemma_sub_ok(b0, pre, self.bus, e.take(4), pulse_ops());
                    assert(e.take(4) + pulse_ops() =~= e);
                }
                Ok(())
            },
            Err(err) => {
                proof {
                    Bus::lemma_sub_err(b0, pre, self.bus, e.take(4), pulse_ops(), Seq::empty());
                    assert(e.take(4) + (pulse_ops() + Seq::<BusOp>::empty()) =~= e);
                }
                Err(err)
            },
        }
    }

    /// Transfer one full byte in 4-bit mode: frame it with the
    /// register-select line (true selects character data, false a command),
    /// then send the high nibble followed by the low nibble.
    pub fn write8(&mut self, value: u8, char_mode: bool) -> (r: Result<(), LcdError>)
        requires
            old(self).bus.wf(),
        ensures
            final(self).bus.wf(),
            Self::same_panel(*old(self), *final(self)),
            Self::same_cursor(*old(self), *final(self)),
            Self::same_env(*old(self), *final(self)),
            final(self).bus.ops@ == old(self).bus.after(byte_ops(value, char_mode)),
            r is Ok <==> !old(self).bus.hits(byte_ops(value, char_mode)),
            r matches Err(err) ==> err == LcdError::I2c,
    {
        let ghost b0 = self.bus;
        let ghost e = byte_ops(value, char_mode);
        proof {
            assert(b0.ops@ + e.take(0) =~= b0.ops@);
        }
        if let Err(err) = self.step_write(LCD_RS, char_mode, Ghost(b0), Ghost(e), Ghost(0int)) {
            return Err(err);
        }
        let ghost pre = self.bus;
        match self.write4bits(value >> 4) {
            Ok(()) => {
                proof {
                    Bus::lemma_sub_ok(b0, pre, self.bus, e.take(1), nibble_ops(value >> 4));
                    assert(e.take(1) + nibble_ops(value >> 4) =~= e.take(11));
                }
            },
            Err(err) => {
                proof {
                    Bus::lemma_sub_err(
                        b0,
                        pre,
                        self.bus,
                        e.take(1),
                        nibble_ops(value >> 4),
                        nibble_ops(value & 0x0F),
                    );
                    assert(e.take(1) + (nibble_ops(value >> 4) + nibble_ops(value & 0x0F)) =~= e);
                }
                return Err(err);
            },
        }
        let ghost pre2 = self.bus;
        match self.write4bits(value & 0x0F) {
            Ok(()) => {
                proof {
                    Bus::lemma_sub_ok(b0, pre2, self.bus, e.take(11), nibble_ops(value & 0x0F));
                    assert(e.take(11) + nibble_ops(value & 0x0F) =~= e);
                }
                Ok(())
            },
            Err(err) => {
                proof {
                    Bus::lemma_sub_err(
                        b0,
                        pre2,
                        self.bus,
                        e.take(11),
                        nibble_ops(value & 0x0F),
                        Seq::empty(),
                    );
                    assert(e.take(11) + (nibble_ops(value & 0x0F) + Seq::<BusOp>::empty()) =~= e);
                }
                Err(err)
            },
        }
    }

    /// Transfer one command byte.
    pub fn write_command(&mut self, value: u8) -> (r: Result<(), LcdError>)
        requires
            old(self).bus.wf(),
        ensures
            final(self).bus.wf(),
            Self::same_panel(*old(self), *final(self)),
            Self::same_cursor(*old(self), *final(self)),
            Self::same_env(*old(self), *final(self)),
            final(self).bus.ops@ == old(self).bus.after(byte_ops(value, false)),
            r is Ok <==> !old(self).bus.hits(byte_ops(value, false)),
            r matches Err(err) ==> err == LcdError::I2c,
    {
        self.write8(value, false)
    }

    /// Clear the display and return the tracked cursor to the origin.
    pub fn clear(&mut self) -> (r: Result<(), LcdError>)
        requires
            old(self).wf(),
        ensures
            final(self).wf(),
            Self::same_panel(*old(self), *final(self)),
            Self::same_env(*old(self), *final(self)),
            final(self).bus.ops@ == old(self).bus.after(clear_ops()),
            r is Ok <==> !old(self).bus.hits(clear_ops()),
            r is Ok ==> final(self).row == 0 && final(self).column == 0,
            r matches Err(err) ==> err == LcdError::I2c && Self::same_cursor(
                *old(self),
                *final(self),
            ),
    {
        let ghost b0 = self.bus;
        let ghost e = clear_ops();
        proof {
            assert(b0.ops@ + e.take(0) =~= b0.ops@);
        }
        let ghost pre = self.bus;
        match self.write_command(LCD_CLEARDISPLAY) {
            Ok(()) => {
                proof {
                    Bus::lemma_sub_ok(b0, pre, self.bus, e.take(0), byte_ops(LCD_CLEARDISPLAY, false));
                    assert(e.take(0) + byte_ops(LCD_CLEARDISPLAY, false) =~= e.take(21));
                }
            },
            Err(err) => {
                proof {
                    Bus::lemma_sub_err(
                        b0,
                        pre,
                        self.bus,
                        e.take(0),
                        byte_ops(LCD_CLEARDISPLAY, false),
                        e.skip(21),
                    );
                    assert(e.take(0) + (byte_ops(LCD_CLEARDISPLAY, false) + e.skip(21)) =~= e);
                }
                return Err(err);
            },
        }
        self.step_wait_ms(3, Ghost(b0), Ghost(e), Ghost(21int));
        proof {
            assert(e.take(22) =~= e);
        }
        self.row = 0;
        self.column = 0;
        Ok(())
    }

    /// Return the cursor home without clearing the display.
    pub fn home(&mut self) -> (r: Result<(), LcdError>)
        requires
            old(self).wf(),
        ensures
            final(self).wf(),
            Self::same_panel(*old(self), *final(self)),
            Self::same_env(*old(self), *final(self)),
            final(self).bus.ops@ == old(self).bus.after(home_ops()),
            r is Ok <==> !old(self).bus.hits(home_ops()),
            r is Ok ==> final(self).row == 0 && final(self).column == 0,
            r matches Err(err) ==> err == LcdError::I2c && Self::same_cursor(
                *old(self),
                *final(self),
            ),
    {
        let ghost b0 = self.bus;
        let ghost e = home_ops();
        proof {
            assert(b0.ops@ + e.take(0) =~= b0.ops@);
        }
        let ghost pre = self.bus;
        match self.write_command(LCD_RETURNHOME) {
            Ok(()) => {
                proof {
                    Bus::lemma_sub_ok(b0, pre, self.bus, e.take(0), byte_ops(LCD_RETURNHOME, false));
                    assert(e.take(0) + byte_ops(LCD_RETURNHOME, false) =~= e.take(21));
                }
            },
            Err(err) => {
                proof {
                    Bus::lemma_sub_err(
                        b0,
                        pre,
                        self.bus,
                        e.take(0),
                        byte_ops(LCD_RETURNHOME, false),
                        e.skip(21),
                    );
                    assert(e.take(0) + (byte_ops(LCD_RETURNHOME, false) + e.skip(21)) =~= e);
                }
                return Err(err);
            },
        }
        self.step_wait_ms(3, Ghost(b0), Ghost(e), Ghost(21int));
        proof {
            assert(e.take(22) =~= e);
        }
        self.row = 0;
        self.column = 0;
        Ok(())
    }

    /// Set the backlight colour. Each channel is on exactly when its value
    /// is above one — the panel drives the channels digitally, not by
    /// intensity — and on means driven low, off driven high. The given
    /// values are stored unchanged for inspection.
    pub fn set_color(&mut self, r: u8, g: u8, b: u8) -> (res: Result<(), LcdError>)
        requires
            old(self).wf(),
        ensures
            final(self).wf(),
            Self::same_cursor(*old(self), *final(self)),
            Self::same_env(*old(self), *final(self)),
            final(self).columns == old(self).columns,
            final(self).lines == old(self).lines,
            final(self).backlight == old(self).backlight,
            final(self).display_control == old(self).display_control,
            final(self).display_mode == old(self).display_mode,
            final(self).display_function == old(self).display_function,
            final(self).column_align == old(self).column_align,
            final(self).direction == old(self).direction,
            final(self).bus.ops@ == old(self).bus.after(color_ops(r, g, b)),
            res is Ok <==> !old(self).bus.hits(color_ops(r, g, b)),
            res is Ok ==> final(self).color_value == (r, g, b),
            res matches Err(err) ==> err == LcdError::I2c && final(self).color_value
                == old(self).color_value,
    {
        let ghost b0 = self.bus;
        let ghost e = color_ops(r, g, b);
        proof {
            assert(b0.ops@ + e.take(0) =~= b0.ops@);
        }
        if let Err(err) = self.step_write(
            RGB_RED,
            if r > 1 {
                false
            } else {
                true
            },
            Ghost(b0),
            Ghost(e),
            Ghost(0int),
        ) {
            return Err(err);
        }
        if let Err(err) = self.step_write(
            RGB_GREEN,
            if g > 1 {
                false
            } else {
                true
            },
            Ghost(b0),
            Ghost(e),
            Ghost(1int),
        ) {
            return Err(err);
        }
        if let Err(err) = self.step_write(
            RGB_BLUE,
            if b > 1 {
                false
            } else {
                true
            },
            Ghost(b0),
            Ghost(e),
            Ghost(2int),
        ) {
            return Err(err);
        }
        proof {
            assert(e.take(3) =~= e);
        }
        self.color_value = (r, g, b);
        Ok(())
    }

    /// Move the cursor to the given column of the given row. A row outside
    /// the panel is a range error: nothing is issued, nothing changes. A
    /// valid position issues exactly one address command.
    pub fn set_cursor(&mut self, col: usize, row: usize) -> (r: Result<(), LcdError>)
        requires
            old(self).wf(),
            col < old(self).columns,
        ensures
            final(self).wf(),
            Self::same_panel(*old(self), *final(self)),
            Self::same_env(*old(self), *final(self)),
            row >= old(self).lines ==> r == Err::<(), LcdError>(LcdError::Other)
                && final(self).bus.ops@ == old(self).bus.ops@ && Self::same_cursor(*old(self), *final(self)),
            row < old(self).lines ==> {
                let e = byte_ops(addr_command(col as int, row as int), false);
                &&& final(self).bus.ops@ == old(self).bus.after(e)
                &&& (r is Ok <==> !old(self).bus.hits(e))
                &&& (r is Ok ==> final(self).row == row && final(self).column == col)
                &&& (r matches Err(err) ==> err == LcdError::I2c && Self::same_cursor(
                    *old(self),
                    *final(self),
                ))
            },
    {
        if row >= self.lines {
            return Err(LcdError::Other);
        }
        let off = row_offset(row);
        let command = LCD_SETDDRAMADDR | ((col as u8) + off);
        proof {
            assert(command == addr_command(col as int, row as int));
        }
        match self.write_command(command) {
            Ok(()) => {},
            Err(err) => {
                return Err(err);
            },
        }
        self.row = row;
        self.column = col;
        Ok(())
    }

    /// Move the cursor like `set_cursor`, but never fail on range: a column
    /// or row outside the panel saturates to the last valid one.
    pub fn cursor_position(&mut self, column: usize, row: usize) -> (r: Result<(), LcdError>)
        requires
            old(self).wf(),
        ensures
            final(self).wf(),
            Self::same_panel(*old(self), *final(self)),
            Self::same_env(*old(self), *final(self)),
            ({
                let c = clamped(column as int, old(self).columns as int);
                let l = clamped(row as int, old(self).lines as int);
                let e = byte_ops(addr_command(c, l), false);
                &&& final(self).bus.ops@ == old(self).bus.after(e)
                &&& (r is Ok <==> !old(self).bus.hits(e))
                &&& (r is Ok ==> final(self).row == l && final(self).column == c)
                &&& (r matches Err(err) ==> err == LcdError::I2c && Self::same_cursor(
                    *old(self),
                    *final(self),
                ))
            }),
    {
        let mut col = column;
        let mut line = row;
        if line >= self.lines {
            line = self.lines - 1;
        }
        if col >= self.columns {
            col = self.columns - 1;
        }
        let off = row_offset(line);
        let command = LCD_SETDDRAMADDR | ((col as u8) + off);
        proof {
            assert(command == addr_command(
                clamped(column as int, self.columns as int),
                clamped(row as int, self.lines as int),
            ));
        }
        match self.write_command(command) {
            Ok(()) => {},
            Err(err) => {
                return Err(err);
            },
        }
        self.row = line;
        self.column = col;
        Ok(())
    }

    /// Enable or disable the backlight by switching its line's pin mode —
    /// output enables it, input lets the line float, which the backlight
    /// circuit reads as off. The line's level is never driven.
    pub fn set_backlight(&mut self, on: bool) -> (r: Result<(), LcdError>)
        requires
            old(self).wf(),
        ensures
            final(self).wf(),
            Self::same_cursor(*old(self), *final(self)),
            Self::same_env(*old(self), *final(self)),
            final(self).columns == old(self).columns,
            final(self).lines == old(self).lines,
            final(self).color_value == old(self).color_value,
            final(self).display_control == old(self).display_control,
            final(self).display_mode == old(self).display_mode,
            final(self).display_function == old(self).display_function,
            final(self).column_align == old(self).column_align,
            final(self).direction == old(self).direction,
            final(self).bus.ops@ == old(self).bus.after(backlight_ops(on)),
            r is Ok <==> !old(self).bus.hits(backlight_ops(on)),
            r is Ok ==> final(self).backlight == on,
            r matches Err(err) ==> err == LcdError::I2c && final(self).backlight
                == old(self).backlight,
    {
        let result = if on {
            self.bus.set_pin_mode(LCD_BACKLIGHT, PinMode::Output)
        } else {
            self.bus.set_pin_mode(LCD_BACKLIGHT, PinMode::Input)
        };
        match result {
            Ok(()) => {
                self.backlight = on;
                Ok(())
            },
            Err(err) => Err(err),
        }
    }

    /// Sample one button line.
    fn read_button(&mut self, pin: Mcp23017Pin) -> (r: Result<bool, LcdError>)
        requires
            old(self).wf(),
        ensures
            final(self).wf(),
            Self::same_panel(*old(self), *final(self)),
            Self::same_cursor(*old(self), *final(self)),
            Self::same_env(*old(self), *final(self)),
            final(self).bus.ops@ == old(self).bus.after(seq![BusOp::ReadLevel(pin)]),
            r is Ok <==> !old(self).bus.hits(seq![BusOp::ReadLevel(pin)]),
            r matches Ok(level) ==> level == old(self).bus.inputs@[pin.num() as int],
            r matches Err(err) ==> err == LcdError::I2c,
    {
        self.bus.digital_read(pin)
    }

    /// Read the raw level of the left button's line.
    pub fn read_button_left(&mut self) -> (r: Result<bool, LcdError>)
        requires
            old(self).wf(),
        ensures
            final(self).wf(),
            Self::same_panel(*old(self), *final(self)),
            Self::same_cursor(*old(self), *final(self)),
            Self::same_env(*old(self), *final(self)),
            final(self).bus.ops@ == old(self).bus.after(seq![BusOp::ReadLevel(BTN_LEFT)]),
            r is Ok <==> !old(self).bus.hits(seq![BusOp::ReadLevel(BTN_LEFT)]),
            r matches Ok(level) ==> level == old(self).bus.inputs@[BTN_LEFT.num() as int],
            r matches Err(err) ==> err == LcdError::I2c,
    {
        self.read_button(BTN_LEFT)
    }

    /// Read the raw level of the right button's line.
    pub fn read_button_right(&mut self) -> (r: Result<bool, LcdError>)
        requires
            old(self).wf(),
        ensures
            final(self).wf(),
            Self::same_panel(*old(self), *final(self)),
            Self::same_cursor(*old(self), *final(self)),
            Self::same_env(*old(self), *final(self)),
            final(self).bus.ops@ == old(self).bus.after(seq![BusOp::ReadLevel(BTN_RIGHT)]),
            r is Ok <==> !old(self).bus.hits(seq![BusOp::ReadLevel(BTN_RIGHT)]),
            r matches Ok(level) ==> level == old(self).bus.inputs@[BTN_RIGHT.num() as int],
            r matches Err(err) ==> err == LcdError::I2c,
    {
        self.read_button(BTN_RIGHT)
    }

    /// Read the raw level of the up button's line.
    pub fn read_button_up(&mut self) -> (r: Result<bool, LcdError>)
        requires
            old(self).wf(),
        ensures
            final(self).wf(),
            Self::same_panel(*old(self), *final(self)),
            Self::same_cursor(*old(self), *final(self)),
            Self::same_env(*old(self), *final(self)),
            final(self).bus.ops@ == old(self).bus.after(seq![BusOp::ReadLevel(BTN_UP)]),
            r is Ok <==> !old(self).bus.hits(seq![BusOp::ReadLevel(BTN_UP)]),
            r matches Ok(level) ==> level == old(self).bus.inputs@[BTN_UP.num() as int],
            r matches Err(err) ==> err == LcdError::I2c,
    {
        self.read_button(BTN_UP)
    }

    /// Read the raw level of the down button's line.
    pub fn read_button_down(&mut self) -> (r: Result<bool, LcdError>)
        requires
            old(self).wf(),
        ensures
            final(self).wf(),
            Self::same_panel(*old(self), *final(self)),
            Self::same_cursor(*old(self), *final(self)),
            Self::same_env(*old(self), *final(self)),
            final(self).bus.ops@ == old(self).bus.after(seq![BusOp::ReadLevel(BTN_DOWN)]),
            r is Ok <==> !old(self).bus.hits(seq![BusOp::ReadLevel(BTN_DOWN)]),
            r matches Ok(level) ==> level == old(self).bus.inputs@[BTN_DOWN.num() as int],
            r matches Err(err) ==> err == LcdError::I2c,
    {
        self.read_button(BTN_DOWN)
    }

    /// Read the raw level of the select button's line.
    pub fn read_button_select(&mut self) -> (r: Result<bool, LcdError>)
        requires
            old(self).wf(),
        ensures
            final(self).wf(),
            Self::same_panel(*old(self), *final(self)),
            Self::same_cursor(*old(self), *final(self)),
            Self::same_env(*old(self), *final(self)),
            final(self).bus.ops@ == old(self).bus.after(seq![BusOp::ReadLevel(BTN_SELECT)]),
            r is Ok <==> !old(self).bus.hits(seq![BusOp::ReadLevel(BTN_SELECT)]),
            r matches Ok(level) ==> level == old(self).bus.inputs@[BTN_SELECT.num() as int],
            r matches Err(err) ==> err == LcdError::I2c,
    {
        self.read_button(BTN_SELECT)
    }

    /// The layout configuration the driver writes messages under.
    pub open spec fn msg_config(self) -> MsgConfig {
        MsgConfig {
            columns: self.columns as int,
            lines: self.lines as int,
            left_to_right: (self.display_mode & LCD_ENTRYLEFT) > 0,
            column_align: self.column_align,
        }
    }

    /// The cursor tracking a message starts from: the stored cursor, the
    /// line counter at the stored row, the first positioning still owed.
    pub open spec fn msg_initial(self) -> MsgState {
        MsgState {
            row: self.row as int,
            column: self.column as int,
            line: self.row as int,
            started: false,
        }
    }

    /// Write a message. The first character positions the cursor from the
    /// stored column, mirrored under right-to-left entry; a line break
    /// advances the logical line and repositions; every other byte goes out
    /// as character data. Afterwards the tracked cursor is back at the
    /// origin whatever was written — the true end position is discarded.
    #[verifier::rlimit(100)]
    pub fn message(&mut self, message: &[u8]) -> (r: Result<(), LcdError>)
        requires
            old(self).wf(),
            message@.len() <= usize::MAX - 4,
        ensures
            final(self).wf(),
            Self::same_panel(*old(self), *final(self)),
            Self::same_env(*old(self), *final(self)),
            final(self).bus.ops@ == old(self).bus.after(
                msg_run_ops(old(self).msg_config(), old(self).msg_initial(), message@),
            ),
            r is Ok <==> !old(self).bus.hits(
                msg_run_ops(old(self).msg_config(), old(self).msg_initial(), message@),
            ),
            r is Ok ==> final(self).row == 0 && final(self).column == 0,
            r matches Err(err) ==> err == LcdError::I2c,
    {
        let ghost init = *self;
        let ghost b0 = self.bus;
        let ghost cfg = self.msg_config();
        let ghost st0 = self.msg_initial();
        let ghost full = msg_run_ops(cfg, st0, message@);
        let mut line: usize = self.row;
        let mut started: bool = false;
        let mut i: usize = 0;
        proof {
            assert(message@.take(0) =~= Seq::<u8>::empty());
            assert(b0.ops@ + msg_run_ops(cfg, st0, message@.take(0)) =~= b0.ops@);
        }
        #[verifier::loop_isolation(false)]
        while i < message.len()
            invariant
                init.wf(),
                cfg == init.msg_config(),
                st0 == init.msg_initial(),
                full == msg_run_ops(cfg, st0, message@),
                Self::same_panel(init, *self),
                self.bus.wf(),
                self.row < self.lines,
                self.column < self.columns,
                i <= message@.len(),
                message@.len() <= usize::MAX - 4,
                self.bus.fail_at == b0.fail_at,
                self.bus.inputs@ == b0.inputs@,
                ({
                    let st = msg_run(cfg, st0, message@.take(i as int));
                    &&& self.row as int == st.row
                    &&& self.column as int == st.column
                    &&& line as int == st.line
                    &&& started == st.started
                    &&& st.line <= st0.line + i
                    &&& self.bus.ops@ == b0.ops@ + msg_run_ops(cfg, st0, message@.take(i as int))
                    &&& !b0.hits(msg_run_ops(cfg, st0, message@.take(i as int)))
                }),
            decreases message@.len() - i,
        {
            let ghost st = msg_run(cfg, st0, message@.take(i as int));
            let ghost done = msg_run_ops(cfg, st0, message@.take(i as int));
            let ch = *slice_index_get(message, i);
            let ghost st_mid = msg_start(cfg, st);
            let ghost sub1 = msg_start_ops(cfg, st);
            let ghost rest2 = msg_run_ops(cfg, msg_char(cfg, st, ch), message@.skip(i as int + 1));
            let ghost second = if ch == LINE_BREAK {
                pos_ops(cfg, break_column(cfg, st_mid), st_mid.line + 1)
            } else {
                byte_ops(ch, true)
            };
            proof {
                assert(message@.take(i as int).push(ch) =~= message@.take(i as int + 1));
                lemma_msg_run_push(cfg, st0, message@.take(i as int), ch);
                lemma_msg_run_split(cfg, st0, message@, i as int);
                assert(message@.skip(i as int)[0] == ch);
                assert(message@.skip(i as int).drop_first() =~= message@.skip(i as int + 1));
                assert(msg_run_ops(cfg, st, message@.skip(i as int)) == msg_char_ops(cfg, st, ch)
                    + rest2);
                assert(msg_char_ops(cfg, st, ch) == sub1 + second);
            }
            if !started {
                let col = if (self.display_mode & LCD_ENTRYLEFT) > 0 {
                    self.column
                } else {
                    self.columns - 1 - self.column
                };
                proof {
                    assert(col as int == first_column(cfg, st));
                }
                let ghost pre = self.bus;
                match self.cursor_position(col, line) {
                    Ok(()) => {
                        proof {
                            Bus::lemma_sub_ok(b0, pre, self.bus, done, sub1);
                        }
                        started = true;
                    },
                    Err(err) => {
                        proof {
                            Bus::lemma_sub_err(b0, pre, self.bus, done, sub1, second + rest2);
                            assert(done + (sub1 + (second + rest2)) =~= full);
                        }
                        return Err(err);
                    },
                }
            } else {
                proof {
                    assert(done + sub1 =~= done);
                }
            }
            let ghost done_mid = done + sub1;
            if ch == LINE_BREAK {
                line = line + 1;
                let col = if (self.display_mode & LCD_ENTRYLEFT) > 0 {
                    if self.column_align {
                        self.column
                    } else {
                        0
                    }
                } else {
                    if self.column_align {
                        self.column
                    } else {
                        self.columns - 1
                    }
                };
                proof {
                    assert(col as int == break_column(cfg, st_mid));
                    assert(line as int == st_mid.line + 1);
                }
                let ghost pre = self.bus;
                match self.cursor_position(col, line) {
                    Ok(()) => {
                        proof {
                            Bus::lemma_sub_ok(b0, pre, self.bus, done_mid, second);
                            assert(done_mid + second =~= done + msg_char_ops(cfg, st, ch));
                        }
                    },
                    Err(err) => {
                        proof {
                            Bus::lemma_sub_err(b0, pre, self.bus, done_mid, second, rest2);
                            assert(done_mid + (second + rest2) =~= full);
                        }
                        return Err(err);
                    },
                }
            } else {
                let ghost pre = self.bus;
                match self.write8(ch, true) {
                    Ok(()) => {
                        proof {
                            Bus::lemma_sub_ok(b0, pre, self.bus, done_mid, second);
                            assert(done_mid + second =~= done + msg_char_ops(cfg, st, ch));
                        }
                    },
                    Err(err) => {
                        proof {
                            Bus::lemma_sub_err(b0, pre, self.bus, done_mid, second, rest2);
                            assert(done_mid + (second + rest2) =~= full);
                        }
                        return Err(err);
                    },
                }
            }
            i = i + 1;
        }
        proof {
            assert(message@.take(i as int) =~= message@);
            assert(b0.after(full) =~= b0.ops@ + full);
        }
        self.column = 0;
        self.row = 0;
        Ok(())
    }

    /// Configure every pin for its role: LCD control and data lines and the
    /// colour channels as outputs, the button lines as inputs with
    /// pull-ups.
    #[verifier::rlimit(100)]
    fn setup_pins(&mut self) -> (r: Result<(), LcdError>)
        requires
            old(self).bus.wf(),
        ensures
            final(self).bus.wf(),
            Self::same_panel(*old(self), *final(self)),
            Self::same_cursor(*old(self), *final(self)),
            Self::same_env(*old(self), *final(self)),
            final(self).bus.ops@ == old(self).bus.after(setup_ops()),
            r is Ok <==> !old(self).bus.hits(setup_ops()),
            r matches Err(err) ==> err == LcdError::I2c,
    {
        let ghost b0 = self.bus;
        let ghost e = setup_ops();
        proof {
            assert(b0.ops@ + e.take(0) =~= b0.ops@);
        }
        if let Err(err) = self.step_mode(LCD_RS, PinMode::Output, Ghost(b0), Ghost(e), Ghost(0int)) {
            return Err(err);
        }
        if let Err(err) = self.step_mode(LCD_E, PinMode::Output, Ghost(b0), Ghost(e), Ghost(1int)) {
            return Err(err);
        }
        if let Err(err) = self.step_mode(LCD_D4, PinMode::Output, Ghost(b0), Ghost(e), Ghost(2int)) {
            return Err(err);
        }
        if let Err(err) = self.step_mode(LCD_D5, PinMode::Output, Ghost(b0), Ghost(e), Ghost(3int)) {
            return Err(err);
        }
        if let Err(err) = self.step_mode(LCD_D6, PinMode::Output, Ghost(b0), Ghost(e), Ghost(4int)) {
            return Err(err);
        }
        if let Err(err) = self.step_mode(LCD_D7, PinMode::Output, Ghost(b0), Ghost(e), Ghost(5int)) {
            return Err(err);
        }
        if let Err(err) = self.step_mode(LCD_RW, PinMode::Output, Ghost(b0), Ghost(e), Ghost(6int)) {
            return Err(err);
        }
        if let Err(err) = self.step_mode(RGB_RED, PinMode::Output, Ghost(b0), Ghost(e), Ghost(7int)) {
            return Err(err);
        }
        if let Err(err) = self.step_mode(RGB_GREEN, PinMode::Output, Ghost(b0), Ghost(e), Ghost(8int)) {
            return Err(err);
        }
        if let Err(err) = self.step_mode(RGB_BLUE, PinMode::Output, Ghost(b0), Ghost(e), Ghost(9int)) {
            return Err(err);
        }
        if let Err(err) = self.step_mode(BTN_LEFT, PinMode::Input, Ghost(b0), Ghost(e), Ghost(10int)) {
            return Err(err);
        }
        if let Err(err) = self.step_pull(BTN_LEFT, true, Ghost(b0), Ghost(e), Ghost(11int)) {
            return Err(err);
        }
        if let Err(err) = self.step_mode(BTN_UP, PinMode::Input, Ghost(b0), Ghost(e), Ghost(12int)) {
            return Err(err);
        }
        if let Err(err) = self.step_pull(BTN_UP, true, Ghost(b0), Ghost(e), Ghost(13int)) {
            return Err(err);
        }
        if let Err(err) = self.step_mode(BTN_DOWN, PinMode::Input, Ghost(b0), Ghost(e), Ghost(14int)) {
            return Err(err);
        }
        if let Err(err) = self.step_pull(BTN_DOWN, true, Ghost(b0), Ghost(e), Ghost(15int)) {
            return Err(err);
        }
        if let Err(err) = self.step_mode(BTN_RIGHT, PinMode::Input, Ghost(b0), Ghost(e), Ghost(16int)) {
            return Err(err);
        }
        if let Err(err) = self.step_pull(BTN_RIGHT, true, Ghost(b0), Ghost(e), Ghost(17int)) {
            return Err(err);
        }
        if let Err(err) = self.step_mode(BTN_SELECT, PinMode::Input, Ghost(b0), Ghost(e), Ghost(18int)) {
            return Err(err);
        }
        if let Err(err) = self.step_pull(BTN_SELECT, true, Ghost(b0), Ghost(e), Ghost(19int)) {
            return Err(err);
        }
        proof {
            assert(e.take(20) =~= e);
        }
        Ok(())
    }

    /// Force the control lines low and settle the controller into 4-bit
    /// mode with the documented three-times-0x03-then-0x02 nibbles.
    fn init_reset(&mut self) -> (r: Result<(), LcdError>)
        requires
            old(self).bus.wf(),
        ensures
            final(self).bus.wf(),
            Self::same_panel(*old(self), *final(self)),
            Self::same_cursor(*old(self), *final(self)),
            Self::same_env(*old(self), *final(self)),
            final(self).bus.ops@ == old(self).bus.after(reset_ops()),
            r is Ok <==> !old(self).bus.hits(reset_ops()),
            r matches Err(err) ==> err == LcdError::I2c,
    {
        let ghost b0 = self.bus;
        let ghost e = reset_ops();
        proof {
            assert(b0.ops@ + e.take(0) =~= b0.ops@);
        }
        self.step_wait_ms(50, Ghost(b0), Ghost(e), Ghost(0int));
        if let Err(err) = self.step_write(LCD_RS, false, Ghost(b0), Ghost(e), Ghost(1int)) {
            return Err(err);
        }
        if let Err(err) = self.step_write(LCD_E, false, Ghost(b0), Ghost(e), Ghost(2int)) {
            return Err(err);
        }
        if let Err(err) = self.step_write(LCD_RW, false, Ghost(b0), Ghost(e), Ghost(3int)) {
            return Err(err);
        }
        let ghost pre = self.bus;
        match self.write4bits(0x03) {
            Ok(()) => {
                proof {
                    Bus::lemma_sub_ok(b0, pre, self.bus, e.take(4), nibble_ops(0x03));
                    assert(e.take(4) + nibble_ops(0x03) =~= e.take(14));
                }
            },
            Err(err) => {
                proof {
                    Bus::lemma_sub_err(b0, pre, self.bus, e.take(4), nibble_ops(0x03), e.skip(14));
                    assert(e.take(4) + (nibble_ops(0x03) + e.skip(14)) =~= e);
                }
                return Err(err);
            },
        }
        self.step_wait_ms(5, Ghost(b0), Ghost(e), Ghost(14int));
        let ghost pre = self.bus;
        match self.write4bits(0x03) {
            Ok(()) => {
                proof {
                    Bus::lemma_sub_ok(b0, pre, self.bus, e.take(15), nibble_ops(0x03));
                    assert(e.take(15) + nibble_ops(0x03) =~= e.take(25));
                }
            },
            Err(err) => {
                proof {
                    Bus::lemma_sub_err(b0, pre, self.bus, e.take(15), nibble_ops(0x03), e.skip(25));
                    assert(e.take(15) + (nibble_ops(0x03) + e.skip(25)) =~= e);
                }
                return Err(err);
            },
        }
        self.step_wait_ms(5, Ghost(b0), Ghost(e), Ghost(25int));
        let ghost pre = self.bus;
        match self.write4bits(0x03) {
            Ok(()) => {
                proof {
                    Bus::lemma_sub_ok(b0, pre, self.bus, e.take(26), nibble_ops(0x03));
                    assert(e.take(26) + nibble_ops(0x03) =~= e.take(36));
                }
            },
            Err(err) => {
                proof {
                    Bus::lemma_sub_err(b0, pre, self.bus, e.take(26), nibble_ops(0x03), e.skip(36));
                    assert(e.take(26) + (nibble_ops(0x03) + e.skip(36)) =~= e);
                }
                return Err(err);
            },
        }
        self.step_wait_ms(1, Ghost(b0), Ghost(e), Ghost(36int));
        let ghost pre = self.bus;
        match self.write4bits(0x02) {
            Ok(()) => {
                proof {
                    Bus::lemma_sub_ok(b0, pre, self.bus, e.take(37), nibble_ops(0x02));
                    assert(e.take(37) + nibble_ops(0x02) =~= e.take(47));
                }
            },
            Err(err) => {
                proof {
                    Bus::lemma_sub_err(b0, pre, self.bus, e.take(37), nibble_ops(0x02), e.skip(47));
                    assert(e.take(37) + (nibble_ops(0x02) + e.skip(47)) =~= e);
                }
                return Err(err);
            },
        }
        self.step_wait_ms(1, Ghost(b0), Ghost(e), Ghost(47int));
        proof {
            assert(e.take(48) =~= e);
        }
        Ok(())
    }

    /// Run the power-on initialization: wait out the controller's power-on
    /// time, force the control lines low, settle the controller into 4-bit
    /// mode with the documented three-times-0x03-then-0x02 nibbles, write
    /// the function-set, display-control and entry-mode commands, clear the
    /// display, and switch all colour channels off.
    #[verifier::rlimit(100)]
    fn initialize(&mut self) -> (r: Result<(), LcdError>)
        requires
            old(self).wf(),
        ensures
            final(self).wf(),
            final(self).columns == old(self).columns,
            final(self).lines == old(self).lines,
            final(self).backlight == old(self).backlight,
            Self::same_env(*old(self), *final(self)),
            final(self).bus.ops@ == old(self).bus.after(init_ops()),
            r is Ok <==> !old(self).bus.hits(init_ops()),
            r is Ok ==> final(self).row == 0 && final(self).column == 0 && final(self).column_align
                == false && final(self).direction == LEFT_TO_RIGHT && final(self).display_control
                == (LCD_DISPLAYON | LCD_CURSOROFF | LCD_BLINKOFF) && final(self).display_function
                == (LCD_4BITMODE | LCD_1LINE | LCD_2LINE | LCD_5X8DOTS) && final(self).display_mode
                == (LCD_ENTRYLEFT | LCD_ENTRYSHIFTDECREMENT) && final(self).color_value == (
            0u8,
            0u8,
            0u8,
            ),
            r matches Err(err) ==> err == LcdError::I2c,
    {
        let ghost b0 = self.bus;
        let ghost e = init_ops();
        proof {
            assert(b0.ops@ + e.take(0) =~= b0.ops@);
        }
        let ghost pre = self.bus;
        match self.init_reset() {
            Ok(()) => {
                proof {
                    assert(pre.after(reset_ops()) =~= pre.ops@ + reset_ops());
                    Bus::lemma_sub_ok(b0, pre, self.bus, e.take(0), reset_ops());
                    assert(e.take(0) + reset_ops() =~= e.take(48));
                }
            },
            Err(err) => {
                proof {
                    Bus::lemma_sub_err(b0, pre, self.bus, e.take(0), reset_ops(), e.skip(48));
                    assert(e.take(0) + (reset_ops() + e.skip(48)) =~= e);
                }
                return Err(err);
            },
        }
        self.display_control = LCD_DISPLAYON | LCD_CURSOROFF | LCD_BLINKOFF;
        self.display_function = LCD_4BITMODE | LCD_1LINE | LCD_2LINE | LCD_5X8DOTS;
        self.display_mode = LCD_ENTRYLEFT | LCD_ENTRYSHIFTDECREMENT;
        let ghost pre = self.bus;
        let function_command = LCD_FUNCTIONSET | self.display_function;
        match self.write_command(function_command) {
            Ok(()) => {
                proof {
                    Bus::lemma_sub_ok(b0, pre, self.bus, e.take(48), byte_ops(function_command, false));
                    assert(e.take(48) + byte_ops(function_command, false) =~= e.take(69));
                }
            },
            Err(err) => {
                proof {
                    Bus::lemma_sub_err(
                        b0,
                        pre,
                        self.bus,
                        e.take(48),
                        byte_ops(function_command, false),
                        e.skip(69),
                    );
                    assert(e.take(48) + (byte_ops(function_command, false) + e.skip(69)) =~= e);
                }
                return Err(err);
            },
        }
        let ghost pre = self.bus;
        let control_command = LCD_DISPLAYCONTROL | self.display_control;
        match self.write_command(control_command) {
            Ok(()) => {
                proof {
                    Bus::lemma_sub_ok(b0, pre, self.bus, e.take(69), byte_ops(control_command, false));
                    assert(e.take(69) + byte_ops(control_command, false) =~= e.take(90));
                }
            },
            Err(err) => {
                proof {
                    Bus::lemma_sub_err(
                        b0,
                        pre,
                        self.bus,
                        e.take(69),
                        byte_ops(control_command, false),
                        e.skip(90),
                    );
                    assert(e.take(69) + (byte_ops(control_command, false) + e.skip(90)) =~= e);
                }
                return Err(err);
            },
        }
        let ghost pre = self.bus;
        let mode_command = LCD_ENTRYMODESET | self.display_mode;
        match self.write_command(mode_command) {
            Ok(()) => {
                proof {
                    Bus::lemma_sub_ok(b0, pre, self.bus, e.take(90), byte_ops(mode_command, false));
                    assert(e.take(90) + byte_ops(mode_command, false) =~= e.take(111));
                }
            },
            Err(err) => {
                proof {
                    Bus::lemma_sub_err(
                        b0,
                        pre,
                        self.bus,
                        e.take(90),
                        byte_ops(mode_command, false),
                        e.skip(111),
                    );
                    assert(e.take(90) + (byte_ops(mode_command, false) + e.skip(111)) =~= e);
                }
                return Err(err);
            },
        }
        let ghost pre = self.bus;
        match self.clear() {
            Ok(()) => {
                proof {
                    Bus::lemma_sub_ok(b0, pre, self.bus, e.take(111), clear_ops());
                    assert(e.take(111) + clear_ops() =~= e.take(133));
                }
            },
            Err(err) => {
                proof {
                    Bus::lemma_sub_err(b0, pre, self.bus, e.take(111), clear_ops(), e.skip(133));
                    assert(e.take(111) + (clear_ops() + e.skip(133)) =~= e);
                }
                return Err(err);
            },
        }
        self.row = 0;
        self.column = 0;
        self.column_align = false;
        self.direction = LEFT_TO_RIGHT;
        let ghost pre = self.bus;
        match self.set_color(0, 0, 0) {
            Ok(()) => {
                proof {
                    Bus::lemma_sub_ok(b0, pre, self.bus, e.take(133), color_ops(0, 0, 0));
                    assert(e.take(133) + color_ops(0, 0, 0) =~= e);
                }
            },
            Err(err) => {
                proof {
                    Bus::lemma_sub_err(b0, pre, self.bus, e.take(133), color_ops(0, 0, 0), Seq::empty());
                    assert(e.take(133) + (color_ops(0, 0, 0) + Seq::<BusOp>::empty()) =~= e);
                }
                return Err(err);
            },
        }
        Ok(())
    }

    /// Build the driver and run the mandatory power-on sequence before
    /// returning. The geometry must be one the controller can address: one
    /// to four lines, and columns that keep every address command in one
    /// byte.
    pub fn new(bus: Bus, columns: usize, lines: usize) -> (r: Result<CharLCDRGBI2C, LcdError>)
        requires
            bus.wf(),
            1 <= lines <= 4,
            1 <= columns <= MAX_COLUMNS,
        ensures
            r is Ok <==> !bus.hits(construction_ops()),
            r matches Ok(lcd) ==> {
                &&& lcd.wf()
                &&& lcd.bus.ops@ == bus.ops@ + construction_ops()
                &&& lcd.bus.inputs@ == bus.inputs@
                &&& lcd.bus.fail_at == bus.fail_at
                &&& lcd.columns == columns
                &&& lcd.lines == lines
                &&& lcd.row == 0
                &&& lcd.column == 0
                &&& lcd.backlight == true
                &&& lcd.color_value == (0u8, 0u8, 0u8)
                &&& lcd.display_control == (LCD_DISPLAYON | LCD_CURSOROFF | LCD_BLINKOFF)
                &&& lcd.display_function == (LCD_4BITMODE | LCD_1LINE | LCD_2LINE | LCD_5X8DOTS)
                &&& lcd.display_mode == (LCD_ENTRYLEFT | LCD_ENTRYSHIFTDECREMENT)
                &&& lcd.column_align == false
                &&& lcd.direction == LEFT_TO_RIGHT
            },
            r matches Err(err) ==> err == LcdError::I2c,
    {
        let mut lcd = CharLCDRGBI2C {
            bus,
            columns,
            lines,
            backlight: true,
            color_value: (0, 0, 0),
            display_control: 0,
            display_mode: 0,
            display_function: 0,
            row: 0,
            column: 0,
            column_align: false,
            direction: LEFT_TO_RIGHT,
        };
        let ghost b0 = lcd.bus;
        match lcd.setup_pins() {
            Ok(()) => {},
            Err(err) => {
                proof {
                    Bus::lemma_step_err(b0, setup_ops(), init_ops());
                    assert(setup_ops() + init_ops() =~= construction_ops());
                }
                return Err(err);
            },
        }
        let ghost pre = lcd.bus;
        match lcd.initialize() {
            Ok(()) => {
                proof {
                    Bus::lemma_sub_ok(b0, pre, lcd.bus, setup_ops(), init_ops());
                    assert(setup_ops() + init_ops() =~= construction_ops());
                }
            },
            Err(err) => {
                proof {
                    Bus::lemma_sub_err(b0, pre, lcd.bus, setup_ops(), init_ops(), Seq::empty());
                    assert(setup_ops() + (init_ops() + Seq::<BusOp>::empty()) =~= construction_ops());
                }
                return Err(err);
            },
        }
        Ok(lcd)
    }
}

} // verus!
