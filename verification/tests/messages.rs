use char_lcd::bus::{Bus, BusOp};
use char_lcd::lcd::CharLCDRGBI2C;
use char_lcd::pins::{Mcp23017Pin, LCD_D4, LCD_D5, LCD_D6, LCD_D7, LCD_E, LCD_RS};
use char_lcd::LcdError;

fn w(pin: Mcp23017Pin, level: bool) -> BusOp {
    BusOp::WriteLevel(pin, level)
}

fn nibble(v: u8) -> Vec<BusOp> {
    vec![
        w(LCD_D4, v & 0x01 > 0),
        w(LCD_D5, v & 0x02 > 0),
        w(LCD_D6, v & 0x04 > 0),
        w(LCD_D7, v & 0x08 > 0),
        w(LCD_E, false),
        BusOp::WaitUs(1),
        w(LCD_E, true),
        BusOp::WaitUs(1),
        w(LCD_E, false),
        BusOp::WaitUs(100),
    ]
}

fn byte(v: u8, char_mode: bool) -> Vec<BusOp> {
    let mut ops = vec![w(LCD_RS, char_mode)];
    ops.extend(nibble(v >> 4));
    ops.extend(nibble(v & 0x0F));
    ops
}

fn new_lcd(columns: usize, lines: usize) -> CharLCDRGBI2C {
    CharLCDRGBI2C::new(Bus::new(), columns, lines).unwrap()
}

fn tail(lcd: &CharLCDRGBI2C, from: usize) -> Vec<BusOp> {
    lcd.bus.ops[from..].to_vec()
}

#[test]
fn message_always_resets_tracking_to_origin() {
    let mut lcd = new_lcd(16, 2);
    lcd.message(b"hello").unwrap();
    assert_eq!(lcd.row, 0);
    assert_eq!(lcd.column, 0);
    lcd.set_cursor(7, 1).unwrap();
    lcd.message(b"a\nb").unwrap();
    assert_eq!(lcd.row, 0);
    assert_eq!(lcd.column, 0);
}

#[test]
fn empty_message_issues_nothing_and_still_resets_tracking() {
    let mut lcd = new_lcd(16, 2);
    lcd.set_cursor(5, 1).unwrap();
    let n = lcd.bus.ops.len();
    lcd.message(b"").unwrap();
    assert_eq!(lcd.bus.ops.len(), n);
    assert_eq!(lcd.row, 0);
    assert_eq!(lcd.column, 0);
}

#[test]
fn second_message_starts_at_the_origin() {
    let mut lcd = new_lcd(16, 2);
    lcd.message(b"somewhere else").unwrap();
    let n = lcd.bus.ops.len();
    lcd.message(b"z").unwrap();
    let mut expected = byte(0x80, false);
    expected.extend(byte(b'z', true));
    assert_eq!(tail(&lcd, n), expected);
}

#[test]
fn message_writes_position_then_data_bytes() {
    let mut lcd = new_lcd(16, 2);
    let n = lcd.bus.ops.len();
    lcd.message(b"ab").unwrap();
    let mut expected = byte(0x80, false);
    expected.extend(byte(b'a', true));
    expected.extend(byte(b'b', true));
    assert_eq!(tail(&lcd, n), expected);
}

#[test]
fn line_break_left_to_right_returns_to_column_zero() {
    let mut lcd = new_lcd(16, 2);
    let n = lcd.bus.ops.len();
    lcd.message(b"ab\ncd").unwrap();
    let mut expected = byte(0x80, false);
    expected.extend(byte(b'a', true));
    expected.extend(byte(b'b', true));
    expected.extend(byte(0x80 | 0x40, false));
    expected.extend(byte(b'c', true));
    expected.extend(byte(b'd', true));
    assert_eq!(tail(&lcd, n), expected);
}

#[test]
fn line_break_right_to_left_returns_to_last_column() {
    let mut lcd = new_lcd(16, 2);
    lcd.display_mode = 0x00; // entry mode right to left
    let n = lcd.bus.ops.len();
    lcd.message(b"a\nb").unwrap();
    let mut expected = byte(0x80 | 15, false);
    expected.extend(byte(b'a', true));
    expected.extend(byte(0x80 | (15 + 0x40), false));
    expected.extend(byte(b'b', true));
    assert_eq!(tail(&lcd, n), expected);
}

#[test]
fn line_break_with_column_align_keeps_the_column() {
    let mut lcd = new_lcd(16, 2);
    lcd.column_align = true;
    lcd.set_cursor(4, 0).unwrap();
    let n = lcd.bus.ops.len();
    lcd.message(b"x\ny").unwrap();
    let mut expected = byte(0x80 | 4, false);
    expected.extend(byte(b'x', true));
    expected.extend(byte(0x80 | (4 + 0x40), false));
    expected.extend(byte(b'y', true));
    assert_eq!(tail(&lcd, n), expected);
}

#[test]
fn line_counter_past_the_panel_clamps_to_the_last_row() {
    let mut lcd = new_lcd(16, 2);
    let n = lcd.bus.ops.len();
    lcd.message(b"a\nb\nc").unwrap();
    let mut expected = byte(0x80, false);
    expected.extend(byte(b'a', true));
    expected.extend(byte(0x80 | 0x40, false));
    expected.extend(byte(b'b', true));
    expected.extend(byte(0x80 | 0x40, false));
    expected.extend(byte(b'c', true));
    assert_eq!(tail(&lcd, n), expected);
}

#[test]
fn message_propagates_a_bus_error() {
    let mut lcd = new_lcd(16, 2);
    let n = lcd.bus.ops.len();
    lcd.bus.schedule_failure(n + 21); // the data byte after the positioning
    let r = lcd.message(b"q");
    assert_eq!(r, Err(LcdError::I2c));
    assert_eq!(tail(&lcd, n), byte(0x80, false));
}
