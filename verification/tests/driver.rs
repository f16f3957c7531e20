use char_lcd::bus::{Bus, BusOp, PinMode};
use char_lcd::lcd::CharLCDRGBI2C;
use char_lcd::pins::{
    Mcp23017Pin, BTN_DOWN, BTN_LEFT, BTN_RIGHT, BTN_SELECT, BTN_UP, LCD_BACKLIGHT, LCD_D4, LCD_D5,
    LCD_D6, LCD_D7, LCD_E, LCD_RS, LCD_RW, RGB_BLUE, RGB_GREEN, RGB_RED,
};
use char_lcd::LcdError;

fn w(pin: Mcp23017Pin, level: bool) -> BusOp {
    BusOp::WriteLevel(pin, level)
}

fn mode(pin: Mcp23017Pin, output: bool) -> BusOp {
    BusOp::SetMode(pin, if output { PinMode::Output } else { PinMode::Input })
}

fn pulse() -> Vec<BusOp> {
    vec![
        w(LCD_E, false),
        BusOp::WaitUs(1),
        w(LCD_E, true),
        BusOp::WaitUs(1),
        w(LCD_E, false),
        BusOp::WaitUs(100),
    ]
}

fn nibble(v: u8) -> Vec<BusOp> {
    let mut ops = vec![
        w(LCD_D4, v & 0x01 > 0),
        w(LCD_D5, v & 0x02 > 0),
        w(LCD_D6, v & 0x04 > 0),
        w(LCD_D7, v & 0x08 > 0),
    ];
    ops.extend(pulse());
    ops
}

fn byte(v: u8, char_mode: bool) -> Vec<BusOp> {
    let mut ops = vec![w(LCD_RS, char_mode)];
    ops.extend(nibble(v >> 4));
    ops.extend(nibble(v & 0x0F));
    ops
}

fn color(r: u8, g: u8, b: u8) -> Vec<BusOp> {
    vec![w(RGB_RED, r <= 1), w(RGB_GREEN, g <= 1), w(RGB_BLUE, b <= 1)]
}

fn construction() -> Vec<BusOp> {
    let mut ops = Vec::new();
    for pin in [LCD_RS, LCD_E, LCD_D4, LCD_D5, LCD_D6, LCD_D7, LCD_RW] {
        ops.push(mode(pin, true));
    }
    for pin in [RGB_RED, RGB_GREEN, RGB_BLUE] {
        ops.push(mode(pin, true));
    }
    for pin in [BTN_LEFT, BTN_UP, BTN_DOWN, BTN_RIGHT, BTN_SELECT] {
        ops.push(mode(pin, false));
        ops.push(BusOp::SetPullUp(pin, true));
    }
    ops.push(BusOp::WaitMs(50));
    ops.push(w(LCD_RS, false));
    ops.push(w(LCD_E, false));
    ops.push(w(LCD_RW, false));
    for (v, ms) in [(0x03, 5), (0x03, 5), (0x03, 1), (0x02, 1)] {
        ops.extend(nibble(v));
        ops.push(BusOp::WaitMs(ms));
    }
    ops.extend(byte(0x28, false)); // function set: 4-bit, 1-line and 2-line, 5x8 font
    ops.extend(byte(0x0C, false)); // display control: display on, cursor off, blink off
    ops.extend(byte(0x06, false)); // entry mode: left to right, no shift
    ops.extend(byte(0x01, false)); // clear display
    ops.push(BusOp::WaitMs(3));
    ops.extend(color(0, 0, 0));
    ops
}

fn new_lcd(columns: usize, lines: usize) -> CharLCDRGBI2C {
    CharLCDRGBI2C::new(Bus::new(), columns, lines).unwrap()
}

fn tail(lcd: &CharLCDRGBI2C, from: usize) -> Vec<BusOp> {
    lcd.bus.ops[from..].to_vec()
}

#[test]
fn construction_issues_reset_config_clear_and_color_off() {
    let lcd = new_lcd(16, 2);
    assert_eq!(lcd.bus.ops, construction());
    assert_eq!(lcd.row, 0);
    assert_eq!(lcd.column, 0);
    assert!(lcd.backlight);
    assert_eq!(lcd.color_value, (0, 0, 0));
    assert_eq!(lcd.display_control, 0x04);
    assert_eq!(lcd.display_function, 0x08);
    assert_eq!(lcd.display_mode, 0x02);
    assert_eq!(lcd.columns, 16);
    assert_eq!(lcd.lines, 2);
}

#[test]
fn set_cursor_issues_one_address_command() {
    let offsets = [0x00u8, 0x40, 0x14, 0x54];
    let mut lcd = new_lcd(20, 4);
    for (col, row) in [(0usize, 0usize), (5, 1), (19, 2), (7, 3)] {
        let n = lcd.bus.ops.len();
        lcd.set_cursor(col, row).unwrap();
        assert_eq!(tail(&lcd, n), byte(0x80 | (col as u8 + offsets[row]), false));
        assert_eq!(lcd.row, row);
        assert_eq!(lcd.column, col);
    }
}

#[test]
fn set_cursor_rejects_row_out_of_range_without_traffic() {
    let mut lcd = new_lcd(16, 2);
    lcd.set_cursor(3, 1).unwrap();
    let n = lcd.bus.ops.len();
    let r = lcd.set_cursor(0, 2);
    assert_eq!(r, Err(LcdError::Other));
    assert_eq!(lcd.bus.ops.len(), n);
    assert_eq!(lcd.row, 1);
    assert_eq!(lcd.column, 3);
}

#[test]
fn cursor_position_clamps_instead_of_failing() {
    let mut lcd = new_lcd(16, 2);
    let n = lcd.bus.ops.len();
    lcd.cursor_position(99, 7).unwrap();
    assert_eq!(tail(&lcd, n), byte(0x80 | (15 + 0x40), false));
    assert_eq!(lcd.row, 1);
    assert_eq!(lcd.column, 15);
    let n = lcd.bus.ops.len();
    lcd.cursor_position(4, 0).unwrap();
    assert_eq!(tail(&lcd, n), byte(0x80 | 4, false));
    assert_eq!(lcd.row, 0);
    assert_eq!(lcd.column, 4);
}

#[test]
fn write8_sends_high_nibble_then_low_nibble() {
    let mut lcd = new_lcd(16, 2);
    let n = lcd.bus.ops.len();
    lcd.write8(0xA7, true).unwrap();
    assert_eq!(tail(&lcd, n), byte(0xA7, true));
    let mut expected = vec![w(LCD_RS, true)];
    expected.extend(nibble(0x0A));
    expected.extend(nibble(0x07));
    assert_eq!(tail(&lcd, n), expected);
}

#[test]
fn write4bits_sets_data_lines_and_pulses_once() {
    let mut lcd = new_lcd(16, 2);
    let n = lcd.bus.ops.len();
    lcd.write4bits(0x05).unwrap();
    let mut expected = vec![
        w(LCD_D4, true),
        w(LCD_D5, false),
        w(LCD_D6, true),
        w(LCD_D7, false),
    ];
    expected.extend(pulse());
    assert_eq!(tail(&lcd, n), expected);
}

#[test]
fn clear_resets_cursor_and_waits() {
    let mut lcd = new_lcd(16, 2);
    lcd.set_cursor(5, 1).unwrap();
    let n = lcd.bus.ops.len();
    lcd.clear().unwrap();
    let mut expected = byte(0x01, false);
    expected.push(BusOp::WaitMs(3));
    assert_eq!(tail(&lcd, n), expected);
    assert_eq!(lcd.row, 0);
    assert_eq!(lcd.column, 0);
}

#[test]
fn home_resets_cursor_and_waits() {
    let mut lcd = new_lcd(16, 2);
    lcd.set_cursor(5, 1).unwrap();
    let n = lcd.bus.ops.len();
    lcd.home().unwrap();
    let mut expected = byte(0x02, false);
    expected.push(BusOp::WaitMs(3));
    assert_eq!(tail(&lcd, n), expected);
    assert_eq!(lcd.row, 0);
    assert_eq!(lcd.column, 0);
}

#[test]
fn set_color_switches_channels_at_value_two() {
    let mut lcd = new_lcd(16, 2);
    let n = lcd.bus.ops.len();
    lcd.set_color(0, 0, 0).unwrap();
    assert_eq!(tail(&lcd, n), vec![w(RGB_RED, true), w(RGB_GREEN, true), w(RGB_BLUE, true)]);
    let n = lcd.bus.ops.len();
    lcd.set_color(255, 255, 255).unwrap();
    assert_eq!(tail(&lcd, n), vec![w(RGB_RED, false), w(RGB_GREEN, false), w(RGB_BLUE, false)]);
    let n = lcd.bus.ops.len();
    lcd.set_color(1, 1, 1).unwrap();
    assert_eq!(tail(&lcd, n), vec![w(RGB_RED, true), w(RGB_GREEN, true), w(RGB_BLUE, true)]);
    let n = lcd.bus.ops.len();
    lcd.set_color(2, 2, 2).unwrap();
    assert_eq!(tail(&lcd, n), vec![w(RGB_RED, false), w(RGB_GREEN, false), w(RGB_BLUE, false)]);
    let n = lcd.bus.ops.len();
    lcd.set_color(200, 1, 2).unwrap();
    assert_eq!(tail(&lcd, n), vec![w(RGB_RED, false), w(RGB_GREEN, true), w(RGB_BLUE, false)]);
    assert_eq!(lcd.color_value, (200, 1, 2));
}

#[test]
fn backlight_toggle_is_two_mode_changes_and_no_level_write() {
    let mut lcd = new_lcd(16, 2);
    let n = lcd.bus.ops.len();
    lcd.set_backlight(false).unwrap();
    assert!(!lcd.backlight);
    lcd.set_backlight(true).unwrap();
    assert!(lcd.backlight);
    assert_eq!(
        tail(&lcd, n),
        vec![mode(LCD_BACKLIGHT, false), mode(LCD_BACKLIGHT, true)]
    );
    for op in &lcd.bus.ops {
        assert!(*op != w(LCD_BACKLIGHT, true));
        assert!(*op != w(LCD_BACKLIGHT, false));
    }
}

#[test]
fn buttons_read_their_own_lines() {
    let mut lcd = new_lcd(16, 2);
    lcd.bus.set_input(BTN_LEFT, true);
    lcd.bus.set_input(BTN_SELECT, true);
    assert_eq!(lcd.read_button_left(), Ok(true));
    assert_eq!(lcd.read_button_right(), Ok(false));
    assert_eq!(lcd.read_button_up(), Ok(false));
    assert_eq!(lcd.read_button_down(), Ok(false));
    assert_eq!(lcd.read_button_select(), Ok(true));
    let n = lcd.bus.ops.len();
    assert_eq!(
        &lcd.bus.ops[n - 5..],
        &[
            BusOp::ReadLevel(BTN_LEFT),
            BusOp::ReadLevel(BTN_RIGHT),
            BusOp::ReadLevel(BTN_UP),
            BusOp::ReadLevel(BTN_DOWN),
            BusOp::ReadLevel(BTN_SELECT),
        ]
    );
}

#[test]
fn construction_fails_on_an_injected_bus_error() {
    let mut bus = Bus::new();
    bus.schedule_failure(0);
    assert!(matches!(CharLCDRGBI2C::new(bus, 16, 2), Err(LcdError::I2c)));
    let mut bus = Bus::new();
    bus.schedule_failure(24); // first data-line write of the reset nibbles
    assert!(matches!(CharLCDRGBI2C::new(bus, 16, 2), Err(LcdError::I2c)));
}

#[test]
fn bus_error_mid_command_leaves_the_prefix_sent() {
    let mut lcd = new_lcd(16, 2);
    let n = lcd.bus.ops.len();
    // The third transaction of the address command fails: the two before
    // it stay recorded, nothing after it is attempted.
    lcd.bus.schedule_failure(n + 2);
    let r = lcd.set_cursor(3, 1);
    assert_eq!(r, Err(LcdError::I2c));
    assert_eq!(tail(&lcd, n), byte(0x80 | (3 + 0x40), false)[..2].to_vec());
    assert_eq!(lcd.row, 0);
    assert_eq!(lcd.column, 0);
}

#[test]
fn waits_do_not_fail_even_at_the_injected_position() {
    let mut lcd = new_lcd(16, 2);
    let n = lcd.bus.ops.len();
    // Position n + 6 inside the enable pulse holds a wait; the failure is
    // never taken and the whole command goes through.
    lcd.bus.schedule_failure(n + 6);
    lcd.set_cursor(3, 1).unwrap();
    assert_eq!(tail(&lcd, n), byte(0x80 | (3 + 0x40), false));
}
