use kernel_core::keyboard::{handle_scancode, KeyboardState};
use kernel_core::vga::Console;

#[test]
fn ctrl_x_triggers_shutdown() {
    let mut st = KeyboardState::new();
    let mut con = Console::new();

    assert_eq!(handle_scancode(&mut st, &mut con, 0x1D), None);
    assert_eq!(handle_scancode(&mut st, &mut con, 0x2D), Some("Ctrl+X"));
    handle_scancode(&mut st, &mut con, 0x9D);
    assert!(!st.ctrl_held);
}

#[test]
fn ctrl_c_triggers_shutdown() {
    let mut st = KeyboardState::new();
    let mut con = Console::new();

    assert_eq!(handle_scancode(&mut st, &mut con, 0x1D), None);
    assert_eq!(handle_scancode(&mut st, &mut con, 0x2E), Some("Ctrl+C"));
    handle_scancode(&mut st, &mut con, 0x9D);
    assert!(!st.ctrl_held);
}

#[test]
fn release_clears_ctrl_state() {
    let mut st = KeyboardState::new();
    let mut con = Console::new();

    handle_scancode(&mut st, &mut con, 0x1D);
    handle_scancode(&mut st, &mut con, 0x9D);
    assert_eq!(handle_scancode(&mut st, &mut con, 0x2D), None);
}

#[test]
fn shift_picks_the_upper_glyph() {
    let mut st = KeyboardState::new();
    let mut con = Console::new();

    // 'a' unshifted, then Shift down, 'a' again -> "aA" on the top row.
    handle_scancode(&mut st, &mut con, 0x1E);
    handle_scancode(&mut st, &mut con, 0x2A);
    handle_scancode(&mut st, &mut con, 0x1E);
    assert_eq!(con.cells[0] & 0xFF, u16::from(b'a'));
    assert_eq!(con.cells[1] & 0xFF, u16::from(b'A'));
    // Shift release goes back to lower case.
    handle_scancode(&mut st, &mut con, 0xAA);
    handle_scancode(&mut st, &mut con, 0x10);
    assert_eq!(con.cells[2] & 0xFF, u16::from(b'q'));
}

#[test]
fn enter_tab_and_backspace_drive_the_console() {
    let mut st = KeyboardState::new();
    let mut con = Console::new();

    // Tab prints four spaces.
    handle_scancode(&mut st, &mut con, 0x0F);
    assert_eq!(con.column_position, 4);
    // Enter feeds a line.
    handle_scancode(&mut st, &mut con, 0x1C);
    assert_eq!(con.row_position, 1);
    assert_eq!(con.column_position, 0);
    // Backspace at the row start climbs to the end of the previous row.
    handle_scancode(&mut st, &mut con, 0x0E);
    assert_eq!(con.row_position, 0);
    assert_eq!(con.column_position, 79);
}

#[test]
fn extended_prefix_is_ignored() {
    let mut st = KeyboardState::new();
    let mut con = Console::new();

    assert_eq!(handle_scancode(&mut st, &mut con, 0xE0), None);
    assert!(!st.ctrl_held);
    assert!(!st.shift_held);
    assert_eq!(con.column_position, 0);
}
