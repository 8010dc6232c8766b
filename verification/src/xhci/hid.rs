//! HID boot-keyboard report decoding.
//!
//! A report is eight bytes: a modifier bitmap, a reserved byte, then up to
//! six key usages. Only the first usage is decoded; Shift picks the upper
//! glyph, Enter feeds a line, Backspace erases.

use vstd::prelude::*;

use crate::vga::{
    console_wf, spec_backspace, spec_new_line, spec_write_byte, Console, ConsoleView,
};

verus! {

/// The printable character for a usage code, honoring Shift. Enter (0x28)
/// and Backspace (0x2a) act on the console instead and map to nothing.
pub open spec fn spec_hid_char(usage: u8, shift: bool) -> Option<char> {
    if 0x04 <= usage <= 0x1d {
        let base: u8 = if shift {
            65
        } else {
            97
        };
        Some(((base + (usage - 0x04)) as u8) as char)
    } else if 0x1e <= usage <= 0x26 {
        Some(((49 + (usage - 0x1e)) as u8) as char)
    } else if usage == 0x27 {
        Some('0')
    } else if usage == 0x2c {
        Some(' ')
    } else if usage == 0x2d {
        Some(if shift { '_' } else { '-' })
    } else if usage == 0x2e {
        Some(if shift { '+' } else { '=' })
    } else if usage == 0x2f {
        Some(if shift { '{' } else { '[' })
    } else if usage == 0x30 {
        Some(if shift { '}' } else { ']' })
    } else if usage == 0x31 {
        Some(if shift { '|' } else { '\\' })
    } else if usage == 0x33 {
        Some(if shift { ':' } else { ';' })
    } else if usage == 0x34 {
        Some(if shift { '"' } else { '\'' })
    } else if usage == 0x36 {
        Some(if shift { '<' } else { ',' })
    } else if usage == 0x37 {
        Some(if shift { '>' } else { '.' })
    } else if usage == 0x38 {
        Some(if shift { '?' } else { '/' })
    } else {
        None
    }
}

/// What one usage does to the console: Enter feeds, Backspace erases, a
/// printable glyph is written, anything else leaves it alone.
pub open spec fn spec_hid_console(v: ConsoleView, usage: u8, shift: bool) -> ConsoleView {
    if usage == 0x28 {
        spec_new_line(v)
    } else if usage == 0x2a {
        spec_backspace(v)
    } else {
        match spec_hid_char(usage, shift) {
            Some(c) => spec_write_byte(v, (c as u32) as u8),
            None => v,
        }
    }
}

/// Shift is held when either modifier bit 1 (left) or bit 5 (right) is set.
pub open spec fn spec_hid_shift(modifiers: u8) -> bool {
    (modifiers / 2) % 2 == 1 || (modifiers / 32) % 2 == 1
}

/// Translate one usage, applying Enter and Backspace directly.
pub fn hid_usage_to_ascii(usage: u8, shift: bool, con: &mut Console) -> (r: Option<char>)
    requires
        console_wf(old(con)@),
    ensures
        console_wf(final(con)@),
        r == spec_hid_char(usage, shift),
        final(con)@ == if usage == 0x28 {
            spec_new_line(old(con)@)
        } else if usage == 0x2a {
            spec_backspace(old(con)@)
        } else {
            old(con)@
        },
{
    if 0x04 <= usage && usage <= 0x1d {
        let base: u8 = if shift {
            65
        } else {
            97
        };
        let b: u8 = base + (usage - 0x04);
        Some(b as char)
    } else if 0x1e <= usage && usage <= 0x26 {
        let b: u8 = 49 + (usage - 0x1e);
        Some(b as char)
    } else if usage == 0x27 {
        Some('0')
    } else if usage == 0x28 {
        con.new_line();
        None
    } else if usage == 0x2a {
        con.backspace();
        None
    } else if usage == 0x2c {
        Some(' ')
    } else if usage == 0x2d {
        Some(if shift { '_' } else { '-' })
    } else if usage == 0x2e {
        Some(if shift { '+' } else { '=' })
    } else if usage == 0x2f {
        Some(if shift { '{' } else { '[' })
    } else if usage == 0x30 {
        Some(if shift { '}' } else { ']' })
    } else if usage == 0x31 {
        Some(if shift { '|' } else { '\\' })
    } else if usage == 0x33 {
        Some(if shift { ':' } else { ';' })
    } else if usage == 0x34 {
        Some(if shift { '"' } else { '\'' })
    } else if usage == 0x36 {
        Some(if shift { '<' } else { ',' })
    } else if usage == 0x37 {
        Some(if shift { '>' } else { '.' })
    } else if usage == 0x38 {
        Some(if shift { '?' } else { '/' })
    } else {
        None
    }
}

/// Decode the first key of a boot-keyboard report onto the console:
/// byte 0 is the modifier bitmap, byte 2 the first usage.
pub fn decode_hid_report(report: &Vec<u8>, con: &mut Console)
    requires
        console_wf(old(con)@),
        report@.len() >= 3,
    ensures
        console_wf(final(con)@),
        final(con)@ == spec_hid_console(
            old(con)@,
            report@[2],
            spec_hid_shift(report@[0]),
        ),
{
    let modifiers: u8 = report[0];
    let shift: bool = (modifiers / 2) % 2 == 1 || (modifiers / 32) % 2 == 1;
    let key: u8 = report[2];
    let ch: Option<char> = hid_usage_to_ascii(key, shift, con);
    match ch {
        Some(c) => {
            let code_point: u32 = c as u32;
            if code_point < 128 {
                con.write_byte(code_point as u8);
            }
            proof {
                assert((c as u32) < 128);
            }
        },
        None => {},
    }
}

} // verus!
