//! PS/2 set-1 scancode handling.
//!
//! Tracks the Ctrl and Shift latches, translates printable scancodes
//! through a US QWERTY table onto the console, and reports the shutdown
//! chords Ctrl+X and Ctrl+C to the caller.

use vstd::prelude::*;

use crate::vga::{
    console_wf, spec_backspace, spec_new_line, spec_write_byte, spec_write_bytes, Console,
    ConsoleView,
};

verus! {

/// The modifier latches; flipped on press and release.
pub struct KeyboardState {
    pub ctrl_held: bool,
    pub shift_held: bool,
}

impl KeyboardState {
    pub fn new() -> (r: KeyboardState)
        ensures
            !r.ctrl_held,
            !r.shift_held,
    {
        KeyboardState { ctrl_held: false, shift_held: false }
    }
}

/// The unshifted US QWERTY table for printable set-1 scancodes.
pub open spec fn spec_map_normal(code: u8) -> Option<char> {
    if code == 0x02 { Some('1') }
    else if code == 0x03 { Some('2') }
    else if code == 0x04 { Some('3') }
    else if code == 0x05 { Some('4') }
    else if code == 0x06 { Some('5') }
    else if code == 0x07 { Some('6') }
    else if code == 0x08 { Some('7') }
    else if code == 0x09 { Some('8') }
    else if code == 0x0A { Some('9') }
    else if code == 0x0B { Some('0') }
    else if code == 0x0C { Some('-') }
    else if code == 0x0D { Some('=') }
    else if code == 0x10 { Some('q') }
    else if code == 0x11 { Some('w') }
    else if code == 0x12 { Some('e') }
    else if code == 0x13 { Some('r') }
    else if code == 0x14 { Some('t') }
    else if code == 0x15 { Some('y') }
    else if code == 0x16 { Some('u') }
    else if code == 0x17 { Some('i') }
    else if code == 0x18 { Some('o') }
    else if code == 0x19 { Some('p') }
    else if code == 0x1A { Some('[') }
    else if code == 0x1B { Some(']') }
    else if code == 0x1E { Some('a') }
    else if code == 0x1F { Some('s') }
    else if code == 0x20 { Some('d') }
    else if code == 0x21 { Some('f') }
    else if code == 0x22 { Some('g') }
    else if code == 0x23 { Some('h') }
    else if code == 0x24 { Some('j') }
    else if code == 0x25 { Some('k') }
    else if code == 0x26 { Some('l') }
    else if code == 0x27 { Some(';') }
    else if code == 0x28 { Some('\'') }
    else if code == 0x29 { Some('`') }
    else if code == 0x2B { Some('\\') }
    else if code == 0x2C { Some('z') }
    else if code == 0x2D { Some('x') }
    else if code == 0x2E { Some('c') }
    else if code == 0x2F { Some('v') }
    else if code == 0x30 { Some('b') }
    else if code == 0x31 { Some('n') }
    else if code == 0x32 { Some('m') }
    else if code == 0x33 { Some(',') }
    else if code == 0x34 { Some('.') }
    else if code == 0x35 { Some('/') }
    else if code == 0x39 { Some(' ') }
    else { None }
}

/// The shifted table.
pub open spec fn spec_map_shift(code: u8) -> Option<char> {
    if code == 0x02 { Some('!') }
    else if code == 0x03 { Some('@') }
    else if code == 0x04 { Some('#') }
    else if code == 0x05 { Some('$') }
    else if code == 0x06 { Some('%') }
    else if code == 0x07 { Some('^') }
    else if code == 0x08 { Some('&') }
    else if code == 0x09 { Some('*') }
    else if code == 0x0A { Some('(') }
    else if code == 0x0B { Some(')') }
    else if code == 0x0C { Some('_') }
    else if code == 0x0D { Some('+') }
    else if code == 0x10 { Some('Q') }
    else if code == 0x11 { Some('W') }
    else if code == 0x12 { Some('E') }
    else if code == 0x13 { Some('R') }
    else if code == 0x14 { Some('T') }
    else if code == 0x15 { Some('Y') }
    else if code == 0x16 { Some('U') }
    else if code == 0x17 { Some('I') }
    else if code == 0x18 { Some('O') }
    else if code == 0x19 { Some('P') }
    else if code == 0x1A { Some('{') }
    else if code == 0x1B { Some('}') }
    else if code == 0x1E { Some('A') }
    else if code == 0x1F { Some('S') }
    else if code == 0x20 { Some('D') }
    else if code == 0x21 { Some('F') }
    else if code == 0x22 { Some('G') }
    else if code == 0x23 { Some('H') }
    else if code == 0x24 { Some('J') }
    else if code == 0x25 { Some('K') }
    else if code == 0x26 { Some('L') }
    else if code == 0x27 { Some(':') }
    else if code == 0x28 { Some('"') }
    else if code == 0x29 { Some('~') }
    else if code == 0x2B { Some('|') }
    else if code == 0x2C { Some('Z') }
    else if code == 0x2D { Some('X') }
    else if code == 0x2E { Some('C') }
    else if code == 0x2F { Some('V') }
    else if code == 0x30 { Some('B') }
    else if code == 0x31 { Some('N') }
    else if code == 0x32 { Some('M') }
    else if code == 0x33 { Some('<') }
    else if code == 0x34 { Some('>') }
    else if code == 0x35 { Some('?') }
    else if code == 0x39 { Some(' ') }
    else { None }
}

fn map_normal(code: u8) -> (r: Option<char>)
    ensures
        r == spec_map_normal(code),
{
    if code == 0x02 { Some('1') }
    else if code == 0x03 { Some('2') }
    else if code == 0x04 { Some('3') }
    else if code == 0x05 { Some('4') }
    else if code == 0x06 { Some('5') }
    else if code == 0x07 { Some('6') }
    else if code == 0x08 { Some('7') }
    else if code == 0x09 { Some('8') }
    else if code == 0x0A { Some('9') }
    else if code == 0x0B { Some('0') }
    else if code == 0x0C { Some('-') }
    else if code == 0x0D { Some('=') }
    else if code == 0x10 { Some('q') }
    else if code == 0x11 { Some('w') }
    else if code == 0x12 { Some('e') }
    else if code == 0x13 { Some('r') }
    else if code == 0x14 { Some('t') }
    else if code == 0x15 { Some('y') }
    else if code == 0x16 { Some('u') }
    else if code == 0x17 { Some('i') }
    else if code == 0x18 { Some('o') }
    else if code == 0x19 { Some('p') }
    else if code == 0x1A { Some('[') }
    else if code == 0x1B { Some(']') }
    else if code == 0x1E { Some('a') }
    else if code == 0x1F { Some('s') }
    else if code == 0x20 { Some('d') }
    else if code == 0x21 { Some('f') }
    else if code == 0x22 { Some('g') }
    else if code == 0x23 { Some('h') }
    else if code == 0x24 { Some('j') }
    else if code == 0x25 { Some('k') }
    else if code == 0x26 { Some('l') }
    else if code == 0x27 { Some(';') }
    else if code == 0x28 { Some('\'') }
    else if code == 0x29 { Some('`') }
    else if code == 0x2B { Some('\\') }
    else if code == 0x2C { Some('z') }
    else if code == 0x2D { Some('x') }
    else if code == 0x2E { Some('c') }
    else if code == 0x2F { Some('v') }
    else if code == 0x30 { Some('b') }
    else if code == 0x31 { Some('n') }
    else if code == 0x32 { Some('m') }
    else if code == 0x33 { Some(',') }
    else if code == 0x34 { Some('.') }
    else if code == 0x35 { Some('/') }
    else if code == 0x39 { Some(' ') }
    else { None }
}

fn map_shift(code: u8) -> (r: Option<char>)
    ensures
        r == spec_map_shift(code),
{
    if code == 0x02 { Some('!') }
    else if code == 0x03 { Some('@') }
    else if code == 0x04 { Some('#') }
    else if code == 0x05 { Some('$') }
    else if code == 0x06 { Some('%') }
    else if code == 0x07 { Some('^') }
    else if code == 0x08 { Some('&') }
    else if code == 0x09 { Some('*') }
    else if code == 0x0A { Some('(') }
    else if code == 0x0B { Some(')') }
    else if code == 0x0C { Some('_') }
    else if code == 0x0D { Some('+') }
    else if code == 0x10 { Some('Q') }
    else if code == 0x11 { Some('W') }
    else if code == 0x12 { Some('E') }
    else if code == 0x13 { Some('R') }
    else if code == 0x14 { Some('T') }
    else if code == 0x15 { Some('Y') }
    else if code == 0x16 { Some('U') }
    else if code == 0x17 { Some('I') }
    else if code == 0x18 { Some('O') }
    else if code == 0x19 { Some('P') }
    else if code == 0x1A { Some('{') }
    else if code == 0x1B { Some('}') }
    else if code == 0x1E { Some('A') }
    else if code == 0x1F { Some('S') }
    else if code == 0x20 { Some('D') }
    else if code == 0x21 { Some('F') }
    else if code == 0x22 { Some('G') }
    else if code == 0x23 { Some('H') }
    else if code == 0x24 { Some('J') }
    else if code == 0x25 { Some('K') }
    else if code == 0x26 { Some('L') }
    else if code == 0x27 { Some(':') }
    else if code == 0x28 { Some('"') }
    else if code == 0x29 { Some('~') }
    else if code == 0x2B { Some('|') }
    else if code == 0x2C { Some('Z') }
    else if code == 0x2D { Some('X') }
    else if code == 0x2E { Some('C') }
    else if code == 0x2F { Some('V') }
    else if code == 0x30 { Some('B') }
    else if code == 0x31 { Some('N') }
    else if code == 0x32 { Some('M') }
    else if code == 0x33 { Some('<') }
    else if code == 0x34 { Some('>') }
    else if code == 0x35 { Some('?') }
    else if code == 0x39 { Some(' ') }
    else { None }
}

/// The scancode with the release bit stripped.
pub open spec fn spec_code_of(sc: u8) -> u8 {
    if sc >= 0x80 {
        (sc - 0x80) as u8
    } else {
        sc
    }
}

pub open spec fn spec_is_release(sc: u8) -> bool {
    sc >= 0x80
}

/// The low seven bits of a printable character, as the console stores it.
pub open spec fn glyph_byte(c: char) -> u8 {
    (c as u32) as u8
}

pub open spec fn four_spaces() -> Seq<u8> {
    seq![32u8, 32u8, 32u8, 32u8]
}

/// The modifier latches after one scancode.
pub open spec fn spec_handle_state(st: KeyboardState, sc: u8) -> KeyboardState {
    let code = spec_code_of(sc);
    if sc == 0xE0 {
        st
    } else if code == 0x2A || code == 0x36 {
        KeyboardState { shift_held: !spec_is_release(sc), ..st }
    } else if code == 0x1D {
        KeyboardState { ctrl_held: !spec_is_release(sc), ..st }
    } else {
        st
    }
}

/// What one scancode does to the console.
pub open spec fn spec_handle_console(v: ConsoleView, st: KeyboardState, sc: u8) -> ConsoleView {
    let code = spec_code_of(sc);
    if sc == 0xE0 || spec_is_release(sc) {
        v
    } else if code == 0x2A || code == 0x36 || code == 0x1D || code == 0x2D || code == 0x2E {
        v
    } else if code == 0x0E {
        spec_backspace(v)
    } else if code == 0x0F {
        spec_write_bytes(v, four_spaces())
    } else if code == 0x1C {
        spec_new_line(v)
    } else {
        match (if st.shift_held {
            spec_map_shift(code)
        } else {
            spec_map_normal(code)
        }) {
            Some(ch) => spec_write_byte(v, glyph_byte(ch)),
            None => v,
        }
    }
}

/// Handles one raw set-1 scancode: updates the modifier latches, echoes
/// printable keys to the console, and names the chord when Ctrl+X or
/// Ctrl+C was pressed.
pub fn handle_scancode(st: &mut KeyboardState, con: &mut Console, scancode: u8) -> (r: Option<
    &'static str,
>)
    requires
        console_wf(old(con)@),
    ensures
        console_wf(final(con)@),
        *final(st) == spec_handle_state(*old(st), scancode),
        final(con)@ == spec_handle_console(old(con)@, *old(st), scancode),
        match r {
            Some(combo) => {
                &&& !spec_is_release(scancode)
                &&& old(st).ctrl_held
                &&& (spec_code_of(scancode) == 0x2D || spec_code_of(scancode) == 0x2E)
                &&& combo@ == if spec_code_of(scancode) == 0x2D {
                    "Ctrl+X"@
                } else {
                    "Ctrl+C"@
                }
            },
            None => !(!spec_is_release(scancode) && old(st).ctrl_held && (spec_code_of(
                scancode,
            ) == 0x2D || spec_code_of(scancode) == 0x2E)) || scancode == 0xE0,
        },
{
    if scancode == 0xE0 {
        return None;
    }

    let is_release: bool = scancode >= 0x80;
    let code: u8 = if scancode >= 0x80 {
        scancode - 0x80
    } else {
        scancode
    };

    if code == 0x2A || code == 0x36 {
        st.shift_held = !is_release;
        None
    } else if code == 0x1D {
        st.ctrl_held = !is_release;
        None
    } else if code == 0x2D {
        if !is_release && st.ctrl_held {
            Some("Ctrl+X")
        } else {
            None
        }
    } else if code == 0x2E {
        if !is_release && st.ctrl_held {
            Some("Ctrl+C")
        } else {
            None
        }
    } else if code == 0x0E {
        if !is_release {
            con.backspace();
        }
        None
    } else if code == 0x0F {
        if !is_release {
            con.write_byte(32);
            con.write_byte(32);
            con.write_byte(32);
            con.write_byte(32);
            proof {
                reveal_with_fuel(spec_write_bytes, 5);
                assert(four_spaces().drop_first() =~= seq![32u8, 32u8, 32u8]);
                assert(four_spaces().drop_first().drop_first() =~= seq![32u8, 32u8]);
                assert(four_spaces().drop_first().drop_first().drop_first() =~= seq![32u8]);
                assert(four_spaces().drop_first().drop_first().drop_first().drop_first()
                    =~= Seq::<u8>::empty());
                assert(con@ == spec_write_bytes(old(con)@, four_spaces()));
            }
        }
        None
    } else if code == 0x1C {
        if !is_release {
            con.new_line();
        }
        None
    } else {
        if !is_release {
            let shifted: bool = st.shift_held;
            let ch: Option<char> = if shifted {
                map_shift(code)
            } else {
                map_normal(code)
            };
            match ch {
                Some(c) => {
                    let code_point: u32 = c as u32;
                    if code_point < 128 {
                        con.write_byte(code_point as u8);
                    }
                    proof {
                        assert((c as u32) < 128);
                    }
                },
                None => {},
            }
        }
        None
    }
}

} // verus!
