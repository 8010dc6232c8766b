//! Text console model.
//!
//! An 80x25 grid of character/style cells with a cursor, exactly the VGA
//! text buffer discipline: bytes advance the cursor, a newline moves down or
//! scrolls the grid up one row, a carriage return rewinds the column, and
//! backspace blanks the previous cell. The binary blits `cells` into the
//! real buffer; everything observable is decided here.

use vstd::prelude::*;
use vstd::string::StringSliceAdditionalSpecFns;

verus! {

pub const BUFFER_WIDTH: usize = 80;
pub const BUFFER_HEIGHT: usize = 25;
pub const DEFAULT_STYLE: u8 = 0x0f;

pub struct Console {
    pub cells: Vec<u16>,
    pub column_position: usize,
    pub row_position: usize,
    pub style: u8,
}

/// The console as a mathematical value.
pub struct ConsoleView {
    pub cells: Seq<u16>,
    pub row: int,
    pub col: int,
    pub style: u8,
}

impl View for Console {
    type V = ConsoleView;

    open spec fn view(&self) -> ConsoleView {
        ConsoleView {
            cells: self.cells@,
            row: self.row_position as int,
            col: self.column_position as int,
            style: self.style,
        }
    }
}

/// A full grid, the column at most one past the right edge (a byte written
/// there wraps first), the row always on the grid.
pub open spec fn console_wf(v: ConsoleView) -> bool {
    &&& v.cells.len() == 2000
    &&& 0 <= v.col <= 80
    &&& 0 <= v.row < 25
}

/// One cell: style in the high byte, the glyph in the low byte.
pub open spec fn entry_of(style: u8, byte: u8) -> u16 {
    (style * 256 + byte) as u16
}

pub open spec fn blank_entry(style: u8) -> u16 {
    entry_of(style, 32)
}

/// Every row moved up one; the freed bottom row blanked.
pub open spec fn spec_scrolled(cells: Seq<u16>, style: u8) -> Seq<u16> {
    Seq::new(2000, |i: int| if i < 1920 { cells[i + 80] } else { blank_entry(style) })
}

pub open spec fn spec_new_line(v: ConsoleView) -> ConsoleView {
    if v.row < 24 {
        ConsoleView { col: 0, row: v.row + 1, ..v }
    } else {
        ConsoleView { col: 0, cells: spec_scrolled(v.cells, v.style), ..v }
    }
}

pub open spec fn spec_write_byte(v: ConsoleView, b: u8) -> ConsoleView {
    let base = if v.col >= 80 {
        spec_new_line(v)
    } else {
        v
    };
    ConsoleView {
        cells: base.cells.update(base.row * 80 + base.col, entry_of(base.style, b)),
        col: base.col + 1,
        ..base
    }
}

/// What one byte of a string does: newline feeds, carriage return rewinds,
/// anything else prints.
pub open spec fn spec_byte_step(v: ConsoleView, b: u8) -> ConsoleView {
    if b == 10 {
        spec_new_line(v)
    } else if b == 13 {
        ConsoleView { col: 0, ..v }
    } else {
        spec_write_byte(v, b)
    }
}

pub open spec fn spec_write_bytes(v: ConsoleView, s: Seq<u8>) -> ConsoleView
    decreases s.len(),
{
    if s.len() == 0 {
        v
    } else {
        spec_write_bytes(spec_byte_step(v, s[0]), s.drop_first())
    }
}

pub open spec fn spec_backspace(v: ConsoleView) -> ConsoleView {
    if v.col > 0 {
        ConsoleView {
            col: v.col - 1,
            cells: v.cells.update(v.row * 80 + (v.col - 1), blank_entry(v.style)),
            ..v
        }
    } else if v.row > 0 {
        ConsoleView {
            row: v.row - 1,
            col: 79,
            cells: v.cells.update((v.row - 1) * 80 + 79, blank_entry(v.style)),
            ..v
        }
    } else {
        v
    }
}

pub open spec fn spec_cleared(style: u8) -> Seq<u16> {
    Seq::new(2000, |i: int| blank_entry(style))
}

/// Writing a string one byte at a time steps the model one byte at a time.
pub proof fn lemma_write_bytes_push(v: ConsoleView, s: Seq<u8>, b: u8)
    ensures
        spec_write_bytes(v, s.push(b)) == spec_byte_step(spec_write_bytes(v, s), b),
    decreases s.len(),
{
    reveal_with_fuel(spec_write_bytes, 3);
    if s.len() == 0 {
        assert(s.push(b).drop_first() =~= Seq::<u8>::empty());
        assert(s.push(b)[0] == b);
    } else {
        assert(s.push(b).drop_first() =~= s.drop_first().push(b));
        assert(s.push(b)[0] == s[0]);
        lemma_write_bytes_push(spec_byte_step(v, s[0]), s.drop_first(), b);
    }
}

/// Every console step keeps the console well formed.
pub proof fn lemma_byte_step_wf(v: ConsoleView, b: u8)
    requires
        console_wf(v),
    ensures
        console_wf(spec_byte_step(v, b)),
        spec_byte_step(v, b).style == v.style,
{
}

pub proof fn lemma_write_bytes_wf(v: ConsoleView, s: Seq<u8>)
    requires
        console_wf(v),
    ensures
        console_wf(spec_write_bytes(v, s)),
        spec_write_bytes(v, s).style == v.style,
    decreases s.len(),
{
    if s.len() > 0 {
        lemma_byte_step_wf(v, s[0]);
        lemma_write_bytes_wf(spec_byte_step(v, s[0]), s.drop_first());
    }
}

impl Console {
    /// A blank console with the default style.
    pub fn new() -> (r: Console)
        ensures
            console_wf(r@),
            r@.cells == spec_cleared(DEFAULT_STYLE),
            r@.row == 0,
            r@.col == 0,
            r@.style == DEFAULT_STYLE,
    {
        let mut cells: Vec<u16> = Vec::new();
        let blank: u16 = (DEFAULT_STYLE as u16) * 256 + 32;
        let mut i: usize = 0;
        while i < 2000
            invariant
                i <= 2000,
                cells@.len() == i,
                blank == blank_entry(DEFAULT_STYLE),
                forall|k: int| 0 <= k < i ==> cells@[k] == blank_entry(DEFAULT_STYLE),
            decreases 2000 - i,
        {
            cells.push(blank);
            i = i + 1;
        }
        let r = Console { cells, column_position: 0, row_position: 0, style: DEFAULT_STYLE };
        proof {
            assert(r@.cells =~= spec_cleared(DEFAULT_STYLE));
        }
        r
    }

    fn read_entry_at(&self, row: usize, col: usize) -> (r: u16)
        requires
            console_wf(self@),
            row < 25,
            col < 80,
        ensures
            r == self@.cells[row * 80 + col],
    {
        self.cells[row * 80 + col]
    }

    fn write_entry_at(&mut self, byte: u8, style: u8, row: usize, col: usize)
        requires
            console_wf(old(self)@),
            row < 25,
            col < 80,
        ensures
            final(self)@.cells == old(self)@.cells.update(
                row * 80 + col,
                entry_of(style, byte),
            ),
            final(self)@.row == old(self)@.row,
            final(self)@.col == old(self)@.col,
            final(self)@.style == old(self)@.style,
            console_wf(final(self)@),
    {
        let value: u16 = (style as u16) * 256 + (byte as u16);
        self.cells.set(row * 80 + col, value);
    }

    /// Blank the whole grid and home the cursor.
    pub fn clear(&mut self)
        requires
            console_wf(old(self)@),
        ensures
            console_wf(final(self)@),
            final(self)@.cells == spec_cleared(old(self)@.style),
            final(self)@.row == 0,
            final(self)@.col == 0,
            final(self)@.style == old(self)@.style,
    {
        let blank: u16 = (self.style as u16) * 256 + 32;
        let mut i: usize = 0;
        while i < 2000
            invariant
                console_wf(self@),
                i <= 2000,
                self@.style == old(self)@.style,
                self@.row == old(self)@.row,
                self@.col == old(self)@.col,
                blank == blank_entry(old(self)@.style),
                forall|k: int| 0 <= k < i ==> self@.cells[k] == blank_entry(old(self)@.style),
            decreases 2000 - i,
        {
            self.cells.set(i, blank);
            i = i + 1;
        }
        self.column_position = 0;
        self.row_position = 0;
        proof {
            assert(self@.cells =~= spec_cleared(old(self)@.style));
        }
    }

    /// Cursor to the start of the next row; on the last row the grid
    /// scrolls up instead.
    pub fn new_line(&mut self)
        requires
            console_wf(old(self)@),
        ensures
            console_wf(final(self)@),
            final(self)@ == spec_new_line(old(self)@),
    {
        self.column_position = 0;
        if self.row_position < 24 {
            self.row_position = self.row_position + 1;
            proof {
                assert(self@ == spec_new_line(old(self)@));
            }
            return;
        }

        let style: u8 = self.style;
        let mut row: usize = 1;
        while row < 25
            invariant
                console_wf(self@),
                1 <= row <= 25,
                self@.style == old(self)@.style,
                self@.row == old(self)@.row,
                self@.col == 0,
                forall|i: int| 0 <= i < (row - 1) * 80 ==> self@.cells[i] == old(
                    self,
                )@.cells[i + 80],
                forall|i: int| (row - 1) * 80 <= i < 2000 ==> self@.cells[i] == old(
                    self,
                )@.cells[i],
            decreases 25 - row,
        {
            let mut col: usize = 0;
            while col < 80
                invariant
                    console_wf(self@),
                    1 <= row < 25,
                    col <= 80,
                    self@.style == old(self)@.style,
                    self@.row == old(self)@.row,
                    self@.col == 0,
                    forall|i: int| 0 <= i < (row - 1) * 80 + col ==> self@.cells[i] == old(
                        self,
                    )@.cells[i + 80],
                    forall|i: int| (row - 1) * 80 + col <= i < 2000 ==> self@.cells[i] == old(
                        self,
                    )@.cells[i],
                decreases 80 - col,
            {
                let entry: u16 = self.read_entry_at(row, col);
                let byte: u8 = (entry % 256) as u8;
                let st: u8 = (entry / 256) as u8;
                proof {
                    assert(entry_of(st, byte) == entry);
                }
                self.write_entry_at(byte, st, row - 1, col);
                col = col + 1;
            }
            row = row + 1;
        }

        let mut col: usize = 0;
        while col < 80
            invariant
                console_wf(self@),
                col <= 80,
                style == old(self)@.style,
                self@.style == old(self)@.style,
                self@.row == old(self)@.row,
                self@.col == 0,
                forall|i: int| 0 <= i < 1920 ==> self@.cells[i] == old(self)@.cells[i + 80],
                forall|i: int|
                    1920 <= i < 1920 + col ==> self@.cells[i] == blank_entry(
                        old(self)@.style,
                    ),
            decreases 80 - col,
        {
            self.write_entry_at(32, style, 24, col);
            col = col + 1;
        }

        proof {
            assert(self@.cells =~= spec_scrolled(old(self)@.cells, old(self)@.style));
            assert(self@ == spec_new_line(old(self)@));
        }
    }

    /// One printable byte at the cursor, wrapping to a fresh line first
    /// when the row is full.
    pub fn write_byte(&mut self, byte: u8)
        requires
            console_wf(old(self)@),
        ensures
            console_wf(final(self)@),
            final(self)@ == spec_write_byte(old(self)@, byte),
    {
        if self.column_position >= 80 {
            self.new_line();
        }
        let row: usize = self.row_position;
        let col: usize = self.column_position;
        let style: u8 = self.style;
        self.write_entry_at(byte, style, row, col);
        self.column_position = col + 1;
    }

    /// A whole string: newlines feed, carriage returns rewind the column,
    /// every other byte prints.
    pub fn write_str(&mut self, message: &str)
        requires
            console_wf(old(self)@),
        ensures
            console_wf(final(self)@),
            final(self)@ == spec_write_bytes(old(self)@, message.spec_bytes()),
    {
        let bytes: &[u8] = message.as_bytes();
        let n: usize = bytes.len();
        let mut i: usize = 0;
        proof {
            assert(bytes@.subrange(0, 0) =~= Seq::<u8>::empty());
        }
        while i < n
            invariant
                console_wf(self@),
                i <= n,
                n == bytes@.len(),
                bytes@ == message.spec_bytes(),
                self@ == spec_write_bytes(old(self)@, bytes@.subrange(0, i as int)),
            decreases n - i,
        {
            let ghost prefix = bytes@.subrange(0, i as int);
            let b: u8 = bytes[i];
            if b == 10 {
                self.new_line();
            } else if b == 13 {
                self.column_position = 0;
            } else {
                self.write_byte(b);
            }
            proof {
                lemma_write_bytes_push(old(self)@, prefix, b);
                assert(bytes@.subrange(0, i + 1) =~= prefix.push(b));
            }
            i = i + 1;
        }
        proof {
            assert(bytes@.subrange(0, n as int) =~= bytes@);
        }
    }

    /// One character; only ASCII reaches the buffer, a newline feeds.
    pub fn write_char_ascii(&mut self, c: char)
        requires
            console_wf(old(self)@),
        ensures
            console_wf(final(self)@),
            final(self)@ == if c == '\n' {
                spec_new_line(old(self)@)
            } else if (c as u32) < 128 {
                spec_write_byte(old(self)@, (c as u32) as u8)
            } else {
                old(self)@
            },
    {
        if c == '\n' {
            self.new_line();
        } else {
            let code: u32 = c as u32;
            if code < 128 {
                self.write_byte(code as u8);
            }
        }
    }

    /// Blank the cell before the cursor and step back onto it; at the start
    /// of a row, back up to the end of the previous row.
    pub fn backspace(&mut self)
        requires
            console_wf(old(self)@),
        ensures
            console_wf(final(self)@),
            final(self)@ == spec_backspace(old(self)@),
    {
        if self.column_position > 0 {
            self.column_position = self.column_position - 1;
            let row: usize = self.row_position;
            let col: usize = self.column_position;
            let style: u8 = self.style;
            if col < 80 {
                self.write_entry_at(32, style, row, col);
            }
            proof {
                assert(self@ == spec_backspace(old(self)@));
            }
        } else if self.row_position > 0 {
            self.row_position = self.row_position - 1;
            self.column_position = 79;
            let row: usize = self.row_position;
            let style: u8 = self.style;
            self.write_entry_at(32, style, row, 79);
        }
    }
}

/// Clear the console, as done once at boot.
pub fn init(con: &mut Console)
    requires
        console_wf(old(con)@),
    ensures
        console_wf(final(con)@),
        final(con)@.cells == spec_cleared(old(con)@.style),
        final(con)@.row == 0,
        final(con)@.col == 0,
        final(con)@.style == old(con)@.style,
{
    con.clear();
}

pub fn write_str(con: &mut Console, message: &str)
    requires
        console_wf(old(con)@),
    ensures
        console_wf(final(con)@),
        final(con)@ == spec_write_bytes(old(con)@, message.spec_bytes()),
{
    con.write_str(message);
}

/// A string followed by a line feed.
pub fn write_line(con: &mut Console, message: &str)
    requires
        console_wf(old(con)@),
    ensures
        console_wf(final(con)@),
        final(con)@ == spec_new_line(spec_write_bytes(old(con)@, message.spec_bytes())),
{
    con.write_str(message);
    proof {
        lemma_write_bytes_wf(old(con)@, message.spec_bytes());
    }
    con.new_line();
}

pub fn put_char(con: &mut Console, c: char)
    requires
        console_wf(old(con)@),
    ensures
        console_wf(final(con)@),
        final(con)@ == if c == '\n' {
            spec_new_line(old(con)@)
        } else if (c as u32) < 128 {
            spec_write_byte(old(con)@, (c as u32) as u8)
        } else {
            old(con)@
        },
{
    con.write_char_ascii(c);
}

pub fn backspace(con: &mut Console)
    requires
        console_wf(old(con)@),
    ensures
        console_wf(final(con)@),
        final(con)@ == spec_backspace(old(con)@),
{
    con.backspace();
}

pub fn set_style(con: &mut Console, style: u8)
    requires
        console_wf(old(con)@),
    ensures
        console_wf(final(con)@),
        final(con)@ == (ConsoleView { style, ..old(con)@ }),
{
    con.style = style;
}

/// Already-rendered text; the console holds no formatter of its own.
pub fn fmt(con: &mut Console, text: &str)
    requires
        console_wf(old(con)@),
    ensures
        console_wf(final(con)@),
        final(con)@ == spec_write_bytes(old(con)@, text.spec_bytes()),
{
    con.write_str(text);
}

} // verus!
