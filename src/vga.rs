//! The legacy text mode: its colors, and a writer that lays text out in
//! a buffer of 25 rows of 80 characters, wrapping and scrolling.

use vstd::prelude::*;
use vstd::string::StringSliceAdditionalSpecFns;

verus! {

/// The sixteen standard text-mode colors.
#[derive(Clone, Copy, Debug, PartialEq, Eq, Structural)]
pub enum Color {
    Black,
    Blue,
    Green,
    Cyan,
    Red,
    Magenta,
    Brown,
    LightGray,
    DarkGray,
    LightBlue,
    LightGreen,
    LightCyan,
    LightRed,
    Pink,
    Yellow,
    White,
}

impl Color {
    /// The color's 4-bit number, in the order of declaration.
    pub open spec fn spec_code(self) -> u8 {
        match self {
            Color::Black => 0,
            Color::Blue => 1,
            Color::Green => 2,
            Color::Cyan => 3,
            Color::Red => 4,
            Color::Magenta => 5,
            Color::Brown => 6,
            Color::LightGray => 7,
            Color::DarkGray => 8,
            Color::LightBlue => 9,
            Color::LightGreen => 10,
            Color::LightCyan => 11,
            Color::LightRed => 12,
            Color::Pink => 13,
            Color::Yellow => 14,
            Color::White => 15,
        }
    }

    #[verifier::when_used_as_spec(spec_code)]
    pub fn code(self) -> (c: u8)
        ensures
            c == self.spec_code(),
            c < 16,
    {
        match self {
            Color::Black => 0,
            Color::Blue => 1,
            Color::Green => 2,
            Color::Cyan => 3,
            Color::Red => 4,
            Color::Magenta => 5,
            Color::Brown => 6,
            Color::LightGray => 7,
            Color::DarkGray => 8,
            Color::LightBlue => 9,
            Color::LightGreen => 10,
            Color::LightCyan => 11,
            Color::LightRed => 12,
            Color::Pink => 13,
            Color::Yellow => 14,
            Color::White => 15,
        }
    }
}

/// A text-mode attribute byte: background in the high four bits,
/// foreground in the low four.
#[derive(Clone, Copy, Debug, PartialEq, Eq, Structural)]
pub struct ColorCode(pub u8);

impl ColorCode {
    pub fn new(foreground: Color, background: Color) -> (c: ColorCode)
        ensures
            c.0 == background.code() * 16 + foreground.code(),
    {
        let f = foreground.code();
        let b = background.code();
        proof {
            assert(b < 16 && f < 16 ==> (b << 4u8) | f == b * 16 + f) by (bit_vector);
        }
        ColorCode((b << 4u8) | f)
    }
}

/// Rows of the text buffer.
pub const BUFFER_HEIGHT: usize = 25;

/// Columns of the text buffer.
pub const BUFFER_WIDTH: usize = 80;

/// Characters in the text buffer.
pub const TEXT_LEN: usize = 2000;

/// Tab stops are this many columns apart.
pub const TAB_SIZE: usize = 4;

/// A character of the text buffer and its attribute byte.
#[derive(Clone, Copy, Debug, PartialEq, Eq, Structural)]
pub struct ScreenChar {
    pub ascii_character: u8,
    pub color_code: ColorCode,
}

/// The cursor row, the cursor column and the buffer, row by row.
pub type TextState = (int, int, Seq<ScreenChar>);

pub open spec fn blank(color: ColorCode) -> ScreenChar {
    ScreenChar { ascii_character: 0x20, color_code: color }
}

/// The buffer moved up one row, with a blank last row.
pub open spec fn scrolled(chars: Seq<ScreenChar>, color: ColorCode) -> Seq<ScreenChar> {
    Seq::new(
        TEXT_LEN as nat,
        |i: int|
            if i < TEXT_LEN - BUFFER_WIDTH {
                chars[i + BUFFER_WIDTH]
            } else {
                blank(color)
            },
    )
}

/// A line break: the cursor goes to the start of the next row; past the
/// last row the buffer scrolls up and the cursor stays on the last row.
pub open spec fn newline(t: TextState, color: ColorCode) -> TextState {
    if t.0 + 1 < BUFFER_HEIGHT {
        (t.0 + 1, 0, t.2)
    } else {
        (BUFFER_HEIGHT - 1, 0, scrolled(t.2, color))
    }
}

/// A tab: the cursor moves to the next tab stop, or to the next line when
/// that stop is past the last column.
pub open spec fn tab(t: TextState, color: ColorCode) -> TextState {
    let c = t.1 + TAB_SIZE - t.1 % (TAB_SIZE as int);
    if c >= BUFFER_WIDTH {
        newline((t.0, c, t.2), color)
    } else {
        (t.0, c, t.2)
    }
}

/// A printed character: written at the cursor, after a line break when the
/// row is full; the cursor moves one column right.
pub open spec fn put_char(t: TextState, b: u8, color: ColorCode) -> TextState {
    let t1 = if t.1 >= BUFFER_WIDTH {
        newline(t, color)
    } else {
        t
    };
    (
        t1.0,
        t1.1 + 1,
        t1.2.update(t1.0 * BUFFER_WIDTH + t1.1, ScreenChar { ascii_character: b, color_code: color }),
    )
}

/// What one byte does to the text: backspace, tab, line feed and carriage
/// return move the cursor; any other byte is printed.
pub open spec fn byte_step(t: TextState, b: u8, color: ColorCode) -> TextState {
    if b == 0x08 {
        (t.0, if t.1 > 0 {
            t.1 - 1
        } else {
            0
        }, t.2)
    } else if b == 0x09 {
        tab(t, color)
    } else if b == 0x0a {
        newline(t, color)
    } else if b == 0x0d {
        (t.0, 0, t.2)
    } else {
        put_char(t, b, color)
    }
}

/// The byte a string byte is shown as: printable ASCII and the control
/// bytes the writer knows stand for themselves, anything else for 0xfe.
pub open spec fn shown(b: u8) -> u8 {
    if (0x20 <= b <= 0x7e) || b == 0x0a || b == 0x0d || b == 0x09 || b == 0x08 {
        b
    } else {
        0xfe
    }
}

/// The text after writing `bytes`, one after another.
pub open spec fn text_after(t: TextState, bytes: Seq<u8>, color: ColorCode) -> TextState
    decreases bytes.len(),
{
    if bytes.len() == 0 {
        t
    } else {
        text_after(byte_step(t, shown(bytes[0]), color), bytes.drop_first(), color)
    }
}

/// A text writer: the cursor, the attribute of what it writes, and the
/// buffer it writes into, row by row.
#[derive(Clone, Debug)]
pub struct Writer {
    pub row_position: usize,
    pub column_position: usize,
    pub color_code: ColorCode,
    pub chars: Vec<ScreenChar>,
}

impl Writer {
    pub open spec fn wf(&self) -> bool {
        &&& self.row_position < BUFFER_HEIGHT
        &&& self.column_position <= BUFFER_WIDTH
        &&& self.chars@.len() == TEXT_LEN
    }

    pub open spec fn state(&self) -> TextState {
        (self.row_position as int, self.column_position as int, self.chars@)
    }

    /// A blank buffer, the cursor at the top left.
    pub fn new(color_code: ColorCode) -> (w: Writer)
        ensures
            w.wf(),
            w.color_code == color_code,
            w.row_position == 0,
            w.column_position == 0,
            forall|i: int| 0 <= i < TEXT_LEN ==> #[trigger] w.chars@[i] == blank(color_code),
    {
        let mut chars: Vec<ScreenChar> = Vec::new();
        let mut i: usize = 0;
        while i < TEXT_LEN
            invariant
                i <= TEXT_LEN,
                chars@.len() == i,
                forall|k: int| 0 <= k < i ==> #[trigger] chars@[k] == blank(color_code),
            decreases TEXT_LEN - i,
        {
            chars.push(ScreenChar { ascii_character: 0x20, color_code });
            i = i + 1;
        }
        Writer { row_position: 0, column_position: 0, color_code, chars }
    }

    fn clear_row(&mut self, row: usize)
        requires
            old(self).wf(),
            row < BUFFER_HEIGHT,
        ensures
            final(self).wf(),
            final(self).row_position == old(self).row_position,
            final(self).column_position == old(self).column_position,
            final(self).color_code == old(self).color_code,
            forall|i: int|
                0 <= i < TEXT_LEN ==> #[trigger] final(self).chars@[i] == if row * BUFFER_WIDTH
                    <= i < (row + 1) * BUFFER_WIDTH {
                    blank(old(self).color_code)
                } else {
                    old(self).chars@[i]
                },
    {
        let blank_char = ScreenChar { ascii_character: 0x20, color_code: self.color_code };
        let ghost c0 = self.chars@;
        let mut col: usize = 0;
        while col < BUFFER_WIDTH
            invariant
                col <= BUFFER_WIDTH,
                row < BUFFER_HEIGHT,
                self.wf(),
                self.row_position == old(self).row_position,
                self.column_position == old(self).column_position,
                self.color_code == old(self).color_code,
                blank_char == blank(self.color_code),
                c0 == old(self).chars@,
                forall|i: int|
                    0 <= i < TEXT_LEN ==> #[trigger] self.chars@[i] == if row * BUFFER_WIDTH <= i
                        < row * BUFFER_WIDTH + col {
                        blank(old(self).color_code)
                    } else {
                        c0[i]
                    },
            decreases BUFFER_WIDTH - col,
        {
            self.chars.set(row * BUFFER_WIDTH + col, blank_char);
            col = col + 1;
        }
    }

    fn new_line(&mut self)
        requires
            old(self).wf(),
        ensures
            final(self).wf(),
            final(self).color_code == old(self).color_code,
            final(self).state() == newline(old(self).state(), old(self).color_code),
    {
        if self.row_position + 1 < BUFFER_HEIGHT {
            self.row_position = self.row_position + 1;
            self.column_position = 0;
            return;
        }
        let ghost c0 = self.chars@;
        let mut i: usize = 0;
        while i < TEXT_LEN - BUFFER_WIDTH
            invariant
                i <= TEXT_LEN - BUFFER_WIDTH,
                self.wf(),
                self.row_position == old(self).row_position,
                self.column_position == old(self).column_position,
                self.color_code == old(self).color_code,
                c0 == old(self).chars@,
                forall|k: int|
                    0 <= k < TEXT_LEN ==> #[trigger] self.chars@[k] == if k < i {
                        c0[k + BUFFER_WIDTH]
                    } else {
                        c0[k]
                    },
            decreases TEXT_LEN - BUFFER_WIDTH - i,
        {
            let c = self.chars[i + BUFFER_WIDTH];
            self.chars.set(i, c);
            i = i + 1;
        }
        self.clear_row(BUFFER_HEIGHT - 1);
        self.row_position = BUFFER_HEIGHT - 1;
        self.column_position = 0;
        assert(self.chars@ =~= scrolled(c0, self.color_code));
    }

    fn backspace(&mut self)
        requires
            old(self).wf(),
        ensures
            final(self).wf(),
            final(self).color_code == old(self).color_code,
            final(self).state() == byte_step(old(self).state(), 0x08, old(self).color_code),
    {
        if self.column_position > 0 {
            self.column_position = self.column_position - 1;
        }
    }

    fn carriage_return(&mut self)
        requires
            old(self).wf(),
        ensures
            final(self).wf(),
            final(self).color_code == old(self).color_code,
            final(self).state() == byte_step(old(self).state(), 0x0d, old(self).color_code),
    {
        self.column_position = 0;
    }

    fn horizontal_tab(&mut self)
        requires
            old(self).wf(),
        ensures
            final(self).wf(),
            final(self).color_code == old(self).color_code,
            final(self).state() == tab(old(self).state(), old(self).color_code),
    {
        let col = self.column_position + TAB_SIZE - self.column_position % TAB_SIZE;
        if col >= BUFFER_WIDTH {
            self.column_position = BUFFER_WIDTH;
            self.new_line();
        } else {
            self.column_position = col;
        }
    }

    /// Writes one byte: backspace, tab, line feed and carriage return move
    /// the cursor; any other byte is printed at the cursor.
    pub fn write_byte(&mut self, byte: u8)
        requires
            old(self).wf(),
        ensures
            final(self).wf(),
            final(self).color_code == old(self).color_code,
            final(self).state() == byte_step(old(self).state(), byte, old(self).color_code),
    {
        if byte == 0x08 {
            self.backspace();
        } else if byte == 0x09 {
            self.horizontal_tab();
        } else if byte == 0x0a {
            self.new_line();
        } else if byte == 0x0d {
            self.carriage_return();
        } else {
            if self.column_position >= BUFFER_WIDTH {
                self.new_line();
            }
            let row = self.row_position;
            let col = self.column_position;
            self.chars.set(
                row * BUFFER_WIDTH + col,
                ScreenChar { ascii_character: byte, color_code: self.color_code },
            );
            self.column_position = col + 1;
        }
    }

    /// Writes the bytes of `s` in order; a byte that is neither printable
    /// ASCII nor a control byte the writer knows is written as 0xfe.
    pub fn write_string(&mut self, s: &str)
        requires
            old(self).wf(),
        ensures
            final(self).wf(),
            final(self).color_code == old(self).color_code,
            final(self).state() == text_after(old(self).state(), s.spec_bytes(), old(self).color_code),
    {
        let bytes = s.as_bytes();
        let ghost t0 = self.state();
        proof {
            assert(bytes@.skip(0) =~= bytes@);
        }
        let mut k: usize = 0;
        while k < bytes.len()
            invariant
                k <= bytes@.len(),
                bytes@ == s.spec_bytes(),
                self.wf(),
                self.color_code == old(self).color_code,
                t0 == old(self).state(),
                text_after(self.state(), bytes@.skip(k as int), self.color_code) == text_after(
                    t0,
                    bytes@,
                    self.color_code,
                ),
            decreases bytes@.len() - k,
        {
            let b = bytes[k];
            proof {
                assert(bytes@.skip(k as int).drop_first() =~= bytes@.skip(k + 1));
            }
            if (0x20 <= b && b <= 0x7e) || b == 0x0a || b == 0x0d || b == 0x09 || b == 0x08 {
                self.write_byte(b);
            } else {
                self.write_byte(0xfe);
            }
            k = k + 1;
        }
        proof {
            assert(bytes@.skip(bytes@.len() as int) =~= Seq::<u8>::empty());
        }
    }
}

} // verus!
