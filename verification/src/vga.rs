//! Framebuffer text writer: a bounds-checked model of the screen as a
//! row-major grid of character cells, with the cursor and colour handling
//! that the interrupt handlers print through.
use vstd::prelude::*;
use vstd::string::StringSliceAdditionalSpecFns;

verus! {

/// Number of text rows on the screen.
pub const BUFFER_HEIGHT: usize = 25;

/// Number of text columns on the screen.
pub const BUFFER_WIDTH: usize = 80;

/// The byte that starts a new line.
pub const NEWLINE: u8 = 10;

/// Glyph substituted for bytes outside the printable range.
pub const PLACEHOLDER: u8 = 0xfe;

/// The sixteen hardware text-mode colours.
#[derive(Debug, Clone, Copy, PartialEq, Eq, Structural)]
pub enum Color {
    Black,
    Blue,
    Green,
    Cyan,
    Red,
    Magenta,
    Brown,
    LightGray,
    DarkGray,
    LightBlue,
    LightGreen,
    LightCyan,
    LightRed,
    Pink,
    Yellow,
    White,
}

impl Color {
    /// The 4-bit hardware value of this colour.
    pub open spec fn code_spec(self) -> u8 {
        match self {
            Color::Black => 0,
            Color::Blue => 1,
            Color::Green => 2,
            Color::Cyan => 3,
            Color::Red => 4,
            Color::Magenta => 5,
            Color::Brown => 6,
            Color::LightGray => 7,
            Color::DarkGray => 8,
            Color::LightBlue => 9,
            Color::LightGreen => 10,
            Color::LightCyan => 11,
            Color::LightRed => 12,
            Color::Pink => 13,
            Color::Yellow => 14,
            Color::White => 15,
        }
    }

    pub fn code(self) -> (r: u8)
        ensures
            r == self.code_spec(),
    {
        match self {
            Color::Black => 0,
            Color::Blue => 1,
            Color::Green => 2,
            Color::Cyan => 3,
            Color::Red => 4,
            Color::Magenta => 5,
            Color::Brown => 6,
            Color::LightGray => 7,
            Color::DarkGray => 8,
            Color::LightBlue => 9,
            Color::LightGreen => 10,
            Color::LightCyan => 11,
            Color::LightRed => 12,
            Color::Pink => 13,
            Color::Yellow => 14,
            Color::White => 15,
        }
    }
}

/// A packed colour attribute: background in the high nibble, foreground in
/// the low nibble.
#[derive(Debug, Clone, Copy, PartialEq, Eq, Structural)]
pub struct ColorCode(pub u8);

impl ColorCode {
    /// The packed attribute for a foreground/background pair.
    pub open spec fn new_spec(foreground: Color, background: Color) -> ColorCode {
        ColorCode((background.code_spec() * 16 + foreground.code_spec()) as u8)
    }

    pub fn new(foreground: Color, background: Color) -> (r: ColorCode)
        ensures
            r == ColorCode::new_spec(foreground, background),
    {
        ColorCode(background.code() * 16 + foreground.code())
    }

    /// The raw attribute byte.
    pub open spec fn attr_spec(self) -> u8 {
        self.0
    }

    pub fn attr(self) -> (r: u8)
        ensures
            r == self.attr_spec(),
    {
        self.0
    }
}

/// One screen cell: a character byte and its colour attribute.
#[derive(Debug, Clone, Copy, PartialEq, Eq, Structural)]
pub struct ScreenChar {
    pub ascii_char: u8,
    pub colors: ColorCode,
}

/// The cell a cleared position holds: a space in the given colours.
pub open spec fn blank_cell(colors: ColorCode) -> ScreenChar {
    ScreenChar { ascii_char: 32, colors }
}

/// Index of a cell in the row-major grid.
pub open spec fn cell_index(row: int, col: int) -> int {
    row * BUFFER_WIDTH + col
}

/// The grid after one scroll: every row moves up by one, the top row is
/// discarded, and the bottom row is cleared to `blank`.
pub open spec fn scrolled(buf: Seq<ScreenChar>, blank: ScreenChar) -> Seq<ScreenChar> {
    Seq::new(
        buf.len(),
        |i: int|
            if i < cell_index(BUFFER_HEIGHT - 1, 0) {
                buf[i + BUFFER_WIDTH]
            } else {
                blank
            },
    )
}

/// Whether a byte is shown as itself: the printable range plus newline.
pub open spec fn printable(b: u8) -> bool {
    (0x20 <= b && b <= 0x7e) || b == NEWLINE
}

/// The byte a cell records for `b`: `b` itself when printable, the
/// placeholder glyph otherwise.
pub open spec fn filtered(b: u8) -> u8 {
    if printable(b) {
        b
    } else {
        PLACEHOLDER
    }
}

/// Grid and cursor column after one byte is written with colour `colors`.
pub open spec fn write_byte_model(
    buf: Seq<ScreenChar>,
    col: int,
    colors: ColorCode,
    byte: u8,
) -> (Seq<ScreenChar>, int) {
    if byte == NEWLINE {
        (scrolled(buf, blank_cell(colors)), 0)
    } else if col < BUFFER_WIDTH {
        (
            buf.update(cell_index(BUFFER_HEIGHT - 1, col), ScreenChar { ascii_char: byte, colors }),
            col + 1,
        )
    } else {
        (
            scrolled(buf, blank_cell(colors)).update(
                cell_index(BUFFER_HEIGHT - 1, 0),
                ScreenChar { ascii_char: byte, colors },
            ),
            1,
        )
    }
}

/// Grid and cursor column after a whole byte string is written, each byte
/// first put through the printable filter.
pub open spec fn write_string_model(
    buf: Seq<ScreenChar>,
    col: int,
    colors: ColorCode,
    bytes: Seq<u8>,
) -> (Seq<ScreenChar>, int)
    decreases bytes.len(),
{
    if bytes.len() == 0 {
        (buf, col)
    } else {
        let (buf1, col1) = write_byte_model(buf, col, colors, filtered(bytes[0]));
        write_string_model(buf1, col1, colors, bytes.drop_first())
    }
}

/// The framebuffer writer: cursor column, active colours, and the grid of
/// cells, stored row-major.
pub struct Writer {
    column_position: usize,
    colors: ColorCode,
    buffer: Vec<ScreenChar>,
}

impl Writer {
    /// The writer's state is consistent: a full grid and a cursor that sits
    /// at or before the line end.
    pub open spec fn wf(self) -> bool {
        &&& self.grid().len() == BUFFER_HEIGHT * BUFFER_WIDTH
        &&& 0 <= self.col() <= BUFFER_WIDTH
    }

    /// The grid contents.
    pub closed spec fn grid(self) -> Seq<ScreenChar> {
        self.buffer@
    }

    /// The cursor column.
    pub closed spec fn col(self) -> int {
        self.column_position as int
    }

    /// The active colour attribute.
    pub closed spec fn active_colors(self) -> ColorCode {
        self.colors
    }

    /// A fresh writer: cleared grid, cursor at the line start, white on
    /// black.
    pub fn new() -> (r: Writer)
        ensures
            r.wf(),
            r.col() == 0,
            r.active_colors() == ColorCode::new_spec(Color::White, Color::Black),
            forall|i: int|
                0 <= i < r.grid().len() ==> r.grid()[i] == blank_cell(r.active_colors()),
    {
        let colors = ColorCode::new(Color::White, Color::Black);
        let mut buffer: Vec<ScreenChar> = Vec::new();
        let blank = ScreenChar { ascii_char: 32, colors };
        let mut i: usize = 0;
        while i < BUFFER_HEIGHT * BUFFER_WIDTH
            invariant
                i <= BUFFER_HEIGHT * BUFFER_WIDTH,
                blank == blank_cell(colors),
                buffer@.len() == i,
                forall|j: int| 0 <= j < i ==> buffer@[j] == blank_cell(colors),
            decreases BUFFER_HEIGHT * BUFFER_WIDTH - i,
        {
            buffer.push(blank);
            i = i + 1;
        }
        Writer { column_position: 0, colors, buffer }
    }

    /// Choose the colours that subsequent writes use.
    pub fn set_colors(&mut self, fore: Color, back: Color)
        requires
            old(self).wf(),
        ensures
            final(self).wf(),
            final(self).active_colors() == ColorCode::new_spec(fore, back),
            final(self).grid() == old(self).grid(),
            final(self).col() == old(self).col(),
    {
        self.colors = ColorCode::new(fore, back);
    }

    /// Read back one cell of the grid.
    pub fn cell_at(&self, row: usize, col: usize) -> (r: ScreenChar)
        requires
            self.wf(),
            row < BUFFER_HEIGHT,
            col < BUFFER_WIDTH,
        ensures
            r == self.grid()[cell_index(row as int, col as int)],
    {
        proof {
            lemma_cell_index_bounds(row as int, col as int);
        }
        self.buffer[row * BUFFER_WIDTH + col]
    }

    /// The current cursor column.
    pub fn cursor_column(&self) -> (r: usize)
        ensures
            r as int == self.col(),
    {
        self.column_position
    }

    /// Clear one row to blanks in the active colours; every other cell is
    /// untouched.
    fn clear_row(&mut self, row: usize)
        requires
            old(self).wf(),
            row < BUFFER_HEIGHT,
        ensures
            final(self).wf(),
            final(self).colors == old(self).colors,
            final(self).column_position == old(self).column_position,
            final(self).grid().len() == old(self).grid().len(),
            forall|i: int|
                cell_index(row as int, 0) <= i < cell_index(row as int, BUFFER_WIDTH as int)
                    ==> final(self).grid()[i] == blank_cell(old(self).colors),
            forall|i: int|
                0 <= i < old(self).grid().len() && !(cell_index(row as int, 0) <= i < cell_index(
                    row as int,
                    BUFFER_WIDTH as int,
                )) ==> final(self).grid()[i] == old(self).grid()[i],
    {
        let blank = ScreenChar { ascii_char: 32, colors: self.colors };
        let base: usize = row * BUFFER_WIDTH;
        proof {
            lemma_cell_index_bounds(row as int, 0);
        }
        let mut col: usize = 0;
        while col < BUFFER_WIDTH
            invariant
                old(self).wf(),
                row < BUFFER_HEIGHT,
                base == row * BUFFER_WIDTH,
                base + BUFFER_WIDTH <= self.buffer@.len(),
                col <= BUFFER_WIDTH,
                blank == blank_cell(old(self).colors),
                self.colors == old(self).colors,
                self.column_position == old(self).column_position,
                self.buffer@.len() == old(self).buffer@.len(),
                forall|i: int| base <= i < base + col ==> self.buffer@[i] == blank_cell(old(self).colors),
                forall|i: int|
                    0 <= i < old(self).buffer@.len() && !(base <= i < base + col)
                        ==> self.buffer@[i] == old(self).buffer@[i],
            decreases BUFFER_WIDTH - col,
        {
            self.buffer[base + col] = blank;
            col = col + 1;
        }
    }

    /// Scroll the grid one row: row contents move up, the top row is
    /// discarded, the bottom row is cleared, and the cursor returns to
    /// column 0.
    fn new_line(&mut self)
        requires
            old(self).wf(),
        ensures
            final(self).wf(),
            final(self).colors == old(self).colors,
            final(self).grid() == scrolled(old(self).grid(), blank_cell(old(self).colors)),
            final(self).col() == 0,
    {
        let ghost orig: Seq<ScreenChar> = self.buffer@;
        let mut row: usize = 1;
        while row < BUFFER_HEIGHT
            invariant
                old(self).wf(),
                1 <= row <= BUFFER_HEIGHT,
                self.colors == old(self).colors,
                self.column_position == old(self).column_position,
                self.buffer@.len() == orig.len(),
                orig == old(self).buffer@,
                orig.len() == BUFFER_HEIGHT * BUFFER_WIDTH,
                forall|i: int|
                    0 <= i < cell_index(row - 1, 0) ==> self.buffer@[i] == orig[i + BUFFER_WIDTH],
                forall|i: int|
                    cell_index(row - 1, 0) <= i < orig.len() ==> self.buffer@[i] == orig[i],
            decreases BUFFER_HEIGHT - row,
        {
            let mut col: usize = 0;
            proof {
                lemma_cell_index_bounds(row as int, 0);
                lemma_cell_index_bounds(row - 1, 0);
            }
            while col < BUFFER_WIDTH
                invariant
                    old(self).wf(),
                    1 <= row < BUFFER_HEIGHT,
                    col <= BUFFER_WIDTH,
                    self.colors == old(self).colors,
                    self.column_position == old(self).column_position,
                    self.buffer@.len() == orig.len(),
                    orig.len() == BUFFER_HEIGHT * BUFFER_WIDTH,
                    cell_index(row as int, 0) + BUFFER_WIDTH <= orig.len(),
                    forall|i: int|
                        0 <= i < cell_index(row - 1, col as int)
                            ==> self.buffer@[i] == orig[i + BUFFER_WIDTH],
                    forall|i: int|
                        cell_index(row - 1, col as int) <= i < orig.len()
                            ==> self.buffer@[i] == orig[i],
                decreases BUFFER_WIDTH - col,
            {
                let ch = self.buffer[row * BUFFER_WIDTH + col];
                self.buffer[(row - 1) * BUFFER_WIDTH + col] = ch;
                col = col + 1;
            }
            row = row + 1;
        }
        self.clear_row(BUFFER_HEIGHT - 1);
        self.column_position = 0;
        proof {
            assert(final(self).grid() =~= scrolled(orig, blank_cell(old(self).colors)));
        }
    }

    /// Write one byte as the hardware writer does: a newline scrolls; any
    /// other byte lands in the bottom row at the cursor, scrolling first if
    /// the line is full.
    pub fn write_byte(&mut self, byte: u8)
        requires
            old(self).wf(),
        ensures
            final(self).wf(),
            final(self).active_colors() == old(self).active_colors(),
            (final(self).grid(), final(self).col()) == write_byte_model(
                old(self).grid(),
                old(self).col(),
                old(self).active_colors(),
                byte,
            ),
    {
        if byte == NEWLINE {
            self.new_line();
        } else {
            if self.column_position >= BUFFER_WIDTH {
                self.new_line();
            }
            let row = BUFFER_HEIGHT - 1;
            let col = self.column_position;
            proof {
                lemma_cell_index_bounds(row as int, col as int);
            }
            let colors = self.colors;
            self.buffer[row * BUFFER_WIDTH + col] = ScreenChar { ascii_char: byte, colors };
            self.column_position = self.column_position + 1;
        }
    }

    /// Write a string byte by byte, substituting the placeholder glyph for
    /// every byte outside the printable range.
    pub fn write_string(&mut self, s: &str)
        requires
            old(self).wf(),
        ensures
            final(self).wf(),
            final(self).active_colors() == old(self).active_colors(),
            (final(self).grid(), final(self).col()) == write_string_model(
                old(self).grid(),
                old(self).col(),
                old(self).active_colors(),
                s.spec_bytes(),
            ),
    {
        let bytes: &[u8] = s.as_bytes();
        let n: usize = bytes.len();
        let mut i: usize = 0;
        while i < n
            invariant
                i <= n,
                n == bytes@.len(),
                bytes@ == s.spec_bytes(),
                self.wf(),
                self.active_colors() == old(self).active_colors(),
                (self.grid(), self.col()) == write_string_model(
                    old(self).grid(),
                    old(self).col(),
                    old(self).active_colors(),
                    bytes@.take(i as int),
                ),
            decreases n - i,
        {
            let byte = bytes[i];
            proof {
                lemma_write_string_model_snoc(
                    old(self).grid(),
                    old(self).col(),
                    old(self).active_colors(),
                    bytes@.take(i as int),
                    byte,
                );
                assert(bytes@.take(i as int).push(byte) =~= bytes@.take(i + 1));
            }
            if (0x20 <= byte && byte <= 0x7e) || byte == NEWLINE {
                self.write_byte(byte);
            } else {
                self.write_byte(PLACEHOLDER);
            }
            i = i + 1;
        }
        proof {
            assert(bytes@.take(n as int) =~= bytes@);
        }
    }
}

/// Writing a byte through the printable filter and then reading the cell it
/// landed in yields the byte itself when it is printable, the placeholder
/// glyph otherwise, always paired with the writer's active colours.
pub proof fn lemma_write_then_read(buf: Seq<ScreenChar>, col: int, colors: ColorCode, b: u8)
    requires
        buf.len() == BUFFER_HEIGHT * BUFFER_WIDTH,
        0 <= col <= BUFFER_WIDTH,
        b != NEWLINE,
    ensures
        ({
            let (buf1, col1) = write_byte_model(buf, col, colors, filtered(b));
            let landed = if col < BUFFER_WIDTH {
                col
            } else {
                0
            };
            &&& buf1[cell_index(BUFFER_HEIGHT - 1, landed)] == ScreenChar {
                ascii_char: if printable(b) {
                    b
                } else {
                    PLACEHOLDER
                },
                colors,
            }
            &&& buf1[cell_index(BUFFER_HEIGHT - 1, landed)].colors == colors
        }),
{
    if col < BUFFER_WIDTH {
        lemma_cell_index_bounds(BUFFER_HEIGHT - 1, col);
    } else {
        lemma_cell_index_bounds(BUFFER_HEIGHT - 1, 0);
    }
}

/// One scroll discards the top row, moves every remaining row up by one, and
/// clears the bottom row to the blank cell; the grid keeps its size.
pub proof fn lemma_scroll(buf: Seq<ScreenChar>, blank: ScreenChar)
    requires
        buf.len() == BUFFER_HEIGHT * BUFFER_WIDTH,
    ensures
        scrolled(buf, blank).len() == buf.len(),
        forall|r: int, c: int|
            0 <= r < BUFFER_HEIGHT - 1 && 0 <= c < BUFFER_WIDTH ==> scrolled(buf, blank)[
                cell_index(r, c)
            ] == buf[cell_index(r + 1, c)],
        forall|c: int|
            0 <= c < BUFFER_WIDTH ==> scrolled(buf, blank)[#[trigger] cell_index(
                BUFFER_HEIGHT - 1,
                c,
            )] == blank,
{
    assert forall|r: int, c: int|
        0 <= r < BUFFER_HEIGHT - 1 && 0 <= c < BUFFER_WIDTH implies scrolled(buf, blank)[
        cell_index(r, c)
    ] == buf[cell_index(r + 1, c)] by {
        lemma_cell_index_bounds(r, c);
        lemma_cell_index_bounds(r + 1, c);
        assert(cell_index(r, c) < cell_index(BUFFER_HEIGHT - 1, 0)) by (nonlinear_arith)
            requires
                0 <= r < BUFFER_HEIGHT - 1,
                0 <= c < BUFFER_WIDTH,
        ;
        assert(cell_index(r + 1, c) == cell_index(r, c) + BUFFER_WIDTH) by (nonlinear_arith);
    }
    assert forall|c: int|
        0 <= c < BUFFER_WIDTH implies scrolled(buf, blank)[#[trigger] cell_index(
        BUFFER_HEIGHT - 1,
        c,
    )] == blank by {
        lemma_cell_index_bounds(BUFFER_HEIGHT - 1, c);
    }
}


/// Writing a non-newline byte past the last column triggers exactly one
/// scroll — the top row is discarded, every remaining row shifts up by one,
/// and the bottom row is cleared — and the cursor returns to column 0, where
/// the byte then lands, leaving the cursor at column 1.
pub proof fn lemma_write_past_last_column(buf: Seq<ScreenChar>, colors: ColorCode, b: u8)
    requires
        buf.len() == BUFFER_HEIGHT * BUFFER_WIDTH,
        b != NEWLINE,
    ensures
        ({
            let (buf1, col1) = write_byte_model(buf, BUFFER_WIDTH as int, colors, b);
            &&& col1 == 1
            &&& buf1[cell_index(BUFFER_HEIGHT - 1, 0)] == ScreenChar { ascii_char: b, colors }
            &&& forall|r: int, c: int|
                0 <= r < BUFFER_HEIGHT - 1 && 0 <= c < BUFFER_WIDTH ==> buf1[#[trigger] cell_index(
                    r,
                    c,
                )] == buf[cell_index(r + 1, c)]
            &&& forall|c: int|
                1 <= c < BUFFER_WIDTH ==> buf1[#[trigger] cell_index(BUFFER_HEIGHT - 1, c)]
                    == blank_cell(colors)
        }),
{
    let blank = blank_cell(colors);
    lemma_scroll(buf, blank);
    lemma_cell_index_bounds(BUFFER_HEIGHT - 1, 0);
    let (buf1, col1) = write_byte_model(buf, BUFFER_WIDTH as int, colors, b);
    assert(buf1 == scrolled(buf, blank).update(
        cell_index(BUFFER_HEIGHT - 1, 0),
        ScreenChar { ascii_char: b, colors },
    ));
    assert forall|r: int, c: int|
        0 <= r < BUFFER_HEIGHT - 1 && 0 <= c < BUFFER_WIDTH implies buf1[#[trigger] cell_index(
        r,
        c,
    )] == buf[cell_index(r + 1, c)] by {
        lemma_cell_index_bounds(r, c);
        assert(cell_index(r, c) < cell_index(BUFFER_HEIGHT - 1, 0)) by (nonlinear_arith)
            requires
                0 <= r < BUFFER_HEIGHT - 1,
                0 <= c < BUFFER_WIDTH,
        ;
    }
    assert forall|c: int|
        1 <= c < BUFFER_WIDTH implies buf1[#[trigger] cell_index(BUFFER_HEIGHT - 1, c)]
        == blank_cell(colors) by {
        lemma_cell_index_bounds(BUFFER_HEIGHT - 1, c);
        assert(cell_index(BUFFER_HEIGHT - 1, c) != cell_index(BUFFER_HEIGHT - 1, 0));
    }
}

/// A cell index of a row/column pair inside the grid stays inside the grid.
pub proof fn lemma_cell_index_bounds(row: int, col: int)
    requires
        0 <= row < BUFFER_HEIGHT,
        0 <= col < BUFFER_WIDTH,
    ensures
        0 <= cell_index(row, col) < BUFFER_HEIGHT * BUFFER_WIDTH,
        cell_index(row, col) == row * BUFFER_WIDTH + col,
{
    assert(row * BUFFER_WIDTH <= (BUFFER_HEIGHT - 1) * BUFFER_WIDTH) by (nonlinear_arith)
        requires
            0 <= row <= BUFFER_HEIGHT - 1,
    ;
}

/// Writing one more byte extends the string model by one step.
proof fn lemma_write_string_model_snoc(
    buf: Seq<ScreenChar>,
    col: int,
    colors: ColorCode,
    bytes: Seq<u8>,
    byte: u8,
)
    ensures
        ({
            let (buf1, col1) = write_string_model(buf, col, colors, bytes);
            write_string_model(buf, col, colors, bytes.push(byte)) == write_byte_model(
                buf1,
                col1,
                colors,
                filtered(byte),
            )
        }),
    decreases bytes.len(),
{
    if bytes.len() == 0 {
        assert(bytes.push(byte).drop_first() =~= Seq::<u8>::empty());
        assert(bytes.push(byte)[0] == byte);
        assert(write_string_model(buf, col, colors, bytes) == (buf, col));
        let (b1, c1) = write_byte_model(buf, col, colors, filtered(byte));
        assert(write_string_model(buf, col, colors, bytes.push(byte)) == write_string_model(
            b1,
            c1,
            colors,
            bytes.push(byte).drop_first(),
        ));
        assert(write_string_model(b1, c1, colors, Seq::<u8>::empty()) == (b1, c1));
    } else {
        assert(bytes.push(byte)[0] == bytes[0]);
        let (buf1, col1) = write_byte_model(buf, col, colors, filtered(bytes[0]));
        lemma_write_string_model_snoc(buf1, col1, colors, bytes.drop_first(), byte);
        assert(bytes.push(byte).drop_first() =~= bytes.drop_first().push(byte));
        assert(write_string_model(buf, col, colors, bytes.push(byte)) == write_string_model(
            buf1,
            col1,
            colors,
            bytes.drop_first().push(byte),
        ));
    }
}

} // verus!
