//! The character surface and the writer that drives it.
//!
//! The surface is a fixed grid of `BUFFER_HEIGHT` rows by `BUFFER_WIDTH`
//! columns of two-byte cells (a character byte and a color attribute byte).
//! The writer owns the surface, tracks the current column, and implements
//! character emission, line wrap, newline and scroll-on-overflow. Every
//! operation is specified against a mathematical model of the grid, a
//! `Seq<Seq<ScreenChar>>`, through the spec functions below.

use vstd::prelude::*;
use vstd::string::StringSliceAdditionalSpecFns;

verus! {

/// Number of rows of the character surface.
pub const BUFFER_HEIGHT: usize = 25;

/// Number of columns of the character surface.
pub const BUFFER_WIDTH: usize = 80;

/// The sixteen colors of the palette; each maps to a 4-bit code.
#[allow(dead_code)]
#[derive(Debug, Clone, Copy, PartialEq, Eq)]
pub enum Color {
    Black,
    Blue,
    Green,
    Cyan,
    Red,
    Magenta,
    Brown,
    LightGray,
    DarkGray,
    LightBlue,
    LightGreen,
    LightCyan,
    LightRed,
    Pink,
    Yellow,
    White,
}

impl Color {
    /// The 4-bit palette code of this color.
    pub open spec fn spec_nibble(self) -> u8 {
        match self {
            Color::Black => 0,
            Color::Blue => 1,
            Color::Green => 2,
            Color::Cyan => 3,
            Color::Red => 4,
            Color::Magenta => 5,
            Color::Brown => 6,
            Color::LightGray => 7,
            Color::DarkGray => 8,
            Color::LightBlue => 9,
            Color::LightGreen => 10,
            Color::LightCyan => 11,
            Color::LightRed => 12,
            Color::Pink => 13,
            Color::Yellow => 14,
            Color::White => 15,
        }
    }

    /// Returns the 4-bit palette code of this color.
    pub fn nibble(self) -> (r: u8)
        ensures
            r == self.spec_nibble(),
    {
        match self {
            Color::Black => 0,
            Color::Blue => 1,
            Color::Green => 2,
            Color::Cyan => 3,
            Color::Red => 4,
            Color::Magenta => 5,
            Color::Brown => 6,
            Color::LightGray => 7,
            Color::DarkGray => 8,
            Color::LightBlue => 9,
            Color::LightGreen => 10,
            Color::LightCyan => 11,
            Color::LightRed => 12,
            Color::Pink => 13,
            Color::Yellow => 14,
            Color::White => 15,
        }
    }
}

/// A packed hardware attribute byte: background color in the high nibble,
/// foreground color in the low nibble.
#[derive(Debug, Clone, Copy, PartialEq, Eq)]
pub struct ColorCode(u8);

impl ColorCode {
    /// The attribute byte held by this code.
    pub closed spec fn spec_byte(self) -> u8 {
        self.0
    }

    /// The attribute value that `new` packs for a color pair.
    pub closed spec fn spec_new(foreground: Color, background: Color) -> ColorCode {
        ColorCode((background.spec_nibble() * 16 + foreground.spec_nibble()) as u8)
    }

    /// Packs a foreground/background color pair into one attribute byte.
    pub fn new(foreground: Color, background: Color) -> (r: Self)
        ensures
            r == Self::spec_new(foreground, background),
            r.spec_byte() == background.spec_nibble() * 16 + foreground.spec_nibble(),
    {
        let fg: u8 = foreground.nibble();
        let bg: u8 = background.nibble();
        proof {
            assert(fg <= 15 && bg <= 15);
            assert((bg << 4 | fg) == bg * 16 + fg) by (bit_vector)
                requires
                    fg <= 15 && bg <= 15,
            ;
        }
        ColorCode(bg << 4 | fg)
    }

    /// Returns the packed attribute byte.
    pub fn byte(&self) -> (r: u8)
        ensures
            r == self.spec_byte(),
    {
        self.0
    }
}

/// One cell of the surface: a character byte paired with its attribute.
#[derive(Debug, Clone, Copy, PartialEq, Eq)]
pub struct ScreenChar {
    pub ascii_character: u8,
    pub color_code: ColorCode,
}

/// A blank cell: a space rendered with the given attribute.
pub open spec fn blank_char(attr: ColorCode) -> ScreenChar {
    ScreenChar { ascii_character: 0x20, color_code: attr }
}

/// The cell that renders byte `b` with the given attribute.
pub open spec fn glyph_char(b: u8, attr: ColorCode) -> ScreenChar {
    ScreenChar { ascii_character: b, color_code: attr }
}

/// A full row of blank cells.
pub open spec fn blank_row(attr: ColorCode) -> Seq<ScreenChar> {
    Seq::new(BUFFER_WIDTH as nat, |c: int| blank_char(attr))
}

/// A well-shaped grid: exactly `BUFFER_HEIGHT` rows of `BUFFER_WIDTH` cells.
pub open spec fn grid_wf(g: Seq<Seq<ScreenChar>>) -> bool {
    &&& g.len() == BUFFER_HEIGHT
    &&& forall|r: int| 0 <= r < BUFFER_HEIGHT ==> (#[trigger] g[r]).len() == BUFFER_WIDTH
}

/// The grid after overwriting row `row` with blank cells.
pub open spec fn spec_clear_row(g: Seq<Seq<ScreenChar>>, row: int, attr: ColorCode) -> Seq<
    Seq<ScreenChar>,
> {
    g.update(row, blank_row(attr))
}

/// The grid after scrolling up by one line: every row moves up one place and
/// the bottom row becomes blank.
pub open spec fn spec_new_line(g: Seq<Seq<ScreenChar>>, attr: ColorCode) -> Seq<Seq<ScreenChar>> {
    Seq::new(
        BUFFER_HEIGHT as nat,
        |r: int|
            if r + 1 < BUFFER_HEIGHT {
                g[r + 1]
            } else {
                blank_row(attr)
            },
    )
}

/// Grid and column after emitting one raw byte from state `(g, col)`:
/// a newline scrolls and resets the column; any other byte lands at the end
/// of the bottom row, after a scroll if the row is already full.
pub open spec fn spec_write_byte(g: Seq<Seq<ScreenChar>>, col: int, attr: ColorCode, b: u8) -> (
    Seq<Seq<ScreenChar>>,
    int,
) {
    if b == 0x0a {
        (spec_new_line(g, attr), 0)
    } else if col < BUFFER_WIDTH {
        (
            g.update(
                BUFFER_HEIGHT - 1,
                g[BUFFER_HEIGHT - 1].update(col, glyph_char(b, attr)),
            ),
            col + 1,
        )
    } else {
        let g2 = spec_new_line(g, attr);
        (
            g2.update(
                BUFFER_HEIGHT - 1,
                g2[BUFFER_HEIGHT - 1].update(0, glyph_char(b, attr)),
            ),
            1,
        )
    }
}

/// Grid and column after emitting a sequence of raw bytes, first to last.
pub open spec fn spec_write_bytes(
    g: Seq<Seq<ScreenChar>>,
    col: int,
    attr: ColorCode,
    s: Seq<u8>,
) -> (Seq<Seq<ScreenChar>>, int)
    decreases s.len(),
{
    if s.len() == 0 {
        (g, col)
    } else {
        let st = spec_write_byte(g, col, attr, s[0]);
        spec_write_bytes(st.0, st.1, attr, s.drop_first())
    }
}

/// Whether byte `b` is in the printable range of the hardware font.
pub open spec fn is_printable(b: u8) -> bool {
    0x20 <= b && b < 0x7e
}

/// The byte actually emitted for input byte `b`: printable bytes and the
/// newline pass through, everything else becomes the fallback glyph `0xfe`.
pub open spec fn glyph_of(b: u8) -> u8 {
    if is_printable(b) || b == 0x0a {
        b
    } else {
        0xfe
    }
}

/// Pointwise fallback-glyph substitution over a byte sequence.
pub open spec fn glyphs_of(s: Seq<u8>) -> Seq<u8> {
    s.map_values(|b: u8| glyph_of(b))
}

/// Grid and column after rendering a string's bytes: each byte goes through
/// the fallback-glyph substitution and is then emitted.
pub open spec fn spec_write_str(
    g: Seq<Seq<ScreenChar>>,
    col: int,
    attr: ColorCode,
    s: Seq<u8>,
) -> (Seq<Seq<ScreenChar>>, int) {
    spec_write_bytes(g, col, attr, glyphs_of(s))
}

/// Emitting a sequence and then one more byte is the same as emitting the
/// sequence with that byte appended.
pub proof fn lemma_write_bytes_snoc(
    g: Seq<Seq<ScreenChar>>,
    col: int,
    attr: ColorCode,
    s: Seq<u8>,
    b: u8,
)
    ensures
        spec_write_bytes(g, col, attr, s.push(b)) == ({
            let st = spec_write_bytes(g, col, attr, s);
            spec_write_byte(st.0, st.1, attr, b)
        }),
    decreases s.len(),
{
    reveal_with_fuel(spec_write_bytes, 3);
    if s.len() == 0 {
        assert(s.push(b)[0] == b);
        assert(s.push(b).drop_first() =~= Seq::<u8>::empty());
    } else {
        assert(s.push(b)[0] == s[0]);
        assert(s.push(b).drop_first() =~= s.drop_first().push(b));
        let st0 = spec_write_byte(g, col, attr, s[0]);
        lemma_write_bytes_snoc(st0.0, st0.1, attr, s.drop_first(), b);
    }
}

/// Emitting a concatenation is the same as emitting the two parts in turn.
pub proof fn lemma_write_bytes_concat(
    g: Seq<Seq<ScreenChar>>,
    col: int,
    attr: ColorCode,
    s1: Seq<u8>,
    s2: Seq<u8>,
)
    ensures
        spec_write_bytes(g, col, attr, s1 + s2) == ({
            let st = spec_write_bytes(g, col, attr, s1);
            spec_write_bytes(st.0, st.1, attr, s2)
        }),
    decreases s1.len(),
{
    if s1.len() == 0 {
        assert(s1 + s2 =~= s2);
    } else {
        assert((s1 + s2)[0] == s1[0]);
        assert((s1 + s2).drop_first() =~= s1.drop_first() + s2);
        let st0 = spec_write_byte(g, col, attr, s1[0]);
        lemma_write_bytes_concat(st0.0, st0.1, attr, s1.drop_first(), s2);
    }
}

/// The display surface: a grid of `BUFFER_HEIGHT` by `BUFFER_WIDTH` cells,
/// stored row-major. Its view is the grid as a sequence of rows; the view is
/// shaped `BUFFER_HEIGHT` x `BUFFER_WIDTH` by construction.
pub struct Buffer {
    chars: Vec<ScreenChar>,
}

impl View for Buffer {
    type V = Seq<Seq<ScreenChar>>;

    closed spec fn view(&self) -> Seq<Seq<ScreenChar>> {
        Seq::new(
            BUFFER_HEIGHT as nat,
            |r: int|
                Seq::new(
                    BUFFER_WIDTH as nat,
                    |c: int| self.chars@[r * (BUFFER_WIDTH as int) + c],
                ),
        )
    }
}

impl Buffer {
    /// The storage holds exactly one cell per grid position.
    pub closed spec fn wf(&self) -> bool {
        self.chars@.len() == BUFFER_HEIGHT * BUFFER_WIDTH
    }

    /// The view of a surface is always a well-shaped grid.
    pub proof fn lemma_grid_wf(&self)
        ensures
            grid_wf(self@),
    {
    }

    /// Builds a surface with every cell equal to `fill`.
    pub fn new(fill: ScreenChar) -> (b: Buffer)
        ensures
            b.wf(),
            forall|r: int, c: int|
                0 <= r < BUFFER_HEIGHT && 0 <= c < BUFFER_WIDTH ==> b@[r][c] == fill,
    {
        let n: usize = BUFFER_HEIGHT * BUFFER_WIDTH;
        let mut chars: Vec<ScreenChar> = Vec::new();
        let mut i: usize = 0;
        while i < n
            invariant
                n == BUFFER_HEIGHT * BUFFER_WIDTH,
                i <= n,
                chars@.len() == i,
                forall|j: int| 0 <= j < i ==> chars@[j] == fill,
            decreases n - i,
        {
            chars.push(fill);
            i += 1;
        }
        let b = Buffer { chars };
        proof {
            assert forall|r: int, c: int|
                0 <= r < BUFFER_HEIGHT && 0 <= c < BUFFER_WIDTH implies b@[r][c] == fill by {
                assert(0 <= r * (BUFFER_WIDTH as int) + c < BUFFER_HEIGHT * BUFFER_WIDTH);
            }
        }
        b
    }

    /// Reads the cell at `(row, col)`.
    pub fn read(&self, row: usize, col: usize) -> (c: ScreenChar)
        requires
            self.wf(),
            row < BUFFER_HEIGHT,
            col < BUFFER_WIDTH,
        ensures
            c == self@[row as int][col as int],
    {
        self.chars[row * BUFFER_WIDTH + col]
    }

    /// Overwrites the cell at `(row, col)` with `c`, leaving every other cell
    /// unchanged.
    pub fn write(&mut self, row: usize, col: usize, c: ScreenChar)
        requires
            old(self).wf(),
            row < BUFFER_HEIGHT,
            col < BUFFER_WIDTH,
        ensures
            final(self).wf(),
            grid_wf(final(self)@),
            final(self)@ == old(self)@.update(
                row as int,
                old(self)@[row as int].update(col as int, c),
            ),
    {
        let idx: usize = row * BUFFER_WIDTH + col;
        proof {
            assert(idx < BUFFER_HEIGHT * BUFFER_WIDTH);
        }
        self.chars.set(idx, c);
        proof {
            let rhs = old(self)@.update(row as int, old(self)@[row as int].update(col as int, c));
            assert forall|r: int, c2: int|
                0 <= r < BUFFER_HEIGHT && 0 <= c2 < BUFFER_WIDTH implies self@[r][c2] == rhs[r][c2] by {
                if r == row && c2 == col {
                } else {
                    assert(r * (BUFFER_WIDTH as int) + c2 != idx);
                }
            }
            assert(self@ =~~= rhs);
        }
    }
}

/// The line writer: owns the display surface, tracks the current write
/// column on the bottom row and the current attribute.
pub struct Writer {
    column_position: usize,
    color_code: ColorCode,
    buffer: Buffer,
}

impl Writer {
    /// The grid of cells currently on the surface.
    pub closed spec fn grid(&self) -> Seq<Seq<ScreenChar>> {
        self.buffer@
    }

    /// The current write column on the bottom row.
    pub closed spec fn col(&self) -> int {
        self.column_position as int
    }

    /// The attribute that new cells are written with.
    pub closed spec fn attr(&self) -> ColorCode {
        self.color_code
    }

    /// A well-formed writer: the surface is fully allocated and the column
    /// never runs past the width.
    pub closed spec fn wf(&self) -> bool {
        &&& self.buffer.wf()
        &&& self.column_position <= BUFFER_WIDTH
    }

    /// The grid of a writer is always well shaped.
    pub proof fn lemma_grid_wf(&self)
        ensures
            grid_wf(self.grid()),
    {
        self.buffer.lemma_grid_wf();
    }

    /// Builds a writer over a fresh all-blank surface, with column zero and
    /// the attribute packed from the given color pair.
    pub fn new(foreground: Color, background: Color) -> (w: Writer)
        ensures
            w.wf(),
            w.col() == 0,
            w.attr() == ColorCode::spec_new(foreground, background),
            forall|r: int, c: int|
                0 <= r < BUFFER_HEIGHT && 0 <= c < BUFFER_WIDTH ==> w.grid()[r][c] == blank_char(
                    w.attr(),
                ),
    {
        let color_code = ColorCode::new(foreground, background);
        let blank = ScreenChar { ascii_character: 0x20, color_code };
        Writer { column_position: 0, color_code, buffer: Buffer::new(blank) }
    }

    /// Overwrites every cell of row `row` with a blank in the current
    /// attribute; the column and attribute are untouched.
    pub fn clear_row(&mut self, row: usize)
        requires
            old(self).wf(),
            row < BUFFER_HEIGHT,
        ensures
            final(self).wf(),
            final(self).grid() == spec_clear_row(old(self).grid(), row as int, old(self).attr()),
            final(self).col() == old(self).col(),
            final(self).attr() == old(self).attr(),
    {
        let blank = ScreenChar { ascii_character: 0x20, color_code: self.color_code };
        proof {
            self.buffer.lemma_grid_wf();
        }
        let mut col: usize = 0;
        while col < BUFFER_WIDTH
            invariant
                self.wf(),
                grid_wf(self.grid()),
                grid_wf(old(self).grid()),
                row < BUFFER_HEIGHT,
                col <= BUFFER_WIDTH,
                self.color_code == old(self).color_code,
                self.column_position == old(self).column_position,
                blank == blank_char(old(self).attr()),
                forall|c: int|
                    0 <= c < col ==> self.grid()[row as int][c] == blank_char(old(self).attr()),
                forall|c: int|
                    col <= c < BUFFER_WIDTH ==> self.grid()[row as int][c]
                        == old(self).grid()[row as int][c],
                forall|r: int, c: int|
                    0 <= r < BUFFER_HEIGHT && 0 <= c < BUFFER_WIDTH && r != row
                        ==> self.grid()[r][c] == old(self).grid()[r][c],
            decreases BUFFER_WIDTH - col,
        {
            self.buffer.write(row, col, blank);
            col += 1;
        }
        proof {
            self.buffer.lemma_grid_wf();
            old(self).buffer.lemma_grid_wf();
            assert(self.grid() =~~= spec_clear_row(
                old(self).grid(),
                row as int,
                old(self).attr(),
            ));
        }
    }

    /// Scrolls the surface up by one line: each row is copied into the row
    /// above it, the bottom row is cleared, and the column resets to zero.
    pub fn new_line(&mut self)
        requires
            old(self).wf(),
        ensures
            final(self).wf(),
            final(self).grid() == spec_new_line(old(self).grid(), old(self).attr()),
            final(self).col() == 0,
            final(self).attr() == old(self).attr(),
    {
        proof {
            self.buffer.lemma_grid_wf();
        }
        let mut row: usize = 1;
        while row < BUFFER_HEIGHT
            invariant
                self.wf(),
                grid_wf(self.grid()),
                grid_wf(old(self).grid()),
                1 <= row <= BUFFER_HEIGHT,
                self.color_code == old(self).color_code,
                forall|r: int, c: int|
                    0 <= r < row - 1 && 0 <= c < BUFFER_WIDTH ==> self.grid()[r][c] == old(
                        self,
                    ).grid()[r + 1][c],
                forall|r: int, c: int|
                    row - 1 <= r < BUFFER_HEIGHT && 0 <= c < BUFFER_WIDTH ==> self.grid()[r][c]
                        == old(self).grid()[r][c],
            decreases BUFFER_HEIGHT - row,
        {
            let dst: usize = row - 1;
            let mut c: usize = 0;
            while c < BUFFER_WIDTH
                invariant
                    self.wf(),
                    grid_wf(self.grid()),
                    grid_wf(old(self).grid()),
                    1 <= row < BUFFER_HEIGHT,
                    dst == row - 1,
                    c <= BUFFER_WIDTH,
                    self.color_code == old(self).color_code,
                    forall|r2: int, c2: int|
                        0 <= r2 < row - 1 && 0 <= c2 < BUFFER_WIDTH ==> self.grid()[r2][c2] == old(
                            self,
                        ).grid()[r2 + 1][c2],
                    forall|c2: int|
                        0 <= c2 < c ==> self.grid()[dst as int][c2]
                            == old(self).grid()[row as int][c2],
                    forall|c2: int|
                        c <= c2 < BUFFER_WIDTH ==> self.grid()[dst as int][c2]
                            == old(self).grid()[dst as int][c2],
                    forall|r2: int, c2: int|
                        row <= r2 < BUFFER_HEIGHT && 0 <= c2 < BUFFER_WIDTH
                            ==> self.grid()[r2][c2] == old(self).grid()[r2][c2],
                decreases BUFFER_WIDTH - c,
            {
                let character = self.buffer.read(row, c);
                self.buffer.write(dst, c, character);
                c += 1;
            }
            row += 1;
        }
        self.clear_row(BUFFER_HEIGHT - 1);
        self.column_position = 0;
        proof {
            self.buffer.lemma_grid_wf();
            old(self).buffer.lemma_grid_wf();
            assert(self.grid() =~~= spec_new_line(old(self).grid(), old(self).attr()));
        }
    }

    /// Emits one raw byte: a newline scrolls; any other byte is placed at the
    /// current column of the bottom row, after a scroll if the row is full,
    /// and the column advances by one.
    pub fn write_byte(&mut self, byte: u8)
        requires
            old(self).wf(),
        ensures
            final(self).wf(),
            final(self).grid() == spec_write_byte(
                old(self).grid(),
                old(self).col(),
                old(self).attr(),
                byte,
            ).0,
            final(self).col() == spec_write_byte(
                old(self).grid(),
                old(self).col(),
                old(self).attr(),
                byte,
            ).1,
            final(self).attr() == old(self).attr(),
    {
        if byte == 0x0a {
            self.new_line();
        } else {
            if self.column_position >= BUFFER_WIDTH {
                self.new_line();
            }
            let row: usize = BUFFER_HEIGHT - 1;
            let col: usize = self.column_position;
            self.buffer.write(
                row,
                col,
                ScreenChar { ascii_character: byte, color_code: self.color_code },
            );
            self.column_position = col + 1;
        }
    }

    /// Renders a string: every byte of its encoding is emitted, printable
    /// bytes and newlines as they are, anything else as the fallback glyph.
    pub fn write_string(&mut self, s: &str)
        requires
            old(self).wf(),
        ensures
            final(self).wf(),
            final(self).grid() == spec_write_str(
                old(self).grid(),
                old(self).col(),
                old(self).attr(),
                s.spec_bytes(),
            ).0,
            final(self).col() == spec_write_str(
                old(self).grid(),
                old(self).col(),
                old(self).attr(),
                s.spec_bytes(),
            ).1,
            final(self).attr() == old(self).attr(),
    {
        let bs: &[u8] = s.as_bytes();
        let mut i: usize = 0;
        while i < bs.len()
            invariant
                self.wf(),
                bs@ == s.spec_bytes(),
                i <= bs@.len(),
                self.color_code == old(self).color_code,
                self.grid() == spec_write_bytes(
                    old(self).grid(),
                    old(self).col(),
                    old(self).attr(),
                    glyphs_of(bs@.take(i as int)),
                ).0,
                self.col() == spec_write_bytes(
                    old(self).grid(),
                    old(self).col(),
                    old(self).attr(),
                    glyphs_of(bs@.take(i as int)),
                ).1,
            decreases bs@.len() - i,
        {
            let byte = bs[i];
            let emitted: u8 = if (0x20 <= byte && byte < 0x7e) || byte == 0x0a {
                byte
            } else {
                0xfe
            };
            proof {
                assert(emitted == glyph_of(bs@[i as int]));
                lemma_write_bytes_snoc(
                    old(self).grid(),
                    old(self).col(),
                    old(self).attr(),
                    glyphs_of(bs@.take(i as int)),
                    emitted,
                );
                assert(glyphs_of(bs@.take(i + 1)) =~= glyphs_of(bs@.take(i as int)).push(
                    emitted,
                ));
            }
            self.write_byte(emitted);
            i += 1;
        }
        proof {
            assert(bs@.take(bs@.len() as int) =~= bs@);
        }
    }

    /// Renders a string followed by a newline; the column always ends at
    /// zero.
    pub fn println_str(&mut self, s: &str)
        requires
            old(self).wf(),
        ensures
            final(self).wf(),
            final(self).grid() == spec_write_str(
                old(self).grid(),
                old(self).col(),
                old(self).attr(),
                s.spec_bytes().push(0x0a),
            ).0,
            final(self).col() == 0,
            final(self).attr() == old(self).attr(),
    {
        self.write_string(s);
        self.write_byte(0x0a);
        proof {
            lemma_write_bytes_snoc(
                old(self).grid(),
                old(self).col(),
                old(self).attr(),
                glyphs_of(s.spec_bytes()),
                0x0a,
            );
            assert(glyphs_of(s.spec_bytes().push(0x0a)) =~= glyphs_of(s.spec_bytes()).push(
                0x0a,
            ));
        }
    }

    /// The current write column.
    pub fn column(&self) -> (c: usize)
        ensures
            c as int == self.col(),
    {
        self.column_position
    }

    /// The cell currently at `(row, col)`.
    pub fn cell_at(&self, row: usize, col: usize) -> (c: ScreenChar)
        requires
            self.wf(),
            row < BUFFER_HEIGHT,
            col < BUFFER_WIDTH,
        ensures
            c == self.grid()[row as int][col as int],
    {
        self.buffer.read(row, col)
    }

    /// The character byte currently at `(row, col)`.
    pub fn char_at(&self, row: usize, col: usize) -> (b: u8)
        requires
            self.wf(),
            row < BUFFER_HEIGHT,
            col < BUFFER_WIDTH,
        ensures
            b == self.grid()[row as int][col as int].ascii_character,
    {
        self.cell_at(row, col).ascii_character
    }
}

} // verus!
