//! The cursor-advancing writer: holds the character grid, the cursor
//! column and the current attribute, and turns a stream of bytes into
//! cell writes with line wrapping and scrolling.

use vstd::prelude::*;
use vstd::string::StringSliceAdditionalSpecFns;
use crate::color::{Color, ColorCode};

verus! {

/// Number of rows in the character grid.
pub const BUFFER_HEIGHT: usize = 25;

/// Number of columns in the character grid.
pub const BUFFER_WIDTH: usize = 80;

/// The byte that triggers a line advance.
pub const LINE_FEED: u8 = 0x0A;

/// The glyph written in place of any non-printable, non-line-feed byte.
pub const PLACEHOLDER_GLYPH: u8 = 0xFE;

/// The character byte of a cleared cell.
pub const BLANK_BYTE: u8 = 0x20;

/// One character position in the grid: a character byte paired with an
/// attribute byte, in that order.
#[derive(Debug, Clone, Copy, PartialEq, Eq, Structural)]
pub struct ScreenChar {
    pub ascii_char: u8,
    pub color_code: ColorCode,
}

/// The cell produced by printing byte `b` under attribute `attr`.
pub open spec fn printed_cell(b: u8, attr: ColorCode) -> ScreenChar {
    ScreenChar { ascii_char: b, color_code: attr }
}

/// The cell a line advance leaves in cleared positions.
pub open spec fn blank_cell(attr: ColorCode) -> ScreenChar {
    ScreenChar { ascii_char: BLANK_BYTE, color_code: attr }
}

/// A full row of cleared cells.
pub open spec fn blank_row(attr: ColorCode) -> Seq<ScreenChar> {
    Seq::new(BUFFER_WIDTH as nat, |j: int| blank_cell(attr))
}

/// A whole grid of cleared cells.
pub open spec fn blank_grid(attr: ColorCode) -> Seq<Seq<ScreenChar>> {
    Seq::new(BUFFER_HEIGHT as nat, |i: int| blank_row(attr))
}

/// The grid after one line advance: every row shifts up by one and the
/// bottom row is cleared.
pub open spec fn scrolled(g: Seq<Seq<ScreenChar>>, attr: ColorCode) -> Seq<Seq<ScreenChar>> {
    Seq::new(g.len(), |i: int| if i + 1 < g.len() { g[i + 1] } else { blank_row(attr) })
}

/// The character grid, owned as plain rows of cells.
pub struct Buffer {
    chars: Vec<Vec<ScreenChar>>,
}

impl View for Buffer {
    type V = Seq<Seq<ScreenChar>>;

    closed spec fn view(&self) -> Seq<Seq<ScreenChar>> {
        Seq::new(self.chars@.len(), |i: int| self.chars@[i]@)
    }
}

/// The mathematical state of a writer: cursor column, current attribute,
/// and the grid contents.
#[verifier::ext_equal]
pub ghost struct WriterModel {
    pub col: nat,
    pub attr: ColorCode,
    pub grid: Seq<Seq<ScreenChar>>,
}

impl WriterModel {
    /// The grid has its fixed dimensions and the cursor column never
    /// passes the width.
    pub open spec fn wf(self) -> bool {
        &&& self.grid.len() == BUFFER_HEIGHT
        &&& (forall|i: int| 0 <= i < self.grid.len() ==> (#[trigger] self.grid[i]).len() == BUFFER_WIDTH)
        &&& self.col <= BUFFER_WIDTH
    }
}

/// The state of a freshly constructed writer: column 0 and a cleared grid.
pub open spec fn fresh_model(attr: ColorCode) -> WriterModel {
    WriterModel { col: 0, attr, grid: blank_grid(attr) }
}

/// The line-advance transition: the column resets to 0 and the grid
/// scrolls up one row.
pub open spec fn step_line_feed(m: WriterModel) -> WriterModel {
    WriterModel { col: 0, attr: m.attr, grid: scrolled(m.grid, m.attr) }
}

/// The transition for a non-line-feed byte: after a line advance if the
/// row is full, the byte lands in the bottom row at the cursor column and
/// the column moves one right.
pub open spec fn step_print(m: WriterModel, b: u8) -> WriterModel {
    let m1 = if m.col == BUFFER_WIDTH { step_line_feed(m) } else { m };
    let row: int = BUFFER_HEIGHT - 1;
    WriterModel {
        col: (m1.col + 1) as nat,
        attr: m1.attr,
        grid: m1.grid.update(row, m1.grid[row].update(m1.col as int, printed_cell(b, m1.attr))),
    }
}

/// What one byte handed to the writer does to its state.
pub open spec fn step_byte(m: WriterModel, b: u8) -> WriterModel {
    if b == LINE_FEED {
        step_line_feed(m)
    } else {
        step_print(m, b)
    }
}

/// Whether a byte lies in the printable range.
pub open spec fn is_printable(b: u8) -> bool {
    0x20 <= b && b <= 0x7E
}

/// String output sanitation: printable bytes and the line feed pass
/// unchanged; every other byte becomes the placeholder glyph.
pub open spec fn sanitize_byte(b: u8) -> u8 {
    if is_printable(b) || b == LINE_FEED {
        b
    } else {
        PLACEHOLDER_GLYPH
    }
}

/// What a whole byte sequence handed to string output does to the state:
/// each byte is sanitized and then fed to the byte transition in order.
pub open spec fn step_bytes(m: WriterModel, s: Seq<u8>) -> WriterModel
    decreases s.len(),
{
    if s.len() == 0 {
        m
    } else {
        step_bytes(step_byte(m, sanitize_byte(s[0])), s.skip(1))
    }
}

/// Writes bytes to the grid at the cursor position, wrapping and
/// scrolling lines as needed.
pub struct Writer {
    pub column_position: usize,
    pub color_code: ColorCode,
    buffer: Buffer,
}

impl View for Writer {
    type V = WriterModel;

    closed spec fn view(&self) -> WriterModel {
        WriterModel {
            col: self.column_position as nat,
            attr: self.color_code,
            grid: self.buffer@,
        }
    }
}

impl Writer {
    /// Builds a writer over a cleared grid, with the cursor at column 0
    /// and the given attribute active.
    pub fn new(color_code: ColorCode) -> (w: Writer)
        ensures
            w@ == fresh_model(color_code),
            w@.wf(),
    {
        let mut chars: Vec<Vec<ScreenChar>> = Vec::new();
        while chars.len() < BUFFER_HEIGHT
            invariant
                chars@.len() <= BUFFER_HEIGHT,
                forall|i: int| 0 <= i < chars@.len() ==> #[trigger] chars@[i]@ == blank_row(color_code),
            decreases BUFFER_HEIGHT - chars.len(),
        {
            let row = blank_row_vec(color_code);
            chars.push(row);
        }
        let w = Writer {
            column_position: 0,
            color_code,
            buffer: Buffer { chars },
        };
        proof {
            assert(w@.grid =~~= fresh_model(color_code).grid);
            assert(w@ =~~= fresh_model(color_code));
        }
        w
    }

    /// The cell at the given grid position.
    pub fn cell(&self, row: usize, col: usize) -> (c: ScreenChar)
        requires
            self@.wf(),
            row < BUFFER_HEIGHT,
            col < BUFFER_WIDTH,
        ensures
            c == self@.grid[row as int][col as int],
    {
        proof {
            assert(self.buffer.chars@.len() == self@.grid.len());
            assert(self.buffer.chars@[row as int]@ == self@.grid[row as int]);
        }
        self.buffer.chars[row][col]
    }

    /// Performs the line advance: scrolls every row up by one, clears the
    /// bottom row with the current attribute, and resets the column.
    pub fn new_line(&mut self)
        requires
            old(self)@.wf(),
        ensures
            final(self)@ == step_line_feed(old(self)@),
            final(self)@.wf(),
    {
        let ghost m0 = self@;
        let _removed = self.buffer.chars.remove(0);
        let row = blank_row_vec(self.color_code);
        self.buffer.chars.push(row);
        self.column_position = 0;
        proof {
            assert(self@.grid =~~= step_line_feed(m0).grid);
            assert(self@ =~~= step_line_feed(m0));
            lemma_step_line_feed_preserves_wf(m0);
        }
    }

    /// Writes one byte at the cursor under the current attribute: a line
    /// feed advances the line; any other byte lands in the bottom row
    /// (after a line advance if the row is full) and moves the cursor.
    pub fn write_byte(&mut self, byte: u8)
        requires
            old(self)@.wf(),
        ensures
            final(self)@ == step_byte(old(self)@, byte),
            final(self)@.wf(),
    {
        let ghost m0 = self@;
        if byte == LINE_FEED {
            self.new_line();
        } else {
            if self.column_position >= BUFFER_WIDTH {
                self.new_line();
            }
            let ghost m1 = self@;
            let row: usize = BUFFER_HEIGHT - 1;
            let col: usize = self.column_position;
            let color_code = self.color_code;
            proof {
                assert(col < BUFFER_WIDTH);
                assert(self.buffer.chars@.len() == self@.grid.len());
                assert(self.buffer.chars@[row as int]@ == self@.grid[row as int]);
            }
            self.buffer.chars[row][col] = ScreenChar { ascii_char: byte, color_code };
            self.column_position = col + 1;
            proof {
                assert(self@.grid =~~= step_print(m0, byte).grid);
                assert(self@ =~~= step_print(m0, byte));
                lemma_step_byte_preserves_wf(m0, byte);
            }
        }
    }

    /// Writes a string as its underlying byte sequence: each printable
    /// or line-feed byte is forwarded unchanged, every other byte is
    /// replaced by the placeholder glyph before it reaches the grid.
    pub fn write_string(&mut self, s: &str)
        requires
            old(self)@.wf(),
        ensures
            final(self)@ == step_bytes(old(self)@, s.spec_bytes()),
            final(self)@.wf(),
    {
        let ghost m0 = self@;
        let bytes = s.as_bytes();
        let n: usize = bytes.len();
        let mut i: usize = 0;
        while i < n
            invariant
                i <= n,
                n == bytes@.len(),
                bytes@ == s.spec_bytes(),
                self@ == step_bytes(m0, bytes@.take(i as int)),
                self@.wf(),
            decreases n - i,
        {
            let byte = bytes[i];
            proof {
                lemma_step_bytes_snoc(m0, bytes@.take(i as int), bytes@[i as int]);
                assert(bytes@.take(i as int).push(bytes@[i as int]) =~= bytes@.take(i as int + 1));
            }
            if (0x20 <= byte && byte <= 0x7E) || byte == LINE_FEED {
                self.write_byte(byte);
            } else {
                self.write_byte(PLACEHOLDER_GLYPH);
            }
            i = i + 1;
        }
        proof {
            assert(bytes@.take(n as int) =~= bytes@);
        }
    }
}

/// Builds a writer with a yellow-on-black attribute over a cleared grid
/// and writes a short greeting into it, returning the writer so the grid
/// can be handed on for display.
pub fn print_something() -> (w: Writer)
    ensures
        w@ == step_bytes(
            step_bytes(
                step_byte(fresh_model(ColorCode::spec_new(Color::Yellow, Color::Black)), 0x48),
                "ello ".spec_bytes(),
            ),
            "World!".spec_bytes(),
        ),
        w@.wf(),
{
    let mut writer = Writer::new(ColorCode::new(Color::Yellow, Color::Black));
    writer.write_byte(0x48);
    writer.write_string("ello ");
    writer.write_string("World!");
    writer
}

/// Builds one row of cleared cells.
fn blank_row_vec(attr: ColorCode) -> (r: Vec<ScreenChar>)
    ensures
        r@ == blank_row(attr),
{
    let mut row: Vec<ScreenChar> = Vec::new();
    while row.len() < BUFFER_WIDTH
        invariant
            row@.len() <= BUFFER_WIDTH,
            forall|j: int| 0 <= j < row@.len() ==> row@[j] == blank_cell(attr),
        decreases BUFFER_WIDTH - row.len(),
    {
        row.push(ScreenChar { ascii_char: BLANK_BYTE, color_code: attr });
    }
    proof {
        assert(row@ =~= blank_row(attr));
    }
    row
}

/// A line advance keeps the grid well formed.
pub proof fn lemma_step_line_feed_preserves_wf(m: WriterModel)
    requires
        m.wf(),
    ensures
        step_line_feed(m).wf(),
{
    let g = step_line_feed(m).grid;
    assert forall|i: int| 0 <= i < g.len() implies (#[trigger] g[i]).len() == BUFFER_WIDTH by {
        if i + 1 < m.grid.len() {
            assert(m.grid[i + 1].len() == BUFFER_WIDTH);
        }
    }
}

/// Feeding a sequence and then one more byte is the same as feeding the
/// sequence with that byte appended.
pub proof fn lemma_step_bytes_snoc(m: WriterModel, s: Seq<u8>, b: u8)
    ensures
        step_bytes(m, s.push(b)) == step_byte(step_bytes(m, s), sanitize_byte(b)),
    decreases s.len(),
{
    reveal_with_fuel(step_bytes, 2);
    if s.len() == 0 {
        assert(s.push(b)[0] == b);
        assert(s.push(b).skip(1) =~= Seq::<u8>::empty());
    } else {
        assert(s.push(b)[0] == s[0]);
        assert(s.push(b).skip(1) =~= s.skip(1).push(b));
        lemma_step_bytes_snoc(step_byte(m, sanitize_byte(s[0])), s.skip(1), b);
    }
}

/// A printable or line-feed byte written through string output is
/// forwarded unchanged: the one-byte string acts exactly as the raw byte
/// transition on it, never a substitute.
pub proof fn lemma_write_string_keeps_printable(m: WriterModel, b: u8)
    requires
        is_printable(b) || b == LINE_FEED,
    ensures
        sanitize_byte(b) == b,
        step_bytes(m, seq![b]) == step_byte(m, b),
{
    reveal_with_fuel(step_bytes, 2);
    assert(seq![b].skip(1) =~= Seq::<u8>::empty());
}

/// Every other byte written through string output is substituted: the
/// one-byte string acts as the raw byte transition on the placeholder
/// glyph, and the cell it fills holds the placeholder under the current
/// attribute, never the byte itself.
pub proof fn lemma_write_string_replaces_unprintable(m: WriterModel, b: u8)
    requires
        m.wf(),
        !is_printable(b),
        b != LINE_FEED,
    ensures
        sanitize_byte(b) == PLACEHOLDER_GLYPH,
        step_bytes(m, seq![b]) == step_byte(m, PLACEHOLDER_GLYPH),
        m.col < BUFFER_WIDTH ==> step_bytes(m, seq![b]).grid[BUFFER_HEIGHT - 1][m.col as int]
            == printed_cell(PLACEHOLDER_GLYPH, m.attr),
{
    reveal_with_fuel(step_bytes, 2);
    assert(seq![b].skip(1) =~= Seq::<u8>::empty());
    assert(PLACEHOLDER_GLYPH != LINE_FEED);
    assert(m.grid[BUFFER_HEIGHT - 1].len() == BUFFER_WIDTH);
}

/// Every byte transition keeps the writer state well formed.
pub proof fn lemma_step_byte_preserves_wf(m: WriterModel, b: u8)
    requires
        m.wf(),
    ensures
        step_byte(m, b).wf(),
{
    lemma_step_line_feed_preserves_wf(m);
}

/// Non-line-feed bytes that fit in the remainder of the active row land
/// there one after the other, under the current attribute, and touch no
/// other row and no line advance.
pub proof fn lemma_fill_active_row(m: WriterModel, s: Seq<u8>)
    requires
        m.wf(),
        m.col + s.len() <= BUFFER_WIDTH,
        forall|k: int| 0 <= k < s.len() ==> #[trigger] s[k] != LINE_FEED,
    ensures
        step_bytes(m, s).wf(),
        step_bytes(m, s).col == m.col + s.len(),
        step_bytes(m, s).attr == m.attr,
        forall|i: int| 0 <= i < BUFFER_HEIGHT - 1 ==> #[trigger] step_bytes(m, s).grid[i] == m.grid[i],
        forall|j: int|
            0 <= j < BUFFER_WIDTH ==> #[trigger] step_bytes(m, s).grid[BUFFER_HEIGHT - 1][j] == (
            if m.col <= j < m.col + s.len() {
                printed_cell(sanitize_byte(s[j - m.col]), m.attr)
            } else {
                m.grid[BUFFER_HEIGHT - 1][j]
            }),
    decreases s.len(),
{
    if s.len() == 0 {
    } else {
        let b = sanitize_byte(s[0]);
        assert(b != LINE_FEED);
        let m1 = step_byte(m, b);
        lemma_step_byte_preserves_wf(m, b);
        assert(m.grid[BUFFER_HEIGHT - 1].len() == BUFFER_WIDTH);
        assert(m1.col == m.col + 1);
        let t = s.skip(1);
        assert(forall|k: int| 0 <= k < t.len() ==> #[trigger] t[k] == s[k + 1]);
        lemma_fill_active_row(m1, t);
        let r = step_bytes(m, s);
        assert(r == step_bytes(m1, t));
        assert forall|j: int| 0 <= j < BUFFER_WIDTH implies #[trigger] r.grid[BUFFER_HEIGHT - 1][j]
            == (if m.col <= j < m.col + s.len() {
                printed_cell(sanitize_byte(s[j - m.col]), m.attr)
            } else {
                m.grid[BUFFER_HEIGHT - 1][j]
            }) by {
            if m.col + 1 <= j < m.col + s.len() {
                assert(r.grid[BUFFER_HEIGHT - 1][j] == printed_cell(sanitize_byte(t[j - m.col - 1]), m.attr));
                assert(t[j - m.col - 1] == s[j - m.col]);
            } else if j == m.col {
                assert(m1.grid[BUFFER_HEIGHT - 1][j] == printed_cell(b, m.attr));
            } else {
                assert(m1.grid[BUFFER_HEIGHT - 1][j] == m.grid[BUFFER_HEIGHT - 1][j]);
            }
        }
    }
}

/// Column overflow: writing one more printable byte than the grid is wide,
/// starting at column 0 with no line feeds, causes exactly one line
/// advance — the first row's worth of bytes stands one row above the
/// active row, and the extra byte lands at column 0 of the new active row,
/// with the cursor one past it.
pub proof fn lemma_column_overflow(m: WriterModel, s: Seq<u8>)
    requires
        m.wf(),
        m.col == 0,
        s.len() == BUFFER_WIDTH + 1,
        forall|k: int| 0 <= k < s.len() ==> is_printable(#[trigger] s[k]),
    ensures
        step_bytes(m, s).col == 1,
        step_bytes(m, s).grid[BUFFER_HEIGHT - 1][0] == printed_cell(
            s[BUFFER_WIDTH as int],
            m.attr,
        ),
        forall|j: int| 0 <= j < BUFFER_WIDTH ==> #[trigger] step_bytes(m, s).grid[BUFFER_HEIGHT
            - 2][j] == printed_cell(s[j], m.attr),
{
    let p = s.take(BUFFER_WIDTH as int);
    lemma_fill_active_row(m, p);
    let mw = step_bytes(m, p);
    assert(mw.col == BUFFER_WIDTH);
    let last = s[BUFFER_WIDTH as int];
    lemma_step_bytes_snoc(m, p, last);
    assert(p.push(last) =~= s);
    let r = step_bytes(m, s);
    assert(r == step_byte(mw, sanitize_byte(last)));
    assert(sanitize_byte(last) == last && last != LINE_FEED);
    let ma = step_line_feed(mw);
    lemma_step_line_feed_preserves_wf(mw);
    assert(r == step_print(mw, last));
    assert(r.grid[BUFFER_HEIGHT - 1] == ma.grid[BUFFER_HEIGHT - 1].update(0, printed_cell(last, m.attr)));
    assert(ma.grid[BUFFER_HEIGHT - 1].len() == BUFFER_WIDTH);
    assert(r.grid[BUFFER_HEIGHT - 2] == ma.grid[BUFFER_HEIGHT - 2]);
    assert(ma.grid[BUFFER_HEIGHT - 2] == mw.grid[BUFFER_HEIGHT - 1]);
    assert forall|j: int| 0 <= j < BUFFER_WIDTH implies #[trigger] r.grid[BUFFER_HEIGHT - 2][j]
        == printed_cell(s[j], m.attr) by {
        assert(mw.grid[BUFFER_HEIGHT - 1][j] == printed_cell(sanitize_byte(p[j]), m.attr));
        assert(p[j] == s[j]);
    }
}

} // verus!

