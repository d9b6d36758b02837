use vstd::prelude::*;
use crate::types::PixcelFormat;
use vstd::arithmetic::div_mod::lemma_fundamental_div_mod_converse;

verus! {

/// An RGB colour.
#[derive(Debug, Clone, Copy, PartialEq, Eq, Structural)]
pub struct Color {
    pub r: u8,
    pub g: u8,
    pub b: u8,
}

impl Color {
    pub fn new(r: u8, g: u8, b: u8) -> (c: Self)
        ensures
            c == (Color { r, g, b }),
    {
        Self { r, g, b }
    }

    pub fn black() -> (c: Self)
        ensures
            c == (Color { r: 0, g: 0, b: 0 }),
    {
        Self { r: 0, g: 0, b: 0 }
    }

    pub fn white() -> (c: Self)
        ensures
            c == (Color { r: 255, g: 255, b: 255 }),
    {
        Self { r: 255, g: 255, b: 255 }
    }
}

/// The geometry and pixel format of a frame buffer.
pub trait PixcelInfo {
    /// What `horizontal_resolution` reports.
    spec fn reported_horizontal_resolution(&self) -> usize;

    /// What `pixcels_per_scan_line` reports.
    spec fn reported_pixcels_per_scan_line(&self) -> usize;

    fn get_pixcel_format(&self) -> PixcelFormat;

    fn get_num_pixcels(&self) -> usize;

    /// The horizontal resolution, the same on every call.
    fn horizontal_resolution(&self) -> (r: usize)
        ensures
            r == self.reported_horizontal_resolution(),
    ;

    fn vertical_resolution(&self) -> usize;

    /// The number of pixels per scan line, the same on every call.
    fn pixcels_per_scan_line(&self) -> (r: usize)
        ensures
            r == self.reported_pixcels_per_scan_line(),
    ;
}

/// A frame buffer that can be drawn on through a shared reference.
pub trait PixcelWritable {
    /// Sets pixel `(x, y)` to `color`.
    fn write(&self, x: usize, y: usize, color: Color);

    /// Copies `bytes` into the frame buffer from byte `byte_offset` on.
    fn write_bytes(&self, byte_offset: usize, bytes: &[u8]);
}

/// Something that can be drawn on through a unique reference.
pub trait PixcelWritableMut {
    /// The pixels that `write` accepts.
    spec fn writable(&self, x: usize, y: usize) -> bool;

    /// The colour of pixel `(x, y)`.
    spec fn spec_pixel(&self, x: usize, y: usize) -> Color;

    /// Sets pixel `(x, y)` to `color`; the other pixels keep theirs.
    fn write(&mut self, x: usize, y: usize, color: Color)
        requires
            old(self).writable(x, y),
        ensures
            forall|xx: usize, yy: usize| #[trigger] final(self).writable(xx, yy) == old(self).writable(xx, yy),
            forall|xx: usize, yy: usize|
                old(self).writable(xx, yy) ==> #[trigger] final(self).spec_pixel(xx, yy) == if xx == x
                    && yy == y {
                    color
                } else {
                    old(self).spec_pixel(xx, yy)
                },
    ;
}

/// A screen that can draw one character cell.
pub trait AsciiWriter: PixcelWritable + PixcelInfo {
    /// Draws character `c` with its top-left corner at pixel `(x, y)`.
    fn write_ascii(&self, x: usize, y: usize, c: char, bg_color: Color, fg_color: Color);
}

/// A frame buffer with its geometry and character drawing.
pub trait PixcelWriterTrait: PixcelWritable + PixcelInfo + AsciiWriter {}

/// What the text console shows: `rows[y][x]` is the character in row `y`,
/// column `x`; `(x, y)` is the cursor.
pub struct ConsoleState {
    pub rows: Seq<Seq<char>>,
    pub x: int,
    pub y: int,
}

/// A row of blanks.
pub open spec fn blank_row(n_column: nat) -> Seq<char> {
    Seq::new(n_column, |i: int| ' ')
}

} // verus!

verus! {

/// Writes `c` under the cursor.
pub open spec fn store_state(s: ConsoleState, c: char) -> ConsoleState {
    ConsoleState { rows: s.rows.update(s.y, s.rows[s.y].update(s.x, c)), x: s.x, y: s.y }
}

/// Moves every row `dy` lines up, fills the freed rows with blanks and puts
/// the cursor at the start of its line, `dy` lines higher.
pub open spec fn scroll_state(s: ConsoleState, dy: int, n_row: nat, n_column: nat) -> ConsoleState {
    ConsoleState {
        rows: s.rows.subrange(dy, n_row as int) + Seq::new(dy as nat, |i: int| blank_row(n_column)),
        x: 0,
        y: s.y - dy,
    }
}

/// Moves the cursor to the start of the next line; scrolls by one line when
/// the cursor is already past the last line.
pub open spec fn new_line_state(s: ConsoleState, n_row: nat, n_column: nat) -> ConsoleState {
    if s.y < n_row {
        ConsoleState { rows: s.rows, x: 0, y: s.y + 1 }
    } else {
        scroll_state(s, 1, n_row, n_column)
    }
}

/// Prints one character: a line feed starts a new line; any other character
/// is stored under the cursor, after a new line when the cursor is outside the
/// screen, and the cursor moves one column right.
pub open spec fn put_char_state(s: ConsoleState, c: char, n_row: nat, n_column: nat) -> ConsoleState {
    if c == '\n' {
        new_line_state(s, n_row, n_column)
    } else if s.x < n_column && s.y < n_row {
        let t = store_state(s, c);
        ConsoleState { rows: t.rows, x: t.x + 1, y: t.y }
    } else {
        let t = store_state(new_line_state(s, n_row, n_column), c);
        ConsoleState { rows: t.rows, x: t.x + 1, y: t.y }
    }
}

/// Printing `c` stores it inside the screen (on other inputs the console
/// indexes past its last line).
pub open spec fn put_char_ok(s: ConsoleState, c: char, n_row: nat, n_column: nat) -> bool {
    c == '\n' || (s.x < n_column && s.y < n_row) || {
        let t = new_line_state(s, n_row, n_column);
        t.x < n_column && t.y < n_row
    }
}

/// Printing the characters of `cs` one after the other.
pub open spec fn put_chars_state(s: ConsoleState, cs: Seq<char>, n_row: nat, n_column: nat) -> ConsoleState
    decreases cs.len(),
{
    if cs.len() == 0 {
        s
    } else {
        put_char_state(put_chars_state(s, cs.drop_last(), n_row, n_column), cs.last(), n_row, n_column)
    }
}

/// What printing `c` hands to the writer: the whole screen, after the line
/// break, for a line feed and for a character that first wraps to a new
/// line; nothing for a character stored on the screen.
pub open spec fn put_char_draws(s: ConsoleState, c: char, n_row: nat, n_column: nat, bg: Color, fg: Color) -> Seq<(int, int, char, Color, Color)> {
    if c != '\n' && s.x < n_column && s.y < n_row {
        Seq::empty()
    } else {
        screen_draws(new_line_state(s, n_row, n_column).rows, n_row, n_column, bg, fg)
    }
}

/// What printing the characters of `cs` one after the other hands to the
/// writer.
pub open spec fn put_chars_draws(s: ConsoleState, cs: Seq<char>, n_row: nat, n_column: nat, bg: Color, fg: Color) -> Seq<(int, int, char, Color, Color)>
    decreases cs.len(),
{
    if cs.len() == 0 {
        Seq::empty()
    } else {
        put_chars_draws(s, cs.drop_last(), n_row, n_column, bg, fg) + put_char_draws(
            put_chars_state(s, cs.drop_last(), n_row, n_column),
            cs.last(),
            n_row,
            n_column,
            bg,
            fg,
        )
    }
}

/// No character of `cs` is stored outside the screen.
pub open spec fn put_chars_ok(s: ConsoleState, cs: Seq<char>, n_row: nat, n_column: nat) -> bool
    decreases cs.len(),
{
    cs.len() == 0 || {
        &&& put_chars_ok(s, cs.drop_last(), n_row, n_column)
        &&& put_char_ok(put_chars_state(s, cs.drop_last(), n_row, n_column), cs.last(), n_row, n_column)
    }
}

/// A screen of `n_row` rows of `n_column` characters, with the cursor inside
/// the screen or at the start of the line just below it.
pub open spec fn console_wf(s: ConsoleState, n_row: nat, n_column: nat) -> bool {
    &&& s.rows.len() == n_row
    &&& forall|i: int| 0 <= i < n_row ==> (#[trigger] s.rows[i]).len() == n_column
    &&& 0 <= s.x <= n_column
    &&& 0 <= s.y <= n_row
    &&& s.y == n_row ==> s.x == 0
}

/// A cursor position in characters.
#[derive(Debug, Clone, Copy, PartialEq, Eq, Structural)]
pub struct CursorPosition {
    x: usize,
    y: usize,
}

impl CursorPosition {
    pub closed spec fn spec_x(&self) -> usize {
        self.x
    }

    pub closed spec fn spec_y(&self) -> usize {
        self.y
    }

    /// Column 0 of the next line.
    pub fn just_new_line(&mut self)
        requires
            old(self).spec_y() < usize::MAX,
        ensures
            final(self).spec_x() == 0,
            final(self).spec_y() == old(self).spec_y() + 1,
    {
        self.x = 0;
        self.y = self.y + 1;
    }
}

/// A text console of `N_ROW` lines of `N_COLUMN` characters, drawn through
/// `writer` with 8x16 pixel cells.
pub struct Writer<'a, W: AsciiWriter + ?Sized, const N_ROW: usize, const N_COLUMN: usize> {
    writer: &'a W,
    position: CursorPosition,
    background_color: Color,
    foreground_color: Color,
    buffer: Vec<char>,
    drawn: Ghost<Seq<(int, int, char, Color, Color)>>,
}

/// The character cells that drawing the screen `rows` of `n_row` lines of
/// `n_column` characters hands to the writer, line by line: the top-left
/// pixel of the cell, the character, and the background and foreground
/// colours.
pub open spec fn screen_draws(rows: Seq<Seq<char>>, n_row: nat, n_column: nat, bg: Color, fg: Color) -> Seq<(int, int, char, Color, Color)> {
    Seq::new(n_row * n_column, |k: int| ((k % n_column as int) * 8, (k / n_column as int) * 16, rows[k / n_column as int][k % n_column as int], bg, fg))
}

/// Cell `(y, x)` of an `n_row` by `n_column` screen lies inside the buffer.
pub proof fn lemma_cell_index(y: int, x: int, n_row: int, n_column: int)
    requires
        0 <= y < n_row,
        0 <= x < n_column,
    ensures
        0 <= y * n_column + x < n_row * n_column,
        (y + 1) * n_column == y * n_column + n_column,
{
    assert(0 <= y * n_column + x < n_row * n_column) by (nonlinear_arith)
        requires 0 <= y < n_row, 0 <= x < n_column;
    assert((y + 1) * n_column == y * n_column + n_column) by (nonlinear_arith);
}

impl<'a, W: AsciiWriter + ?Sized, const N_ROW: usize, const N_COLUMN: usize> Writer<'a, W, N_ROW, N_COLUMN> {
    /// The screen and cursor.
    pub closed spec fn view(&self) -> ConsoleState {
        ConsoleState {
            rows: Seq::new(N_ROW as nat, |y: int| Seq::new(N_COLUMN as nat, |x: int| self.buffer@[y * N_COLUMN + x])),
            x: self.position.x as int,
            y: self.position.y as int,
        }
    }

    pub closed spec fn wf(&self) -> bool {
        &&& self.buffer.len() == N_ROW * N_COLUMN
        &&& console_wf(self.view(), N_ROW as nat, N_COLUMN as nat)
    }

    /// A well-formed writer shows a screen of `N_ROW` rows of `N_COLUMN`
    /// characters with the cursor on it (see `console_wf`).
    pub proof fn lemma_wf(&self)
        requires
            self.wf(),
        ensures
            console_wf(self.view(), N_ROW as nat, N_COLUMN as nat),
    {
    }

    pub closed spec fn spec_writer(&self) -> &'a W {
        self.writer
    }

    /// The character cells handed to the writer so far, in order.
    pub closed spec fn spec_drawn(&self) -> Seq<(int, int, char, Color, Color)> {
        self.drawn@
    }

    pub closed spec fn spec_background_color(&self) -> Color {
        self.background_color
    }

    pub closed spec fn spec_foreground_color(&self) -> Color {
        self.foreground_color
    }

    /// A blank screen with the cursor at the top left, white on black.
    pub fn new(writer: &'a W) -> (r: Self)
        requires
            N_ROW * N_COLUMN <= usize::MAX,
        ensures
            r.wf(),
            r.view().rows == Seq::new(N_ROW as nat, |i: int| blank_row(N_COLUMN as nat)),
            r.view().x == 0,
            r.view().y == 0,
            r.spec_writer() == writer,
            r.spec_background_color() == (Color { r: 0, g: 0, b: 0 }),
            r.spec_foreground_color() == (Color { r: 255, g: 255, b: 255 }),
            r.spec_drawn() == Seq::<(int, int, char, Color, Color)>::empty(),
    {
        let n = N_ROW * N_COLUMN;
        let mut buffer: Vec<char> = Vec::new();
        let mut i: usize = 0;
        while i < n
            invariant
                i <= n,
                buffer.len() == i,
                forall|j: int| 0 <= j < i ==> buffer@[j] == ' ',
            decreases n - i,
        {
            buffer.push(' ');
            i = i + 1;
        }
        let r = Self {
            writer,
            position: CursorPosition { x: 0, y: 0 },
            background_color: Color::black(),
            foreground_color: Color::white(),
            buffer,
            drawn: Ghost(Seq::empty()),
        };
        proof {
            assert forall|y: int| 0 <= y < N_ROW implies #[trigger] r.view().rows[y] =~= blank_row(N_COLUMN as nat) by {
                assert forall|x: int| 0 <= x < N_COLUMN implies #[trigger] r.view().rows[y][x] == ' ' by {
                    lemma_cell_index(y, x, N_ROW as int, N_COLUMN as int);
                }
            }
            assert(r.view().rows =~= Seq::new(N_ROW as nat, |i: int| blank_row(N_COLUMN as nat)));
        }
        r
    }

    /// The cells can be drawn: their pixel coordinates fit in a `usize`.
    pub open spec fn drawable() -> bool {
        &&& N_COLUMN * 8 <= usize::MAX
        &&& N_ROW * 16 <= usize::MAX
    }

    /// Stores `c` under the cursor without moving it.
    pub fn store(&mut self, c: char)
        requires
            old(self).wf(),
            old(self).view().x < N_COLUMN,
            old(self).view().y < N_ROW,
        ensures
            final(self).wf(),
            final(self).view() == store_state(old(self).view(), c),
            final(self).spec_writer() == old(self).spec_writer(),
            final(self).spec_background_color() == old(self).spec_background_color(),
            final(self).spec_foreground_color() == old(self).spec_foreground_color(),
            final(self).spec_drawn() == old(self).spec_drawn(),
    {
        let ghost old_view = self.view();
        let ghost old_buf = self.buffer@;
        let y = self.position.y;
        let x = self.position.x;
        proof {
            lemma_cell_index(y as int, x as int, N_ROW as int, N_COLUMN as int);
        }
        self.buffer.set(y * N_COLUMN + x, c);
        proof {
            let s = store_state(old_view, c);
            assert forall|yy: int| 0 <= yy < N_ROW implies #[trigger] self.view().rows[yy] =~= s.rows[yy] by {
                assert forall|xx: int| 0 <= xx < N_COLUMN implies #[trigger] self.view().rows[yy][xx] == s.rows[yy][xx] by {
                    lemma_cell_index(yy, xx, N_ROW as int, N_COLUMN as int);
                    if yy * N_COLUMN + xx == y * N_COLUMN + x {
                        lemma_cell_injective(yy, xx, y as int, x as int, N_COLUMN as int);
                    }
                }
            }
            assert(self.view().rows =~= s.rows);
        }
    }

    /// Moves every row `dy` lines up and blanks the bottom `dy` rows; the
    /// cursor goes to the start of its line, `dy` lines higher.
    pub fn scroll(&mut self, dy: usize)
        requires
            old(self).wf(),
            dy <= N_ROW,
            dy <= old(self).view().y,
        ensures
            final(self).wf(),
            final(self).view() == scroll_state(old(self).view(), dy as int, N_ROW as nat, N_COLUMN as nat),
            final(self).spec_writer() == old(self).spec_writer(),
            final(self).spec_background_color() == old(self).spec_background_color(),
            final(self).spec_foreground_color() == old(self).spec_foreground_color(),
            final(self).spec_drawn() == old(self).spec_drawn(),
    {
        let ghost old_view = self.view();
        let ghost old_buf = self.buffer@;
        let n = N_ROW * N_COLUMN;
        proof {
            assert((N_ROW - dy) * N_COLUMN + dy * N_COLUMN == N_ROW * N_COLUMN) by (nonlinear_arith)
                requires dy <= N_ROW;
            assert(0 <= (N_ROW - dy) * N_COLUMN) by (nonlinear_arith) requires dy <= N_ROW;
        }
        let kept = (N_ROW - dy) * N_COLUMN;
        let shift = dy * N_COLUMN;
        let mut k: usize = 0;
        while k < kept
            invariant
                kept + shift == n,
                n == N_ROW * N_COLUMN,
                k <= kept,
                self.buffer.len() == n,
                old_buf.len() == n,
                self.position == old(self).position,
                self.writer == old(self).writer,
                self.background_color == old(self).background_color,
                self.foreground_color == old(self).foreground_color,
                self.drawn == old(self).drawn,
                forall|j: int| 0 <= j < k ==> self.buffer@[j] == old_buf[j + shift],
                forall|j: int| k <= j < n ==> self.buffer@[j] == old_buf[j],
            decreases kept - k,
        {
            let v = self.buffer[k + shift];
            self.buffer.set(k, v);
            k = k + 1;
        }
        while k < n
            invariant
                kept + shift == n,
                n == N_ROW * N_COLUMN,
                kept <= k <= n,
                self.buffer.len() == n,
                old_buf.len() == n,
                self.position == old(self).position,
                self.writer == old(self).writer,
                self.background_color == old(self).background_color,
                self.foreground_color == old(self).foreground_color,
                self.drawn == old(self).drawn,
                forall|j: int| 0 <= j < kept ==> self.buffer@[j] == old_buf[j + shift],
                forall|j: int| kept <= j < k ==> self.buffer@[j] == ' ',
            decreases n - k,
        {
            self.buffer.set(k, ' ');
            k = k + 1;
        }
        self.position.y = self.position.y - dy;
        self.position.x = 0;
        proof {
            let s = scroll_state(old_view, dy as int, N_ROW as nat, N_COLUMN as nat);
            assert forall|yy: int| 0 <= yy < N_ROW implies #[trigger] self.view().rows[yy] =~= s.rows[yy] by {
                assert forall|xx: int| 0 <= xx < N_COLUMN implies #[trigger] self.view().rows[yy][xx] == s.rows[yy][xx] by {
                    lemma_cell_index(yy, xx, N_ROW as int, N_COLUMN as int);
                    if yy < N_ROW - dy {
                        assert(yy * N_COLUMN + xx < kept) by (nonlinear_arith)
                            requires yy < N_ROW - dy, 0 <= xx < N_COLUMN, kept == (N_ROW - dy) * N_COLUMN;
                        assert(yy * N_COLUMN + xx + shift == (yy + dy) * N_COLUMN + xx) by (nonlinear_arith)
                            requires shift == dy * N_COLUMN;
                        lemma_cell_index(yy + dy, xx, N_ROW as int, N_COLUMN as int);
                    } else {
                        assert(yy * N_COLUMN + xx >= kept) by (nonlinear_arith)
                            requires yy >= N_ROW - dy, 0 <= xx, kept == (N_ROW - dy) * N_COLUMN;
                    }
                }
            }
            assert(self.view().rows =~= s.rows);
        }
    }

    /// Draws every cell of the screen through the writer, line by line.
    pub fn flush(&mut self)
        requires
            old(self).wf(),
            Self::drawable(),
        ensures
            final(self).wf(),
            final(self).view() == old(self).view(),
            final(self).spec_writer() == old(self).spec_writer(),
            final(self).spec_background_color() == old(self).spec_background_color(),
            final(self).spec_foreground_color() == old(self).spec_foreground_color(),
            final(self).spec_drawn() == old(self).spec_drawn() + screen_draws(old(self).view().rows, N_ROW as nat,
                N_COLUMN as nat, old(self).spec_background_color(), old(self).spec_foreground_color()),
    {
        let ghost start = *self;
        let ghost all = screen_draws(self.view().rows, N_ROW as nat, N_COLUMN as nat, self.background_color,
            self.foreground_color);
        proof {
            assert(start.drawn@ + all.take(0) =~= start.drawn@);
        }
        let mut y: usize = 0;
        while y < N_ROW
            invariant
                self.wf(),
                Self::drawable(),
                y <= N_ROW,
                self.writer == start.writer,
                self.buffer@ == start.buffer@,
                self.position == start.position,
                self.background_color == start.background_color,
                self.foreground_color == start.foreground_color,
                all == screen_draws(start.view().rows, N_ROW as nat, N_COLUMN as nat, start.background_color,
                    start.foreground_color),
                self.drawn@ == start.drawn@ + all.take(y * N_COLUMN),
            decreases N_ROW - y,
        {
            let mut x: usize = 0;
            while x < N_COLUMN
                invariant
                    self.wf(),
                    Self::drawable(),
                    y < N_ROW,
                    x <= N_COLUMN,
                    self.writer == start.writer,
                    self.buffer@ == start.buffer@,
                    self.position == start.position,
                    self.background_color == start.background_color,
                    self.foreground_color == start.foreground_color,
                    all == screen_draws(start.view().rows, N_ROW as nat, N_COLUMN as nat, start.background_color,
                        start.foreground_color),
                    self.drawn@ == start.drawn@ + all.take(y * N_COLUMN + x),
                decreases N_COLUMN - x,
            {
                proof {
                    lemma_cell_index(y as int, x as int, N_ROW as int, N_COLUMN as int);
                    assert(x * 8 <= N_COLUMN * 8 && y * 16 <= N_ROW * 16) by (nonlinear_arith)
                        requires x < N_COLUMN, y < N_ROW;
                }
                let c = self.buffer[y * N_COLUMN + x];
                self.writer.write_ascii(x * 8, y * 16, c, self.background_color, self.foreground_color);
                proof {
                    let k = y * N_COLUMN + x;
                    lemma_fundamental_div_mod_converse(k, N_COLUMN as int, y as int, x as int);
                    let entry = ((x * 8) as int, (y * 16) as int, c, self.background_color, self.foreground_color);
                    assert(all[k] == entry);
                    assert(all.take(k + 1) =~= all.take(k).push(entry));
                    self.drawn = Ghost(self.drawn@.push(entry));
                    assert(self.drawn@ =~= start.drawn@ + all.take(k + 1));
                }
                x = x + 1;
            }
            proof {
                assert((y + 1) * N_COLUMN == y * N_COLUMN + N_COLUMN) by (nonlinear_arith);
            }
            y = y + 1;
        }
        proof {
            assert(all.take(N_ROW * N_COLUMN) =~= all);
            assert(self.view() =~= start.view());
        }
    }

    /// Starts a new line (scrolling by one line when the cursor is past the
    /// last line) and redraws the screen.
    pub fn new_line(&mut self)
        requires
            old(self).wf(),
            Self::drawable(),
            N_ROW > 0,
        ensures
            final(self).wf(),
            final(self).view() == new_line_state(old(self).view(), N_ROW as nat, N_COLUMN as nat),
            final(self).spec_writer() == old(self).spec_writer(),
            final(self).spec_background_color() == old(self).spec_background_color(),
            final(self).spec_foreground_color() == old(self).spec_foreground_color(),
            final(self).spec_drawn() == old(self).spec_drawn() + screen_draws(final(self).view().rows, N_ROW as nat,
                N_COLUMN as nat, old(self).spec_background_color(), old(self).spec_foreground_color()),
    {
        if self.position.y < N_ROW {
            self.position.just_new_line();
        } else {
            self.scroll(1);
        }
        self.flush();
    }

    /// Whether printing `c` now stays on the screen (see `put_char_ok`).
    pub fn can_put_char(&self, c: char) -> (b: bool)
        requires
            self.wf(),
        ensures
            b == put_char_ok(self.view(), c, N_ROW as nat, N_COLUMN as nat),
    {
        if c == '\n' || (self.position.x < N_COLUMN && self.position.y < N_ROW) {
            true
        } else if self.position.y < N_ROW {
            // a new line moves the cursor to the start of the next line
            0 < N_COLUMN && self.position.y + 1 < N_ROW
        } else {
            // a new line scrolls by one line
            0 < N_COLUMN
        }
    }

    /// Prints one character (see `put_char_state`).
    pub fn put_char(&mut self, c: char)
        requires
            old(self).wf(),
            Self::drawable(),
            N_ROW > 0,
            put_char_ok(old(self).view(), c, N_ROW as nat, N_COLUMN as nat),
        ensures
            final(self).wf(),
            final(self).view() == put_char_state(old(self).view(), c, N_ROW as nat, N_COLUMN as nat),
            final(self).spec_writer() == old(self).spec_writer(),
            final(self).spec_background_color() == old(self).spec_background_color(),
            final(self).spec_foreground_color() == old(self).spec_foreground_color(),
            final(self).spec_drawn() == old(self).spec_drawn() + put_char_draws(old(self).view(), c, N_ROW as nat,
                N_COLUMN as nat, old(self).spec_background_color(), old(self).spec_foreground_color()),
    {
        if c == '\n' {
            self.new_line();
        } else if self.position.x < N_COLUMN && self.position.y < N_ROW {
            self.store(c);
            self.position.x = self.position.x + 1;
        } else {
            self.new_line();
            self.store(c);
            self.position.x = self.position.x + 1;
        }
    }

    /// Prints the characters of `s` one after the other.
    pub fn put_string(&mut self, s: &str)
        requires
            old(self).wf(),
            Self::drawable(),
            N_ROW > 0,
            put_chars_ok(old(self).view(), s@, N_ROW as nat, N_COLUMN as nat),
        ensures
            final(self).wf(),
            final(self).view() == put_chars_state(old(self).view(), s@, N_ROW as nat, N_COLUMN as nat),
            final(self).spec_writer() == old(self).spec_writer(),
            final(self).spec_background_color() == old(self).spec_background_color(),
            final(self).spec_foreground_color() == old(self).spec_foreground_color(),
            final(self).spec_drawn() == old(self).spec_drawn() + put_chars_draws(old(self).view(), s@, N_ROW as nat,
                N_COLUMN as nat, old(self).spec_background_color(), old(self).spec_foreground_color()),
    {
        broadcast use vstd::string::axiom_spec_iter;
        let ghost start = self.view();
        let ghost cs = s@;
        for c in it: s.chars()
            invariant
                self.wf(),
                Self::drawable(),
                N_ROW > 0,
                it.seq() == cs,
                put_chars_ok(start, cs, N_ROW as nat, N_COLUMN as nat),
                self.view() == put_chars_state(start, cs.take(it.index() as int), N_ROW as nat, N_COLUMN as nat),
                self.spec_writer() == old(self).spec_writer(),
                self.spec_background_color() == old(self).spec_background_color(),
                self.spec_foreground_color() == old(self).spec_foreground_color(),
                self.spec_drawn() == old(self).spec_drawn() + put_chars_draws(start, cs.take(it.index() as int), N_ROW as nat,
                    N_COLUMN as nat, old(self).spec_background_color(), old(self).spec_foreground_color()),
        {
            proof {
                let i = it.index() as int;
                lemma_put_chars_ok_prefix(start, cs, i + 1, N_ROW as nat, N_COLUMN as nat);
                assert(cs.take(i + 1).drop_last() =~= cs.take(i));
            }
            let ghost before = self.spec_drawn();
            let ghost i = it.index() as int;
            self.put_char(c);
            proof {
                let bg = old(self).spec_background_color();
                let fg = old(self).spec_foreground_color();
                assert(cs.take(i + 1).last() == c);
                assert(self.spec_drawn() =~= old(self).spec_drawn() + put_chars_draws(start, cs.take(i + 1), N_ROW as nat,
                    N_COLUMN as nat, bg, fg));
            }
        }
        proof {
            assert(cs.take(cs.len() as int) =~= cs);
            assert(put_chars_draws(start, Seq::<char>::empty(), N_ROW as nat, N_COLUMN as nat, old(self).spec_background_color(),
                old(self).spec_foreground_color()) =~= Seq::<(int, int, char, Color, Color)>::empty());
        }
    }
}

/// Printing a string safely prints each of its prefixes safely.
pub proof fn lemma_put_chars_ok_prefix(s: ConsoleState, cs: Seq<char>, i: int, n_row: nat, n_column: nat)
    requires
        put_chars_ok(s, cs, n_row, n_column),
        0 <= i <= cs.len(),
    ensures
        put_chars_ok(s, cs.take(i), n_row, n_column),
    decreases cs.len(),
{
    if i < cs.len() {
        assert(cs.drop_last().take(i) =~= cs.take(i));
        lemma_put_chars_ok_prefix(s, cs.drop_last(), i, n_row, n_column);
    } else {
        assert(cs.take(i) =~= cs);
    }
}

/// Distinct cells have distinct buffer indices.
pub proof fn lemma_cell_injective(y1: int, x1: int, y2: int, x2: int, n_column: int)
    requires
        0 <= y1,
        0 <= y2,
        0 <= x1 < n_column,
        0 <= x2 < n_column,
        y1 * n_column + x1 == y2 * n_column + x2,
    ensures
        y1 == y2,
        x1 == x2,
{
    if y1 < y2 {
        assert(y1 * n_column + x1 < y2 * n_column) by (nonlinear_arith)
            requires y1 < y2, 0 <= x1 < n_column;
    } else if y2 < y1 {
        assert(y2 * n_column + x2 < y1 * n_column) by (nonlinear_arith)
            requires y2 < y1, 0 <= x2 < n_column;
    }
}

} // verus!
