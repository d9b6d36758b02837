//! Pictures drawn pixel by pixel: the mouse cursor.
use vstd::prelude::*;
use crate::console::Color;

verus! {

/// A picture of `get_width()` by `get_height()` pixels.
pub trait Shape {
    spec fn spec_width(&self) -> nat;

    spec fn spec_height(&self) -> nat;

    spec fn spec_pixel(&self, x: int, y: int) -> Color;

    fn get_width(&self) -> (w: usize)
        ensures
            w == self.spec_width(),
    ;

    fn get_height(&self) -> (h: usize)
        ensures
            h == self.spec_height(),
    ;

    fn get_pixel(&self, x: usize, y: usize) -> (c: Color)
        requires
            x < self.spec_width(),
            y < self.spec_height(),
        ensures
            c == self.spec_pixel(x as int, y as int),
    ;
}

/// A pixel of the mouse cursor picture.
#[derive(Clone, Copy, Debug, PartialEq, Eq, Structural)]
pub enum MouseCursorPixel {
    BackGround,
    Frame,
    Cursor,
}

pub open spec fn cursor_color(p: MouseCursorPixel) -> Color {
    match p {
        // light blue
        MouseCursorPixel::BackGround => Color { r: 173, g: 216, b: 230 },
        // black
        MouseCursorPixel::Frame => Color { r: 0, g: 0, b: 0 },
        // white
        MouseCursorPixel::Cursor => Color { r: 255, g: 255, b: 255 },
    }
}

impl From<MouseCursorPixel> for Color {
    fn from(pixel: MouseCursorPixel) -> (c: Self) {
        match pixel {
            MouseCursorPixel::BackGround => Color::new(173, 216, 230),
            MouseCursorPixel::Frame => Color::new(0, 0, 0),
            MouseCursorPixel::Cursor => Color::new(255, 255, 255),
        }
    }
}

impl vstd::std_specs::convert::FromSpecImpl<MouseCursorPixel> for Color {
    open spec fn obeys_from_spec() -> bool {
        true
    }

    open spec fn from_spec(v: MouseCursorPixel) -> Color {
        cursor_color(v)
    }
}

/// The pixel that a character of the cursor picture stands for: ' '
/// background, '@' frame, '.' cursor.
pub open spec fn pixel_of(c: u8) -> MouseCursorPixel {
    if c == 0x20 {
        MouseCursorPixel::BackGround
    } else if c == 0x40 {
        MouseCursorPixel::Frame
    } else {
        MouseCursorPixel::Cursor
    }
}

/// A character that the cursor picture may hold.
pub open spec fn is_cursor_char(c: u8) -> bool {
    c == 0x20 || c == 0x40 || c == 0x2e
}

fn to(c: u8) -> (p: MouseCursorPixel)
    requires
        is_cursor_char(c),
    ensures
        p == pixel_of(c),
{
    if c == 0x20 {
        MouseCursorPixel::BackGround
    } else if c == 0x40 {
        MouseCursorPixel::Frame
    } else {
        MouseCursorPixel::Cursor
    }
}

/// Decodes a row of the cursor picture, one pixel per character.
pub fn decode(strings: &[u8]) -> (row: Vec<MouseCursorPixel>)
    requires
        strings@.len() >= 1,
        forall|i: int| 0 <= i < strings@.len() ==> is_cursor_char(#[trigger] strings@[i]),
    ensures
        row@ == strings@.map_values(|c: u8| pixel_of(c)),
{
    let mut buf: Vec<MouseCursorPixel> = Vec::new();
    let mut idx: usize = 0;
    while idx < strings.len()
        invariant
            idx <= strings@.len(),
            forall|i: int| 0 <= i < strings@.len() ==> is_cursor_char(#[trigger] strings@[i]),
            buf@ == strings@.take(idx as int).map_values(|c: u8| pixel_of(c)),
        decreases strings@.len() - idx,
    {
        buf.push(to(strings[idx]));
        idx = idx + 1;
        assert(buf@ =~= strings@.take(idx as int).map_values(|c: u8| pixel_of(c)));
    }
    assert(strings@.take(idx as int) =~= strings@);
    buf
}

/// The mouse cursor picture: `rows[y][x]` is pixel `(x, y)`; all rows have
/// the same length.
pub struct CursorShape {
    rows: Vec<Vec<MouseCursorPixel>>,
}

impl CursorShape {
    pub closed spec fn spec_rows(&self) -> Seq<Seq<MouseCursorPixel>> {
        self.rows@.map_values(|r: Vec<MouseCursorPixel>| r@)
    }

    #[verifier::type_invariant]
    closed spec fn rectangular(&self) -> bool {
        &&& self.rows@.len() >= 1
        &&& forall|y: int| 0 <= y < self.rows@.len() ==> #[trigger] self.rows@[y]@.len() == self.rows@[0]@.len()
    }

    /// A picture of the given rows (at least one, all of one length).
    pub fn new(rows: Vec<Vec<MouseCursorPixel>>) -> (s: Self)
        requires
            rows@.len() >= 1,
            forall|y: int| 0 <= y < rows@.len() ==> #[trigger] rows@[y]@.len() == rows@[0]@.len(),
        ensures
            s.spec_rows() == rows@.map_values(|r: Vec<MouseCursorPixel>| r@),
    {
        CursorShape { rows }
    }
}

impl Shape for CursorShape {
    closed spec fn spec_width(&self) -> nat {
        self.rows@[0]@.len()
    }

    closed spec fn spec_height(&self) -> nat {
        self.rows@.len()
    }

    closed spec fn spec_pixel(&self, x: int, y: int) -> Color {
        cursor_color(self.rows@[y]@[x])
    }

    fn get_width(&self) -> (w: usize) {
        proof {
            use_type_invariant(self);
        }
        self.rows[0].len()
    }

    fn get_height(&self) -> (h: usize) {
        self.rows.len()
    }

    fn get_pixel(&self, x: usize, y: usize) -> (c: Color) {
        proof {
            use_type_invariant(self);
        }
        Color::from(self.rows[y][x])
    }
}

} // verus!
