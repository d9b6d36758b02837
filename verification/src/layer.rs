use vstd::prelude::*;
use crate::console::{AsciiWriter, Color, PixcelInfo, PixcelWritable, PixcelWritableMut};
use crate::pixel::{pixel_bytes, RenderedPixel};
use crate::types::PixcelFormat;

verus! {

/// A position on the screen, in pixels.
#[derive(Debug, Clone, Copy, PartialEq, Eq, Structural)]
pub struct Position {
    pub x: usize,
    pub y: usize,
}

impl Position {
    pub fn new(x: usize, y: usize) -> (p: Self)
        ensures
            p == (Position { x, y }),
    {
        Self { x, y }
    }
}

/// A coordinate moved by `diff`, clamped at 0 from below.
pub open spec fn moved(v: usize, diff: isize) -> usize {
    let sum = (v as isize) as int + diff as int;
    if sum >= 0 { sum as usize } else { 0 }
}

/// Moving `v` by `diff` does not overflow an `isize`.
pub open spec fn move_ok(v: usize, diff: isize) -> bool {
    isize::MIN <= (v as isize) as int + diff as int <= isize::MAX
}

/// An off-screen picture of `width` by `height` pixels, placed at `position`.
/// `pixels[x][y]` is the colour of pixel `(x, y)`; `buffer` holds the same
/// pixels rendered to frame-buffer bytes, row by row.
pub struct Window {
    transparent_color: Option<Color>,
    rendering_handler: PixcelFormat,
    buffer: Vec<u8>,
    pixels: Vec<Vec<Color>>,
    position: Position,
}

impl Window {
    pub closed spec fn spec_width(&self) -> nat {
        self.pixels@.len()
    }

    pub closed spec fn spec_height(&self) -> nat {
        if self.pixels@.len() > 0 { self.pixels@[0]@.len() } else { 0 }
    }

    /// The colour of pixel `(x, y)`.
    pub closed spec fn spec_pixel(&self, x: int, y: int) -> Color {
        self.pixels@[x]@[y]
    }

    /// The pixels, column by column, and the rendered bytes.
    pub closed spec fn picture(&self) -> (Seq<Seq<Color>>, Seq<u8>) {
        (self.pixels@.map_values(|c: Vec<Color>| c@), self.buffer@)
    }

    /// The same window placed at `p`.
    pub closed spec fn at(self, p: Position) -> Window {
        Window { position: p, ..self }
    }

    /// The rendered bytes.
    pub closed spec fn spec_buffer(&self) -> Seq<u8> {
        self.buffer@
    }

    pub closed spec fn spec_position(&self) -> Position {
        self.position
    }

    pub closed spec fn spec_transparent_color(&self) -> Option<Color> {
        self.transparent_color
    }

    pub closed spec fn spec_rendering_handler(&self) -> PixcelFormat {
        self.rendering_handler
    }

    /// Every column has the same height and the byte buffer holds four bytes
    /// per pixel.
    pub closed spec fn wf(&self) -> bool {
        &&& forall|x: int| 0 <= x < self.pixels@.len() ==> (#[trigger] self.pixels@[x])@.len() == self.spec_height()
        &&& self.spec_width() * self.spec_height() * 4 <= usize::MAX
        &&& self.buffer@.len() == self.spec_width() * self.spec_height() * 4
    }

    /// The byte index of pixel `(x, y)` in the rendered buffer.
    pub open spec fn byte_index(&self, x: int, y: int) -> int {
        (x + y * self.spec_width()) * 4
    }

    /// A window filled with the transparent colour (black when there is none)
    /// and a zeroed byte buffer.
    pub fn new(
        width: usize,
        height: usize,
        rendering_handler: PixcelFormat,
        transparent_color: Option<Color>,
        position: Position,
    ) -> (w: Self)
        requires
            width * height * 4 <= usize::MAX,
        ensures
            w.wf(),
            w.spec_width() == width,
            width > 0 ==> w.spec_height() == height,
            forall|x: int, y: int| 0 <= x < width && 0 <= y < height ==>
                w.spec_pixel(x, y) == match transparent_color {
                    Some(c) => c,
                    None => Color { r: 0, g: 0, b: 0 },
                },
            w.spec_buffer() == Seq::new((width * height * 4) as nat, |i: int| 0u8),
            w.spec_position() == position,
            w.spec_transparent_color() == transparent_color,
            w.spec_rendering_handler() == rendering_handler,
    {
        let fill = match transparent_color {
            Some(c) => c,
            None => Color::black(),
        };
        let mut pixels: Vec<Vec<Color>> = Vec::new();
        let mut i: usize = 0;
        while i < width
            invariant
                i <= width,
                pixels@.len() == i,
                forall|x: int| 0 <= x < i ==> (#[trigger] pixels@[x])@.len() == height,
                forall|x: int, y: int| 0 <= x < i && 0 <= y < height ==> pixels@[x]@[y] == fill,
            decreases width - i,
        {
            let mut column: Vec<Color> = Vec::new();
            let mut j: usize = 0;
            while j < height
                invariant
                    j <= height,
                    column@.len() == j,
                    forall|y: int| 0 <= y < j ==> column@[y] == fill,
                decreases height - j,
            {
                column.push(fill);
                j = j + 1;
            }
            pixels.push(column);
            i = i + 1;
        }
        let n = width * height * 4;
        let mut buffer: Vec<u8> = Vec::new();
        let mut k: usize = 0;
        while k < n
            invariant
                k <= n,
                buffer@.len() == k,
                forall|j: int| 0 <= j < k ==> buffer@[j] == 0u8,
            decreases n - k,
        {
            buffer.push(0);
            k = k + 1;
        }
        let w = Self { rendering_handler, buffer, transparent_color, pixels, position };
        proof {
            if width > 0 {
                assert(w.spec_height() == height);
            } else {
                assert(w.spec_width() * w.spec_height() * 4 == 0);
            }
        }
        assert(w.spec_buffer() =~= Seq::new((width * height * 4) as nat, |i: int| 0u8));
        w
    }

    pub fn move_to(&mut self, new_position: Position)
        ensures
            *final(self) == old(self).at(new_position),
            final(self).spec_position() == new_position,
            final(self).spec_width() == old(self).spec_width(),
            final(self).spec_height() == old(self).spec_height(),
            final(self).picture() == old(self).picture(),
            final(self).wf() == old(self).wf(),
            final(self).spec_transparent_color() == old(self).spec_transparent_color(),
            final(self).spec_rendering_handler() == old(self).spec_rendering_handler(),
    {
        self.position = new_position;
    }

    /// Moves the window by `(x_diff, y_diff)`; a coordinate that would become
    /// negative becomes 0.
    pub fn move_relative(&mut self, x_diff: isize, y_diff: isize)
        requires
            move_ok(old(self).spec_position().x, x_diff),
            move_ok(old(self).spec_position().y, y_diff),
        ensures
            *final(self) == old(self).at(Position {
                x: moved(old(self).spec_position().x, x_diff),
                y: moved(old(self).spec_position().y, y_diff),
            }),
            final(self).spec_position() == (Position {
                x: moved(old(self).spec_position().x, x_diff),
                y: moved(old(self).spec_position().y, y_diff),
            }),
            final(self).picture() == old(self).picture(),
            final(self).wf() == old(self).wf(),
            final(self).spec_transparent_color() == old(self).spec_transparent_color(),
            final(self).spec_rendering_handler() == old(self).spec_rendering_handler(),
    {
        let x = self.position.x as isize + x_diff;
        let y = self.position.y as isize + y_diff;
        self.position.x = if x >= 0 { x as usize } else { 0 };
        self.position.y = if y >= 0 { y as usize } else { 0 };
    }

    pub fn width(&self) -> (r: usize)
        ensures
            r == self.spec_width(),
    {
        self.pixels.len()
    }

    pub fn height(&self) -> (r: usize)
        requires
            self.spec_width() > 0,
        ensures
            r == self.spec_height(),
    {
        self.pixels[0].len()
    }

    pub fn position(&self) -> (r: Position)
        ensures
            r == self.spec_position(),
    {
        self.position
    }

    /// Sets pixel `(x, y)` to `c` and renders it into the byte buffer.
    pub fn write(&mut self, x: usize, y: usize, c: Color)
        requires
            old(self).wf(),
            x < old(self).spec_width(),
            y < old(self).spec_height(),
        ensures
            final(self).wf(),
            final(self).spec_width() == old(self).spec_width(),
            final(self).spec_height() == old(self).spec_height(),
            forall|xx: int, yy: int| 0 <= xx < old(self).spec_width() && 0 <= yy < old(self).spec_height() ==>
                #[trigger] final(self).spec_pixel(xx, yy) == if xx == x && yy == y { c } else { old(self).spec_pixel(xx, yy) },
            final(self).spec_buffer() == old(self).spec_buffer()
                .update(old(self).byte_index(x as int, y as int), pixel_bytes(old(self).spec_rendering_handler(), c)[0])
                .update(old(self).byte_index(x as int, y as int) + 1, pixel_bytes(old(self).spec_rendering_handler(), c)[1])
                .update(old(self).byte_index(x as int, y as int) + 2, pixel_bytes(old(self).spec_rendering_handler(), c)[2])
                .update(old(self).byte_index(x as int, y as int) + 3, pixel_bytes(old(self).spec_rendering_handler(), c)[3]),
            final(self).spec_position() == old(self).spec_position(),
            final(self).spec_transparent_color() == old(self).spec_transparent_color(),
            final(self).spec_rendering_handler() == old(self).spec_rendering_handler(),
    {
        let ghost old_pixels = self.pixels@;
        let ghost h = self.spec_height();
        let mut column: Vec<Color> = Vec::new();
        std::mem::swap(&mut column, &mut self.pixels[x]);
        column.set(y, c);
        self.pixels.set(x, column);
        let width = self.pixels.len();
        proof {
            assert((x + y * width) * 4 + 4 <= width * h * 4) by (nonlinear_arith)
                requires x < width, y < h;
            assert(self.spec_height() == h);
        }
        let index = (x + y * width) * 4;
        let bytes = self.rendering_handler.pixel(c);
        self.buffer.set(index, bytes[0]);
        self.buffer.set(index + 1, bytes[1]);
        self.buffer.set(index + 2, bytes[2]);
        self.buffer.set(index + 3, bytes[3]);
    }

    /// Draws the part of the window that lies on the screen: a window with a
    /// transparent colour is drawn pixel by pixel, row by row, skipping that
    /// colour; an opaque one is copied row by row from its rendered bytes.
    /// Rows are clipped at `writer.horizontal_resolution()` and columns at
    /// `writer.pixcels_per_scan_line()`. The result records the writes made,
    /// in order (see `window_writes`).
    pub fn flush<W: PixcelWritable + PixcelInfo + ?Sized>(&self, writer: &W) -> (drawn: Ghost<Seq<FrameWrite>>)
        requires
            self.wf(),
            self.spec_width() > 0,
            self.spec_position().x + self.spec_width() <= usize::MAX,
            self.spec_position().y + self.spec_height() <= usize::MAX,
        ensures
            drawn@ == window_writes(*self, writer.reported_horizontal_resolution(), writer.reported_pixcels_per_scan_line()),
    {
        let width = self.width();
        let height = self.height();
        let px = self.position.x;
        let py = self.position.y;
        let hres = writer.horizontal_resolution();
        let ppsl = writer.pixcels_per_scan_line();
        let y_end = if py + height < hres { py + height } else { hres };
        let x_end = if px + width < ppsl { px + width } else { ppsl };
        let ghost mut log: Seq<FrameWrite> = Seq::empty();
        match self.transparent_color {
            Some(transparent_color) => {
                let mut y = py;
                while y < y_end
                    invariant
                        self.wf(),
                        width == self.spec_width(),
                        height == self.spec_height(),
                        px == self.spec_position().x,
                        py == self.spec_position().y,
                        py <= y,
                        y <= y_end || y == py,
                        y_end <= py + height,
                        x_end <= px + width,
                        self.spec_transparent_color() == Some(transparent_color),
                        log == pixel_rows_writes(*self, transparent_color, x_end as int, y as int),
                    decreases y_end - y,
                {
                    let mut x = px;
                    while x < x_end
                        invariant
                            self.wf(),
                            width == self.spec_width(),
                            height == self.spec_height(),
                            px == self.spec_position().x,
                            py == self.spec_position().y,
                            py <= y < y_end,
                            px <= x,
                            x <= x_end || x == px,
                            y_end <= py + height,
                            x_end <= px + width,
                            self.spec_transparent_color() == Some(transparent_color),
                            log == pixel_rows_writes(*self, transparent_color, x_end as int, y as int)
                                + pixel_row_writes(*self, transparent_color, y as int, x as int),
                        decreases x_end - x,
                    {
                        let color = self.pixels[x - px][y - py];
                        if color != transparent_color {
                            writer.write(x, y, color);
                            proof {
                                log = log.push(FrameWrite::Pixel { x, y, color });
                            }
                        }
                        proof {
                            assert(self.spec_pixel(x - px, y - py) == color);
                            let rows = pixel_rows_writes(*self, transparent_color, x_end as int, y as int);
                            let r1 = pixel_row_writes(*self, transparent_color, y as int, x + 1);
                            assert(log =~= rows + r1);
                        }
                        x = x + 1;
                    }
                    proof {
                        if x_end < px {
                            assert(pixel_row_writes(*self, transparent_color, y as int, x_end as int) =~= pixel_row_writes(
                                *self, transparent_color, y as int, x as int));
                        }
                    }
                    y = y + 1;
                }
            },
            None => {
                if x_end <= px {
                    return Ghost(log);
                }
                let mut y = py;
                while y < y_end
                    invariant
                        self.wf(),
                        width == self.spec_width(),
                        height == self.spec_height(),
                        px == self.spec_position().x,
                        py == self.spec_position().y,
                        py <= y,
                        y <= y_end || y == py,
                        y_end <= py + height,
                        px < x_end <= px + width,
                        self.spec_transparent_color() is None,
                        log == byte_rows_writes(*self, ppsl, x_end as int, y as int),
                    decreases y_end - y,
                {
                    let offset = match ppsl.checked_mul(y) {
                        Some(row) => match row.checked_add(px) {
                            Some(cell) => cell.checked_mul(4),
                            None => None,
                        },
                        None => None,
                    };
                    let row = y - py;
                    proof {
                        assert((x_end - px + row * width) * 4 <= width * height * 4) by (nonlinear_arith)
                            requires x_end - px <= width, row < height;
                        assert((row * width) * 4 <= (x_end - px + row * width) * 4) by (nonlinear_arith) requires x_end >= px;
                    }
                    match offset {
                        Some(offset) => {
                            let start = (row * width) * 4;
                            let end = (x_end - px + row * width) * 4;
                            let bytes = vstd::slice::slice_subrange(self.buffer.as_slice(), start, end);
                            writer.write_bytes(offset, bytes);
                            proof {
                                log = log.push(FrameWrite::Bytes { offset, start, end });
                            }
                        },
                        None => {},
                    }
                    y = y + 1;
                }
            },
        }
        Ghost(log)
    }
}

/// A write to the frame buffer: one pixel, or the bytes `start..end` of the
/// window's rendered buffer copied to byte `offset` of the frame buffer.
#[derive(Clone, Copy, Debug, PartialEq, Eq, Structural)]
pub enum FrameWrite {
    Pixel { x: usize, y: usize, color: Color },
    Bytes { offset: usize, start: usize, end: usize },
}

/// The pixel writes of row `y` of a window with transparent colour `tc`, for
/// the columns from the window's left edge up to `x`: every pixel but the
/// transparent ones, left to right.
pub open spec fn pixel_row_writes(w: Window, tc: Color, y: int, x: int) -> Seq<FrameWrite>
    decreases x - w.spec_position().x,
{
    let px = w.spec_position().x as int;
    let py = w.spec_position().y as int;
    if x <= px {
        Seq::empty()
    } else {
        let prev = pixel_row_writes(w, tc, y, x - 1);
        let c = w.spec_pixel(x - 1 - px, y - py);
        if c == tc {
            prev
        } else {
            prev.push(FrameWrite::Pixel { x: (x - 1) as usize, y: y as usize, color: c })
        }
    }
}

/// The pixel writes of the rows from the window's top edge up to `y`, each up
/// to column `x_end`.
pub open spec fn pixel_rows_writes(w: Window, tc: Color, x_end: int, y: int) -> Seq<FrameWrite>
    decreases y - w.spec_position().y,
{
    if y <= w.spec_position().y {
        Seq::empty()
    } else {
        pixel_rows_writes(w, tc, x_end, y - 1) + pixel_row_writes(w, tc, y - 1, x_end)
    }
}

/// The copy of row `y` of an opaque window up to column `x_end`: to byte
/// `(ppsl * y + x) * 4` of the frame buffer, when that offset fits in a
/// `usize`.
pub open spec fn byte_row_write(w: Window, ppsl: usize, x_end: int, y: int) -> Seq<FrameWrite> {
    let px = w.spec_position().x as int;
    let row = y - w.spec_position().y;
    let offset = (ppsl * y + px) * 4;
    if offset <= usize::MAX {
        seq![FrameWrite::Bytes {
            offset: offset as usize,
            start: (row * w.spec_width() * 4) as usize,
            end: ((x_end - px + row * w.spec_width()) * 4) as usize,
        }]
    } else {
        Seq::empty()
    }
}

/// The row copies of an opaque window from its top edge up to row `y`.
pub open spec fn byte_rows_writes(w: Window, ppsl: usize, x_end: int, y: int) -> Seq<FrameWrite>
    decreases y - w.spec_position().y,
{
    if y <= w.spec_position().y {
        Seq::empty()
    } else {
        byte_rows_writes(w, ppsl, x_end, y - 1) + byte_row_write(w, ppsl, x_end, y - 1)
    }
}

/// The writes that flushing `w` makes on a screen reporting horizontal
/// resolution `hres` and `ppsl` pixels per scan line: rows up to
/// `min(y + height, hres)` and columns up to `min(x + width, ppsl)`.
pub open spec fn window_writes(w: Window, hres: usize, ppsl: usize) -> Seq<FrameWrite> {
    let px = w.spec_position().x as int;
    let py = w.spec_position().y as int;
    let x_end = if px + w.spec_width() < ppsl { px + w.spec_width() } else { ppsl as int };
    let y_end = if py + w.spec_height() < hres { py + w.spec_height() } else { hres as int };
    match w.spec_transparent_color() {
        Some(tc) => pixel_rows_writes(w, tc, x_end, y_end),
        None => if x_end <= px {
            Seq::empty()
        } else {
            byte_rows_writes(w, ppsl, x_end, y_end)
        },
    }
}

} // verus!

verus! {

/// The name of a layer.
#[derive(Debug, Clone, Copy, PartialEq, Eq, PartialOrd, Ord, Structural)]
pub struct LayerId(usize);

impl LayerId {
    pub closed spec fn spec_value(&self) -> usize {
        self.0
    }

    /// The id that no layer ever gets.
    pub fn uninitialized() -> (r: Self)
        ensures
            r.spec_value() == usize::MAX,
    {
        Self(usize::MAX)
    }
}

/// A window together with its name.
pub struct Layer {
    id: LayerId,
    window: Window,
}

impl Layer {
    pub closed spec fn spec_id(&self) -> LayerId {
        self.id
    }

    pub closed spec fn spec_window(&self) -> &Window {
        &self.window
    }

    /// A layer named `id` showing `window`; `id` is a fresh number handed out
    /// by the caller, below `LayerId::uninitialized()`.
    pub fn new(id: LayerId, window: Window) -> (l: Self)
        requires
            id.spec_value() < usize::MAX,
        ensures
            l.spec_id() == id,
            *l.spec_window() == window,
    {
        Self { id, window }
    }

    pub fn window(&self) -> (w: &Window)
        ensures
            *w == *self.spec_window(),
    {
        &self.window
    }

    pub fn id(&self) -> (id: LayerId)
        ensures
            id == self.spec_id(),
    {
        self.id
    }
}

impl PixcelWritableMut for Layer {
    open spec fn writable(&self, x: usize, y: usize) -> bool {
        &&& self.spec_window().wf()
        &&& x < self.spec_window().spec_width()
        &&& y < self.spec_window().spec_height()
    }

    open spec fn spec_pixel(&self, x: usize, y: usize) -> Color {
        self.spec_window().spec_pixel(x as int, y as int)
    }

    /// Draws into the layer's window.
    fn write(&mut self, x: usize, y: usize, color: Color)
        ensures
            final(self).spec_id() == old(self).spec_id(),
            final(self).spec_window().wf(),
            final(self).spec_window().spec_width() == old(self).spec_window().spec_width(),
            final(self).spec_window().spec_height() == old(self).spec_window().spec_height(),
            forall|xx: int, yy: int| 0 <= xx < old(self).spec_window().spec_width()
                && 0 <= yy < old(self).spec_window().spec_height() ==>
                #[trigger] final(self).spec_window().spec_pixel(xx, yy)
                    == if xx == x && yy == y { color } else { old(self).spec_window().spec_pixel(xx, yy) },
            final(self).spec_window().spec_position() == old(self).spec_window().spec_position(),
            final(self).spec_window().spec_transparent_color() == old(self).spec_window().spec_transparent_color(),
            final(self).spec_window().spec_rendering_handler() == old(self).spec_window().spec_rendering_handler(),
    {
        self.window.write(x, y, color);
    }
}

/// The first position of `id` in `s`, or `s.len()` when it does not occur.
pub open spec fn first_index(s: Seq<LayerId>, id: LayerId) -> int
    decreases s.len(),
{
    if s.len() == 0 {
        0
    } else if s[0] == id {
        0
    } else {
        1 + first_index(s.drop_first(), id)
    }
}

/// `s` with the first occurrence of `id` taken out.
pub open spec fn without(s: Seq<LayerId>, id: LayerId) -> Seq<LayerId> {
    let i = first_index(s, id);
    if i < s.len() { s.remove(i) } else { s }
}

/// The ids of the layers, in storage order.
pub open spec fn ids_of(layers: Seq<Layer>) -> Seq<LayerId> {
    layers.map_values(|l: Layer| l.spec_id())
}

/// The layers of a screen and the order they are drawn in: `layer_stack[0]`
/// is drawn first, the last entry ends up on top.
pub struct LayerManager<'a, W: AsciiWriter + ?Sized> {
    writer: &'a W,
    layer_stack: Vec<LayerId>,
    layers: Vec<Layer>,
    next_id: usize,
}

impl<'a, W: AsciiWriter + ?Sized> LayerManager<'a, W> {
    /// The drawing order.
    pub closed spec fn spec_stack(&self) -> Seq<LayerId> {
        self.layer_stack@
    }

    /// Every layer.
    pub closed spec fn spec_layers(&self) -> Seq<Layer> {
        self.layers@
    }

    /// The id the next new layer gets.
    pub closed spec fn spec_next_id(&self) -> usize {
        self.next_id
    }

    pub closed spec fn spec_writer(&self) -> &'a W {
        self.writer
    }

    /// An id this manager handed out, or the one no layer ever gets.
    pub open spec fn known_id(&self, id: LayerId) -> bool {
        id.spec_value() < self.spec_next_id() || id.spec_value() == usize::MAX
    }

    /// No id is drawn twice, no two layers share an id, and every id in use
    /// was handed out already.
    pub open spec fn wf(&self) -> bool {
        &&& self.spec_stack().no_duplicates()
        &&& forall|i: int| 0 <= i < self.spec_stack().len() ==> self.known_id(#[trigger] self.spec_stack()[i])
        &&& ids_of(self.spec_layers()).no_duplicates()
        &&& forall|i: int| 0 <= i < self.spec_layers().len() ==>
            (#[trigger] self.spec_layers()[i]).spec_id().spec_value() < self.spec_next_id()
    }

    /// No layers yet.
    pub fn new(writer: &'a W) -> (m: Self)
        ensures
            m.wf(),
            m.spec_stack() == Seq::<LayerId>::empty(),
            m.spec_layers() == Seq::<Layer>::empty(),
            m.spec_next_id() == 0,
            m.spec_writer() == writer,
    {
        Self { writer, layer_stack: Vec::new(), layers: Vec::new(), next_id: 0 }
    }

    /// Adds `window` as a new layer, drawn first (below every other layer),
    /// and returns its id.
    pub fn new_layer(&mut self, window: Window) -> (id: LayerId)
        requires
            old(self).wf(),
            old(self).spec_next_id() < usize::MAX,
        ensures
            final(self).wf(),
            id.spec_value() == old(self).spec_next_id(),
            !old(self).spec_stack().contains(id),
            !ids_of(old(self).spec_layers()).contains(id),
            final(self).spec_stack() == seq![id] + old(self).spec_stack(),
            final(self).spec_layers() == old(self).spec_layers().push(Layer::new_spec(id, window)),
            final(self).spec_next_id() == old(self).spec_next_id() + 1,
            final(self).spec_writer() == old(self).spec_writer(),
    {
        let id = LayerId(self.next_id);
        self.next_id = self.next_id + 1;
        let layer = Layer::new(id, window);
        proof {
            assert(!ids_of(old(self).spec_layers()).contains(id)) by {
                if ids_of(old(self).spec_layers()).contains(id) {
                    let i = choose|i: int| 0 <= i < ids_of(old(self).spec_layers()).len()
                        && ids_of(old(self).spec_layers())[i] == id;
                    assert(old(self).spec_layers()[i].spec_id().spec_value() < old(self).spec_next_id());
                }
            }
        }
        proof {
            assert(!old(self).spec_stack().contains(id));
            assert(seq![id] + old(self).spec_stack() =~= old(self).spec_stack().insert(0, id));
            assert(ids_of(old(self).spec_layers().push(layer)) =~= ids_of(old(self).spec_layers()).push(id));
        }
        self.layer_stack.insert(0, id);
        self.layers.push(layer);
        id
    }

    /// Where `id` is first drawn, or the length of the stack.
    fn stack_position(&self, id: LayerId) -> (i: usize)
        ensures
            i == first_index(self.spec_stack(), id),
    {
        let mut i: usize = 0;
        while i < self.layer_stack.len()
            invariant
                i <= self.layer_stack.len(),
                forall|j: int| 0 <= j < i ==> self.spec_stack()[j] != id,
            decreases self.layer_stack.len() - i,
        {
            if self.layer_stack[i] == id {
                proof {
                    lemma_first_index(self.spec_stack(), id, i as int);
                }
                return i;
            }
            i = i + 1;
        }
        proof {
            lemma_first_index(self.spec_stack(), id, i as int);
        }
        i
    }

    /// Where the layer named `id` is stored, or the number of layers.
    fn layer_position(&self, id: LayerId) -> (i: usize)
        ensures
            i == first_index(ids_of(self.spec_layers()), id),
    {
        let ghost ids = ids_of(self.spec_layers());
        let mut i: usize = 0;
        while i < self.layers.len()
            invariant
                i <= self.layers.len(),
                ids == ids_of(self.spec_layers()),
                forall|j: int| 0 <= j < i ==> ids[j] != id,
            decreases self.layers.len() - i,
        {
            if self.layers[i].id == id {
                proof {
                    lemma_first_index(ids, id, i as int);
                }
                return i;
            }
            i = i + 1;
        }
        proof {
            lemma_first_index(ids, id, i as int);
        }
        i
    }

    /// Stops drawing `id` (its first entry in the drawing order goes away).
    pub fn hide_layer(&mut self, id: LayerId)
        ensures
            final(self).spec_stack() == without(old(self).spec_stack(), id),
            final(self).spec_layers() == old(self).spec_layers(),
            final(self).spec_next_id() == old(self).spec_next_id(),
            final(self).spec_writer() == old(self).spec_writer(),
            old(self).wf() ==> final(self).wf(),
    {
        let index = self.stack_position(id);
        if index >= self.layer_stack.len() {
            return;
        }
        self.layer_stack.remove(index);
        proof {
            if old(self).wf() {
                lemma_without(old(self).spec_stack(), id);
                assert forall|i: int| 0 <= i < self.spec_stack().len() implies self.known_id(#[trigger] self.spec_stack()[i]) by {
                    let x = self.spec_stack()[i];
                    assert(without(old(self).spec_stack(), id).contains(x));
                    let k = choose|k: int| 0 <= k < old(self).spec_stack().len() && old(self).spec_stack()[k] == x;
                }
            }
        }
    }

    /// Draws `id` last, on top of every other layer.
    pub fn set_to_top(&mut self, id: LayerId)
        ensures
            final(self).spec_stack() == without(old(self).spec_stack(), id).push(id),
            final(self).spec_layers() == old(self).spec_layers(),
            final(self).spec_next_id() == old(self).spec_next_id(),
            final(self).spec_writer() == old(self).spec_writer(),
            old(self).wf() && old(self).known_id(id) ==> final(self).wf(),
    {
        self.hide_layer(id);
        self.layer_stack.push(id);
        proof {
            if old(self).wf() && old(self).known_id(id) {
                lemma_without(old(self).spec_stack(), id);
                let t = without(old(self).spec_stack(), id);
                assert forall|a: int, b: int| 0 <= a < b < t.push(id).len() implies t.push(id)[a] != t.push(id)[b] by {
                    if b == t.len() {
                        assert(t.contains(t[a]));
                    }
                }
                assert forall|i: int| 0 <= i < self.spec_stack().len() implies self.known_id(#[trigger] self.spec_stack()[i]) by {
                    if i < t.len() {
                        assert(t[i] == self.spec_stack()[i]);
                    }
                }
            }
        }
    }

    /// Places the layer named `id` at `new_position`; nothing happens when
    /// there is no such layer.
    pub fn move_layer(&mut self, id: LayerId, new_position: Position)
        ensures
            ({
                let i = first_index(ids_of(old(self).spec_layers()), id);
                final(self).spec_layers() == if i < old(self).spec_layers().len() {
                    old(self).spec_layers().update(i, old(self).spec_layers()[i].at(new_position))
                } else {
                    old(self).spec_layers()
                }
            }),
            final(self).spec_stack() == old(self).spec_stack(),
            final(self).spec_next_id() == old(self).spec_next_id(),
            final(self).spec_writer() == old(self).spec_writer(),
            old(self).wf() ==> final(self).wf(),
    {
        let i = self.layer_position(id);
        if i >= self.layers.len() {
            return;
        }
        let layer = &mut self.layers[i];
        layer.window.move_to(new_position);
        proof {
            let ids = ids_of(old(self).spec_layers());
            assert(ids_of(self.spec_layers()) =~= ids);
        }
    }

    /// Moves the layer named `id` by `(x_diff, y_diff)`, clamping at 0;
    /// nothing happens when there is no such layer.
    pub fn move_relative(&mut self, id: LayerId, x_diff: isize, y_diff: isize)
        requires
            ({
                let i = first_index(ids_of(old(self).spec_layers()), id);
                i < old(self).spec_layers().len() ==> {
                    &&& move_ok(old(self).spec_layers()[i].spec_window().spec_position().x, x_diff)
                    &&& move_ok(old(self).spec_layers()[i].spec_window().spec_position().y, y_diff)
                }
            }),
        ensures
            ({
                let i = first_index(ids_of(old(self).spec_layers()), id);
                final(self).spec_layers() == if i < old(self).spec_layers().len() {
                    let p = old(self).spec_layers()[i].spec_window().spec_position();
                    old(self).spec_layers().update(i, old(self).spec_layers()[i].at(Position {
                        x: moved(p.x, x_diff),
                        y: moved(p.y, y_diff),
                    }))
                } else {
                    old(self).spec_layers()
                }
            }),
            final(self).spec_stack() == old(self).spec_stack(),
            final(self).spec_next_id() == old(self).spec_next_id(),
            final(self).spec_writer() == old(self).spec_writer(),
            old(self).wf() ==> final(self).wf(),
    {
        let i = self.layer_position(id);
        if i >= self.layers.len() {
            return;
        }
        let layer = &mut self.layers[i];
        layer.window.move_relative(x_diff, y_diff);
        proof {
            let ids = ids_of(old(self).spec_layers());
            assert(ids_of(self.spec_layers()) =~= ids);
        }
    }

    /// The layer named `id`, if there is one.
    pub fn layer(&self, id: LayerId) -> (r: Option<&Layer>)
        ensures
            ({
                let i = first_index(ids_of(self.spec_layers()), id);
                match r {
                    Some(l) => i < self.spec_layers().len() && *l == self.spec_layers()[i],
                    None => i == self.spec_layers().len(),
                }
            }),
            r is None <==> !ids_of(self.spec_layers()).contains(id),
    {
        let i = self.layer_position(id);
        proof {
            lemma_first_index_bounds(ids_of(self.spec_layers()), id);
            if ids_of(self.spec_layers()).contains(id) {
                let k = choose|k: int| 0 <= k < ids_of(self.spec_layers()).len() && ids_of(self.spec_layers())[k] == id;
            }
        }
        if i >= self.layers.len() {
            None
        } else {
            Some(&self.layers[i])
        }
    }

    /// The layer named `id`, for drawing into, if there is one.
    pub fn layer_mut(&mut self, id: LayerId) -> (r: Option<&mut Layer>)
        ensures
            ({
                let i = first_index(ids_of(old(self).spec_layers()), id);
                match r {
                    Some(l) => {
                        &&& i < old(self).spec_layers().len()
                        &&& *l == old(self).spec_layers()[i]
                        &&& final(self).spec_layers() == old(self).spec_layers().update(i, *final(l))
                    },
                    None => i == old(self).spec_layers().len() && final(self).spec_layers() == old(self).spec_layers(),
                }
            }),
            final(self).spec_stack() == old(self).spec_stack(),
            final(self).spec_next_id() == old(self).spec_next_id(),
            final(self).spec_writer() == old(self).spec_writer(),
    {
        let i = self.layer_position(id);
        proof {
            lemma_first_index_bounds(ids_of(self.spec_layers()), id);
        }
        if i >= self.layers.len() {
            None
        } else {
            Some(&mut self.layers[i])
        }
    }

    /// The screen can be redrawn: every drawn id names a layer whose window
    /// is not empty and whose far corner has a `usize` address.
    pub open spec fn flushable(&self) -> bool {
        forall|k: int| 0 <= k < self.spec_stack().len() ==> {
            let i = #[trigger] first_index(ids_of(self.spec_layers()), self.spec_stack()[k]);
            &&& i < self.spec_layers().len()
            &&& self.spec_layers()[i].spec_window().wf()
            &&& self.spec_layers()[i].spec_window().spec_width() > 0
            &&& self.spec_layers()[i].spec_window().spec_position().x + self.spec_layers()[i].spec_window().spec_width() <= usize::MAX
            &&& self.spec_layers()[i].spec_window().spec_position().y + self.spec_layers()[i].spec_window().spec_height() <= usize::MAX
        }
    }

    /// Draws the layers in stack order, bottom first, each as
    /// `Window::flush` draws it. The result records the writes made, in
    /// order, each with the layer it belongs to (see `stack_writes`).
    pub fn flush(&self) -> (drawn: Ghost<Seq<(LayerId, FrameWrite)>>)
        requires
            self.flushable(),
        ensures
            drawn@ == stack_writes(self.spec_layers(), self.spec_stack(), self.spec_writer().reported_horizontal_resolution(),
                self.spec_writer().reported_pixcels_per_scan_line()),
    {
        let ghost hres = self.writer.reported_horizontal_resolution();
        let ghost ppsl = self.writer.reported_pixcels_per_scan_line();
        let ghost mut log: Seq<(LayerId, FrameWrite)> = Seq::empty();
        let mut k: usize = 0;
        while k < self.layer_stack.len()
            invariant
                self.flushable(),
                k <= self.layer_stack.len(),
                hres == self.spec_writer().reported_horizontal_resolution(),
                ppsl == self.spec_writer().reported_pixcels_per_scan_line(),
                log == stack_writes(self.spec_layers(), self.spec_stack().take(k as int), hres, ppsl),
            decreases self.layer_stack.len() - k,
        {
            let id = self.layer_stack[k];
            let i = self.layer_position(id);
            let drawn = self.layers[i].window.flush(self.writer);
            proof {
                let stack = self.spec_stack();
                assert(stack.take(k + 1).drop_last() =~= stack.take(k as int));
                assert(stack.take(k + 1).last() == id);
                log = log + tagged_writes(id, drawn@);
            }
            k = k + 1;
        }
        proof {
            assert(self.spec_stack().take(self.layer_stack.len() as int) =~= self.spec_stack());
        }
        Ghost(log)
    }
}

/// `writes`, each with the layer `id` it belongs to.
pub open spec fn tagged_writes(id: LayerId, writes: Seq<FrameWrite>) -> Seq<(LayerId, FrameWrite)> {
    writes.map_values(|w: FrameWrite| (id, w))
}

/// The writes that drawing the layers named in `stack`, in that order, makes
/// on a screen reporting `hres` and `ppsl` (see `window_writes`).
pub open spec fn stack_writes(layers: Seq<Layer>, stack: Seq<LayerId>, hres: usize, ppsl: usize) -> Seq<(LayerId, FrameWrite)>
    decreases stack.len(),
{
    if stack.len() == 0 {
        Seq::empty()
    } else {
        let id = stack.last();
        let i = first_index(ids_of(layers), id);
        stack_writes(layers, stack.drop_last(), hres, ppsl) + tagged_writes(id, window_writes(*layers[i].spec_window(), hres, ppsl))
    }
}

impl Layer {
    /// The layer that `Layer::new` builds.
    pub closed spec fn new_spec(id: LayerId, window: Window) -> Layer {
        Layer { id, window }
    }

    /// The same layer with its window placed at `p`.
    pub closed spec fn at(self, p: Position) -> Layer {
        Layer { id: self.id, window: self.window.at(p) }
    }
}

/// The first position of `id` in `s` is `i` when `i` is the first index that
/// holds `id`, and `s.len()` when none does.
pub proof fn lemma_first_index(s: Seq<LayerId>, id: LayerId, i: int)
    requires
        0 <= i <= s.len(),
        forall|j: int| 0 <= j < i ==> s[j] != id,
        i < s.len() ==> s[i] == id,
    ensures
        first_index(s, id) == i,
    decreases s.len(),
{
    if s.len() > 0 && i > 0 {
        lemma_first_index(s.drop_first(), id, i - 1);
    }
}

/// Taking the first occurrence of `id` out of a sequence without duplicates
/// leaves no occurrence of `id`, keeps every other element in order and keeps
/// the sequence free of duplicates.
pub proof fn lemma_without(s: Seq<LayerId>, id: LayerId)
    requires
        s.no_duplicates(),
    ensures
        !without(s, id).contains(id),
        without(s, id).no_duplicates(),
        forall|x: LayerId| x != id ==> (without(s, id).contains(x) <==> s.contains(x)),
{
    let i = first_index(s, id);
    lemma_first_index_bounds(s, id);
    if i < s.len() {
        let t = s.remove(i);
        assert forall|a: int, b: int| 0 <= a < b < t.len() implies t[a] != t[b] by {
            let a2 = if a < i { a } else { a + 1 };
            let b2 = if b < i { b } else { b + 1 };
            assert(t[a] == s[a2] && t[b] == s[b2]);
        }
        assert forall|x: LayerId| t.contains(x) implies x != id by {
            let k = choose|k: int| 0 <= k < t.len() && t[k] == x;
            let k2 = if k < i { k } else { k + 1 };
            assert(t[k] == s[k2]);
            assert(s[i] == id);
        }
        assert forall|x: LayerId| x != id && s.contains(x) implies t.contains(x) by {
            let k = choose|k: int| 0 <= k < s.len() && s[k] == x;
            if k < i {
                assert(t[k] == x);
            } else {
                assert(k != i);
                assert(t[k - 1] == x);
            }
        }
        assert forall|x: LayerId| t.contains(x) implies s.contains(x) by {
            let k = choose|k: int| 0 <= k < t.len() && t[k] == x;
            let k2 = if k < i { k } else { k + 1 };
            assert(s[k2] == x);
        }
    } else {
        assert forall|k: int| 0 <= k < s.len() implies s[k] != id by {
            lemma_first_index_absent(s, id, k);
        }
    }
}

/// `first_index` stays within the sequence and points at `id` when it is
/// inside.
pub proof fn lemma_first_index_bounds(s: Seq<LayerId>, id: LayerId)
    ensures
        0 <= first_index(s, id) <= s.len(),
        first_index(s, id) < s.len() ==> s[first_index(s, id)] == id,
        forall|j: int| 0 <= j < first_index(s, id) ==> s[j] != id,
    decreases s.len(),
{
    if s.len() > 0 && s[0] != id {
        lemma_first_index_bounds(s.drop_first(), id);
        assert forall|j: int| 0 <= j < first_index(s, id) implies s[j] != id by {
            if j > 0 {
                assert(s[j] == s.drop_first()[j - 1]);
            }
        }
    }
}

/// When `first_index` is the length, `id` does not occur.
pub proof fn lemma_first_index_absent(s: Seq<LayerId>, id: LayerId, k: int)
    requires
        first_index(s, id) == s.len(),
        0 <= k < s.len(),
    ensures
        s[k] != id,
{
    lemma_first_index_bounds(s, id);
}

} // verus!
