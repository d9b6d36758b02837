//! Points and sizes on the screen, and drawing rectangles, boards and shapes
//! on anything that can be drawn on.
use vstd::prelude::*;
use crate::console::{Color, PixcelWritable, PixcelWritableMut};
use crate::shapes::Shape;
use vstd::arithmetic::div_mod::{lemma_fundamental_div_mod, lemma_fundamental_div_mod_converse, lemma_mod_pos_bound};
use vstd::arithmetic::mul::{lemma_mul_inequality, lemma_mul_is_commutative};

verus! {

/// A point or a size on the screen, in pixels.
#[derive(Debug, Clone, Copy, PartialEq, Eq, Structural)]
pub struct Vector2D {
    pub x: usize,
    pub y: usize,
}

impl Vector2D {
    pub fn new(x: usize, y: usize) -> (v: Self)
        ensures
            v == (Vector2D { x, y }),
    {
        Self { x, y }
    }

    /// Component-wise sum.
    pub fn add(self, rhs: Self) -> (v: Self)
        requires
            self.x + rhs.x <= usize::MAX,
            self.y + rhs.y <= usize::MAX,
        ensures
            v == (Vector2D { x: (self.x + rhs.x) as usize, y: (self.y + rhs.y) as usize }),
    {
        Self::new(self.x + rhs.x, self.y + rhs.y)
    }
}

/// Pixel `(x, y)` lies in the `size` rectangle at `pos`.
pub open spec fn in_rect(pos: Vector2D, size: Vector2D, x: int, y: int) -> bool {
    pos.x <= x < pos.x + size.x && pos.y <= y < pos.y + size.y
}

/// Pixel `(x, y)` lies on the outline of the `size` rectangle at `pos`: its
/// top and bottom rows and its left and right columns.
pub open spec fn on_outline(pos: Vector2D, size: Vector2D, x: int, y: int) -> bool {
    ||| pos.x <= x < pos.x + size.x && (y == pos.y || y == pos.y + size.y - 1)
    ||| pos.y <= y < pos.y + size.y && (x == pos.x || x == pos.x + size.x - 1)
}

/// Drawing that only changes the pixels that `changed` names, to `new`, on
/// `before`, giving `after`.
pub open spec fn drawn<W: PixcelWritableMut>(
    before: W,
    after: W,
    changed: spec_fn(int, int) -> bool,
    new: spec_fn(int, int) -> Color,
) -> bool {
    &&& forall|x: usize, y: usize| #[trigger] after.writable(x, y) == before.writable(x, y)
    &&& forall|x: usize, y: usize|
        before.writable(x, y) ==> #[trigger] after.spec_pixel(x, y) == if changed(x as int, y as int) {
            new(x as int, y as int)
        } else {
            before.spec_pixel(x, y)
        }
}

/// The colour of offset `(ox, oy)` in a board cell of `size` pixels: white
/// on the cell's outline, `color` inside a live cell, black inside a dead one.
pub open spec fn cell_pixel(alive: bool, ox: int, oy: int, size: int, color: Color) -> Color {
    if ox == 0 || oy == 0 || ox == size - 1 || oy == size - 1 {
        Color { r: 255, g: 255, b: 255 }
    } else if alive {
        color
    } else {
        Color { r: 0, g: 0, b: 0 }
    }
}

/// Pixel `(x, y)` lies on the `len` by `len` board of `size`-pixel cells at
/// `pos`.
pub open spec fn in_board(pos: Vector2D, len: int, size: int, x: int, y: int) -> bool {
    pos.x <= x < pos.x + len * size && pos.y <= y < pos.y + len * size
}

/// The rows of a board.
pub open spec fn board_rows(board: Seq<Vec<bool>>) -> Seq<Seq<bool>> {
    board.map_values(|r: Vec<bool>| r@)
}

/// The colour that the board gives pixel `(x, y)`: row `(y - pos.y) / size`
/// and column `(x - pos.x) / size` hold its cell, the remainders are its
/// offset in the cell.
pub open spec fn board_pixel(
    board: Seq<Seq<bool>>,
    pos: Vector2D,
    size: int,
    color: Color,
    x: int,
    y: int,
) -> Color {
    cell_pixel(
        board[(y - pos.y) / size][(x - pos.x) / size],
        (x - pos.x) % size,
        (y - pos.y) % size,
        size,
        color,
    )
}

/// Where a coordinate falls among cells of `size` pixels.
proof fn lemma_cell(d: int, size: int, q: int, n: int)
    requires
        size >= 1,
        0 <= q < n,
    ensures
        0 <= q * size,
        q * size + size <= n * size,
        (q * size <= d < q * size + size) ==> d / size == q && d % size == d - q * size,
        (0 <= d && d / size == q) ==> q * size <= d < q * size + size,
        (0 <= d < n * size) ==> d / size < n,
{
    assert(q * size + size <= n * size) by (nonlinear_arith)
        requires
            size >= 1,
            0 <= q < n,
    ;
    assert(0 <= q * size) by (nonlinear_arith)
        requires
            size >= 1,
            0 <= q,
    ;
    if q * size <= d < q * size + size {
        lemma_fundamental_div_mod_converse(d, size, q, d - q * size);
    }
    if 0 <= d {
        lemma_fundamental_div_mod(d, size);
        lemma_mod_pos_bound(d, size);
        lemma_mul_is_commutative(size, d / size);
        if d < n * size {
            let k = d / size;
            assert(k < n) by (nonlinear_arith)
                requires
                    d == k * size + d % size,
                    0 <= d % size < size,
                    d < n * size,
                    size >= 1,
            ;
        }
    }
}

/// Fills the `size` rectangle at `pos` with `color`.
fn fill_rect_in<W: PixcelWritableMut>(w: &mut W, pos: Vector2D, size: Vector2D, color: Color)
    requires
        pos.x + size.x <= usize::MAX,
        pos.y + size.y <= usize::MAX,
        forall|x: usize, y: usize| in_rect(pos, size, x as int, y as int) ==> #[trigger] old(w).writable(x, y),
    ensures
        drawn(*old(w), *final(w), |x: int, y: int| in_rect(pos, size, x, y), |x: int, y: int| color),
{
    let ghost start = *w;
    let mut y = pos.y;
    while y < pos.y + size.y
        invariant
            pos.y <= y <= pos.y + size.y,
            pos.x + size.x <= usize::MAX,
            pos.y + size.y <= usize::MAX,
            forall|x: usize, y: usize| in_rect(pos, size, x as int, y as int) ==> #[trigger] start.writable(x, y),
            drawn(start, *w, |xx: int, yy: int| in_rect(pos, size, xx, yy) && yy < y, |xx: int, yy: int| color),
        decreases pos.y + size.y - y,
    {
        let mut x = pos.x;
        while x < pos.x + size.x
            invariant
                pos.y <= y < pos.y + size.y,
                pos.x <= x <= pos.x + size.x,
                pos.x + size.x <= usize::MAX,
                pos.y + size.y <= usize::MAX,
                forall|x: usize, y: usize| in_rect(pos, size, x as int, y as int) ==> #[trigger] start.writable(x, y),
                drawn(
                    start,
                    *w,
                    |xx: int, yy: int| in_rect(pos, size, xx, yy) && (yy < y || (yy == y && xx < x)),
                    |xx: int, yy: int| color,
                ),
            decreases pos.x + size.x - x,
        {
            assert(start.writable(x, y));
            w.write(x, y, color);
            x = x + 1;
        }
        y = y + 1;
    }
}

/// Draws the outline of the `size` rectangle at `pos` in `color`.
fn draw_rect_outline_in<W: PixcelWritableMut>(w: &mut W, pos: Vector2D, size: Vector2D, color: Color)
    requires
        pos.x + size.x <= usize::MAX,
        pos.y + size.y <= usize::MAX,
        size.x > 0 ==> pos.y + size.y >= 1,
        size.y > 0 ==> pos.x + size.x >= 1,
        forall|x: usize, y: usize| on_outline(pos, size, x as int, y as int) ==> #[trigger] old(w).writable(x, y),
    ensures
        drawn(*old(w), *final(w), |x: int, y: int| on_outline(pos, size, x, y), |x: int, y: int| color),
{
    let ghost start = *w;
    let mut x = pos.x;
    while x < pos.x + size.x
        invariant
            pos.x <= x <= pos.x + size.x,
            pos.x + size.x <= usize::MAX,
            pos.y + size.y <= usize::MAX,
            size.x > 0 ==> pos.y + size.y >= 1,
            forall|x: usize, y: usize| on_outline(pos, size, x as int, y as int) ==> #[trigger] start.writable(x, y),
            drawn(
                start,
                *w,
                |xx: int, yy: int| pos.x <= xx < x && (yy == pos.y || yy == pos.y + size.y - 1),
                |xx: int, yy: int| color,
            ),
        decreases pos.x + size.x - x,
    {
        assert(start.writable(x, pos.y));
        w.write(x, pos.y, color);
        let bottom = pos.y + size.y - 1;
        assert(start.writable(x, bottom));
        w.write(x, bottom, color);
        x = x + 1;
    }
    let mut y = pos.y;
    while y < pos.y + size.y
        invariant
            pos.y <= y <= pos.y + size.y,
            pos.x + size.x <= usize::MAX,
            pos.y + size.y <= usize::MAX,
            size.y > 0 ==> pos.x + size.x >= 1,
            forall|x: usize, y: usize| on_outline(pos, size, x as int, y as int) ==> #[trigger] start.writable(x, y),
            drawn(
                start,
                *w,
                |xx: int, yy: int|
                    (pos.x <= xx < pos.x + size.x && (yy == pos.y || yy == pos.y + size.y - 1))
                        || (pos.y <= yy < y && (xx == pos.x || xx == pos.x + size.x - 1)),
                |xx: int, yy: int| color,
            ),
        decreases pos.y + size.y - y,
    {
        assert(start.writable(pos.x, y));
        w.write(pos.x, y, color);
        let right = pos.x + size.x - 1;
        assert(start.writable(right, y));
        w.write(right, y, color);
        y = y + 1;
    }
}

/// Draws one board cell of `size` pixels at `block`.
fn draw_cell<W: PixcelWritableMut>(w: &mut W, block: Vector2D, size: usize, alive: bool, color: Color)
    requires
        size >= 1,
        block.x + size <= usize::MAX,
        block.y + size <= usize::MAX,
        forall|x: usize, y: usize|
            in_rect(block, Vector2D { x: size, y: size }, x as int, y as int) ==> #[trigger] old(w).writable(x, y),
    ensures
        drawn(
            *old(w),
            *final(w),
            |x: int, y: int| in_rect(block, Vector2D { x: size, y: size }, x, y),
            |x: int, y: int| cell_pixel(alive, x - block.x, y - block.y, size as int, color),
        ),
{
    let ghost start = *w;
    let inner_color = if alive {
        color
    } else {
        Color::black()
    };
    let inner = Vector2D::new(block.x + 1, block.y + 1);
    let inner_size = Vector2D::new(size - 1, size - 1);
    fill_rect_in(w, inner, inner_size, inner_color);
    let ghost mid = *w;
    let outer = Vector2D::new(size, size);
    draw_rect_outline_in(w, block, outer, Color::white());
}

/// Drawing on something that can be drawn on pixel by pixel.
pub trait RendererMut: PixcelWritableMut + Sized {
    /// Fills the `size` rectangle at `pos` with `color`.
    fn fill_rect(&mut self, pos: Vector2D, size: Vector2D, color: Color)
        requires
            pos.x + size.x <= usize::MAX,
            pos.y + size.y <= usize::MAX,
            forall|x: usize, y: usize| in_rect(pos, size, x as int, y as int) ==> #[trigger] old(self).writable(x, y),
        ensures
            drawn(*old(self), *final(self), |x: int, y: int| in_rect(pos, size, x, y), |x: int, y: int| color),
    {
        fill_rect_in(self, pos, size, color)
    }

    /// Draws the outline of the `size` rectangle at `pos` in `color`.
    fn draw_rect_outline(&mut self, pos: Vector2D, size: Vector2D, color: Color)
        requires
            pos.x + size.x <= usize::MAX,
            pos.y + size.y <= usize::MAX,
            size.x > 0 ==> pos.y + size.y >= 1,
            size.y > 0 ==> pos.x + size.x >= 1,
            forall|x: usize, y: usize| on_outline(pos, size, x as int, y as int) ==> #[trigger] old(self).writable(x, y),
        ensures
            drawn(*old(self), *final(self), |x: int, y: int| on_outline(pos, size, x, y), |x: int, y: int| color),
    {
        draw_rect_outline_in(self, pos, size, color)
    }

    /// Draws the `len` by `len` board `board` (`board[y][x]` is the cell in
    /// row `y`, column `x`) with cells of `size` pixels from `pos` on: each
    /// cell has a white outline and is filled with `color` when alive, black
    /// when not.
    fn render_board(&mut self, board: &Vec<Vec<bool>>, pos: Vector2D, size: usize, color: Color)
        requires
            board@.len() > 0 ==> size >= 1,
            pos.x + board@.len() * size <= usize::MAX,
            pos.y + board@.len() * size <= usize::MAX,
            forall|i: int| 0 <= i < board@.len() ==> #[trigger] board@[i]@.len() >= board@.len(),
            forall|x: usize, y: usize|
                in_board(pos, board@.len() as int, size as int, x as int, y as int) ==> #[trigger] old(
                    self,
                ).writable(x, y),
        ensures
            drawn(
                *old(self),
                *final(self),
                |x: int, y: int| in_board(pos, board@.len() as int, size as int, x, y),
                |x: int, y: int| board_pixel(board_rows(board@), pos, size as int, color, x, y),
            ),
    {
        let ghost start = *self;
        let len = board.len();
        let ghost n = len as int;
        let ghost sz = size as int;
        let ghost rows = board_rows(board@);
        let mut y: usize = 0;
        while y < len
            invariant
                y <= len,
                len == board@.len(),
                n == len,
                sz == size,
                rows == board_rows(board@),
                len > 0 ==> size >= 1,
                pos.x + len * size <= usize::MAX,
                pos.y + len * size <= usize::MAX,
                forall|i: int| 0 <= i < board@.len() ==> #[trigger] board@[i]@.len() >= board@.len(),
                forall|x: usize, y: usize| in_board(pos, n, sz, x as int, y as int) ==> #[trigger] start.writable(x, y),
                drawn(
                    start,
                    *self,
                    |xx: int, yy: int| in_board(pos, n, sz, xx, yy) && (yy - pos.y) / sz < y,
                    |xx: int, yy: int| board_pixel(rows, pos, sz, color, xx, yy),
                ),
            decreases len - y,
        {
            let mut x: usize = 0;
            while x < len
                invariant
                    y < len,
                    x <= len,
                    len == board@.len(),
                    n == len,
                    sz == size,
                    rows == board_rows(board@),
                    size >= 1,
                    pos.x + len * size <= usize::MAX,
                    pos.y + len * size <= usize::MAX,
                    forall|i: int| 0 <= i < board@.len() ==> #[trigger] board@[i]@.len() >= board@.len(),
                    forall|x: usize, y: usize| in_board(pos, n, sz, x as int, y as int) ==> #[trigger] start.writable(x, y),
                    drawn(
                        start,
                        *self,
                        |xx: int, yy: int|
                            in_board(pos, n, sz, xx, yy) && ((yy - pos.y) / sz < y || ((yy - pos.y) / sz == y
                                && (xx - pos.x) / sz < x)),
                        |xx: int, yy: int| board_pixel(rows, pos, sz, color, xx, yy),
                    ),
                decreases len - x,
            {
                proof {
                    lemma_cell(0, sz, x as int, n);
                    lemma_cell(0, sz, y as int, n);
                }
                let bx = pos.x + x * size;
                let by = pos.y + y * size;
                let block = Vector2D::new(bx, by);
                let alive = board[y][x];
                let ghost mid = *self;
                proof {
                    assert forall|xx: usize, yy: usize|
                        in_rect(block, Vector2D { x: size, y: size }, xx as int, yy as int) implies #[trigger] mid.writable(xx, yy) by {
                        lemma_cell(xx - pos.x, sz, x as int, n);
                        lemma_cell(yy - pos.y, sz, y as int, n);
                        assert(start.writable(xx, yy));
                    }
                }
                draw_cell(self, block, size, alive, color);
                proof {
                    let after = *self;
                    assert forall|xx: usize, yy: usize| start.writable(xx, yy) implies #[trigger] after.spec_pixel(xx, yy) == if in_board(pos, n, sz, xx as int, yy as int) && ((yy - pos.y) / sz < y || ((yy - pos.y) / sz == y && (xx - pos.x) / sz < x + 1)) {
                        board_pixel(rows, pos, sz, color, xx as int, yy as int)
                    } else {
                        start.spec_pixel(xx, yy)
                    } by {
                        assert(mid.writable(xx, yy));
                        lemma_cell(xx - pos.x, sz, x as int, n);
                        lemma_cell(yy - pos.y, sz, y as int, n);
                        assert(rows[y as int] == board@[y as int]@);
                    }
                }
                x = x + 1;
            }
            proof {
                let cur = *self;
                assert forall|xx: usize, yy: usize| start.writable(xx, yy) implies #[trigger] cur.spec_pixel(xx, yy) == if in_board(pos, n, sz, xx as int, yy as int) && (yy - pos.y) / sz < y + 1 {
                    board_pixel(rows, pos, sz, color, xx as int, yy as int)
                } else {
                    start.spec_pixel(xx, yy)
                } by {
                    if in_board(pos, n, sz, xx as int, yy as int) {
                        lemma_cell(xx - pos.x, sz, 0, n);
                    }
                }
            }
            y = y + 1;
        }
        proof {
            let cur = *self;
            assert forall|xx: usize, yy: usize| start.writable(xx, yy) implies #[trigger] cur.spec_pixel(xx, yy) == if in_board(pos, n, sz, xx as int, yy as int) {
                board_pixel(rows, pos, sz, color, xx as int, yy as int)
            } else {
                start.spec_pixel(xx, yy)
            } by {
                if in_board(pos, n, sz, xx as int, yy as int) {
                    lemma_cell(yy - pos.y, sz, 0, n);
                }
            }
        }
    }

    /// Draws `shape` with its top-left pixel at `pos`.
    fn fill_shape<S: Shape>(&mut self, pos: Vector2D, shape: &S)
        requires
            pos.x + shape.spec_width() <= usize::MAX,
            pos.y + shape.spec_height() <= usize::MAX,
            forall|x: usize, y: usize|
                pos.x <= x < pos.x + shape.spec_width() && pos.y <= y < pos.y + shape.spec_height()
                    ==> #[trigger] old(self).writable(x, y),
        ensures
            drawn(
                *old(self),
                *final(self),
                |x: int, y: int| pos.x <= x < pos.x + shape.spec_width() && pos.y <= y < pos.y + shape.spec_height(),
                |x: int, y: int| shape.spec_pixel(x - pos.x, y - pos.y),
            ),
    {
        let ghost start = *self;
        let width = shape.get_width();
        let height = shape.get_height();
        let mut y: usize = 0;
        while y < height
            invariant
                y <= height,
                width == shape.spec_width(),
                height == shape.spec_height(),
                pos.x + width <= usize::MAX,
                pos.y + height <= usize::MAX,
                forall|x: usize, y: usize|
                    pos.x <= x < pos.x + width && pos.y <= y < pos.y + height ==> #[trigger] start.writable(x, y),
                drawn(
                    start,
                    *self,
                    |xx: int, yy: int| pos.x <= xx < pos.x + width && pos.y <= yy < pos.y + y,
                    |xx: int, yy: int| shape.spec_pixel(xx - pos.x, yy - pos.y),
                ),
            decreases height - y,
        {
            let mut x: usize = 0;
            while x < width
                invariant
                    y < height,
                    x <= width,
                    width == shape.spec_width(),
                    height == shape.spec_height(),
                    pos.x + width <= usize::MAX,
                    pos.y + height <= usize::MAX,
                    forall|x: usize, y: usize|
                        pos.x <= x < pos.x + width && pos.y <= y < pos.y + height ==> #[trigger] start.writable(x, y),
                    drawn(
                        start,
                        *self,
                        |xx: int, yy: int|
                            pos.x <= xx < pos.x + width && (pos.y <= yy < pos.y + y || (yy == pos.y + y && xx
                                < pos.x + x)),
                        |xx: int, yy: int| shape.spec_pixel(xx - pos.x, yy - pos.y),
                    ),
                decreases width - x,
            {
                let c = shape.get_pixel(x, y);
                let (px, py) = (pos.x + x, pos.y + y);
                assert(start.writable(px, py));
                self.write(px, py, c);
                x = x + 1;
            }
            y = y + 1;
        }
    }
}

impl<T: PixcelWritableMut> RendererMut for T {}

/// A pixel write: the pixel and its colour.
pub type PixelWrite = (usize, usize, Color);

/// The writes of row `y` of a filled rectangle, columns `x0` to `x - 1`.
pub open spec fn row_writes(x0: int, x: int, y: int, color: Color) -> Seq<PixelWrite>
    decreases x - x0,
{
    if x <= x0 {
        Seq::empty()
    } else {
        row_writes(x0, x - 1, y, color).push(((x - 1) as usize, y as usize, color))
    }
}

/// The writes of filling the `size` rectangle at `pos`, rows `pos.y` to
/// `y - 1`, each left to right.
pub open spec fn rect_writes_upto(pos: Vector2D, size: Vector2D, color: Color, y: int) -> Seq<PixelWrite>
    decreases y - pos.y,
{
    if y <= pos.y {
        Seq::empty()
    } else {
        rect_writes_upto(pos, size, color, y - 1) + row_writes(pos.x as int, pos.x + size.x, y - 1, color)
    }
}

/// The writes of filling the `size` rectangle at `pos`: row by row, top to
/// bottom, each left to right.
pub open spec fn rect_writes(pos: Vector2D, size: Vector2D, color: Color) -> Seq<PixelWrite> {
    rect_writes_upto(pos, size, color, pos.y + size.y)
}

/// The top and bottom edges of an outline, columns `pos.x` to `x - 1`: for
/// each column its top pixel, then its bottom one.
pub open spec fn edges_tb(pos: Vector2D, size: Vector2D, color: Color, x: int) -> Seq<PixelWrite>
    decreases x - pos.x,
{
    if x <= pos.x {
        Seq::empty()
    } else {
        edges_tb(pos, size, color, x - 1).push(((x - 1) as usize, pos.y, color)).push(
            ((x - 1) as usize, (pos.y + size.y - 1) as usize, color),
        )
    }
}

/// The left and right edges of an outline, rows `pos.y` to `y - 1`: for
/// each row its left pixel, then its right one.
pub open spec fn edges_lr(pos: Vector2D, size: Vector2D, color: Color, y: int) -> Seq<PixelWrite>
    decreases y - pos.y,
{
    if y <= pos.y {
        Seq::empty()
    } else {
        edges_lr(pos, size, color, y - 1).push((pos.x, (y - 1) as usize, color)).push(
            ((pos.x + size.x - 1) as usize, (y - 1) as usize, color),
        )
    }
}

/// The writes of drawing the outline of the `size` rectangle at `pos`: the
/// top and bottom edges column by column, then the left and right edges row
/// by row.
pub open spec fn outline_writes(pos: Vector2D, size: Vector2D, color: Color) -> Seq<PixelWrite> {
    edges_tb(pos, size, color, pos.x + size.x) + edges_lr(pos, size, color, pos.y + size.y)
}

/// The writes of drawing board cell `(x, y)`, alive or not, with cells of
/// `size` pixels from `pos`: its inside filled with `color` when alive and
/// black when not, then its white outline.
pub open spec fn cell_writes(pos: Vector2D, size: int, alive: bool, color: Color, x: int, y: int) -> Seq<PixelWrite> {
    let block = Vector2D { x: (pos.x + x * size) as usize, y: (pos.y + y * size) as usize };
    rect_writes(
        Vector2D { x: (block.x + 1) as usize, y: (block.y + 1) as usize },
        Vector2D { x: (size - 1) as usize, y: (size - 1) as usize },
        if alive { color } else { Color { r: 0, g: 0, b: 0 } },
    ) + outline_writes(block, Vector2D { x: size as usize, y: size as usize }, Color { r: 255, g: 255, b: 255 })
}

/// The writes of cells `0` to `x - 1` of board row `y`.
pub open spec fn board_row_writes(board: Seq<Seq<bool>>, pos: Vector2D, size: int, color: Color, y: int, x: int) -> Seq<PixelWrite>
    decreases x,
{
    if x <= 0 {
        Seq::empty()
    } else {
        board_row_writes(board, pos, size, color, y, x - 1) + cell_writes(pos, size, board[y][x - 1], color, x - 1, y)
    }
}

/// The writes of rows `0` to `y - 1` of a board of `len` by `len` cells.
pub open spec fn board_writes(board: Seq<Seq<bool>>, pos: Vector2D, size: int, color: Color, len: int, y: int) -> Seq<PixelWrite>
    decreases y,
{
    if y <= 0 {
        Seq::empty()
    } else {
        board_writes(board, pos, size, color, len, y - 1) + board_row_writes(board, pos, size, color, y - 1, len)
    }
}

/// The writes of drawing rows `0` to `y - 1` of `shape` at `pos`, each left
/// to right.
pub open spec fn shape_writes<S: Shape>(shape: &S, pos: Vector2D, y: int) -> Seq<PixelWrite>
    decreases y,
{
    if y <= 0 {
        Seq::empty()
    } else {
        shape_writes(shape, pos, y - 1) + Seq::new(
            shape.spec_width(),
            |x: int| ((pos.x + x) as usize, (pos.y + y - 1) as usize, shape.spec_pixel(x, y - 1)),
        )
    }
}

/// Drawing on a frame buffer through a shared reference. What a pixel write
/// does is the frame buffer's business; each method gives back the record
/// of the writes it made, in order.
pub trait Renderer: PixcelWritable {
    /// Fills the `size` rectangle at `pos` with `color`, row by row.
    fn fill_rect(&self, pos: Vector2D, size: Vector2D, color: Color) -> (drawn: Ghost<Seq<PixelWrite>>)
        requires
            pos.x + size.x <= usize::MAX,
            pos.y + size.y <= usize::MAX,
        ensures
            drawn@ == rect_writes(pos, size, color),
    {
        let ghost mut log: Seq<PixelWrite> = Seq::empty();
        let mut y: usize = pos.y;
        while y < pos.y + size.y
            invariant
                pos.y <= y <= pos.y + size.y,
                pos.x + size.x <= usize::MAX,
                pos.y + size.y <= usize::MAX,
                log == rect_writes_upto(pos, size, color, y as int),
            decreases pos.y + size.y - y,
        {
            let mut x: usize = pos.x;
            while x < pos.x + size.x
                invariant
                    pos.x <= x <= pos.x + size.x,
                    pos.x + size.x <= usize::MAX,
                    pos.y <= y < pos.y + size.y,
                    log == rect_writes_upto(pos, size, color, y as int) + row_writes(pos.x as int, x as int, y as int, color),
                decreases pos.x + size.x - x,
            {
                self.write(x, y, color);
                proof {
                    log = log.push((x, y, color));
                    assert(log =~= rect_writes_upto(pos, size, color, y as int) + row_writes(pos.x as int, x + 1, y as int, color));
                }
                x = x + 1;
            }
            y = y + 1;
        }
        Ghost(log)
    }

    /// Draws the outline of the `size` rectangle at `pos` in `color`.
    fn draw_rect_outline(&self, pos: Vector2D, size: Vector2D, color: Color) -> (drawn: Ghost<Seq<PixelWrite>>)
        requires
            pos.x + size.x <= usize::MAX,
            pos.y + size.y <= usize::MAX,
            size.x > 0 ==> pos.y + size.y >= 1,
            size.y > 0 ==> pos.x + size.x >= 1,
        ensures
            drawn@ == outline_writes(pos, size, color),
    {
        let ghost mut log: Seq<PixelWrite> = Seq::empty();
        let mut x: usize = pos.x;
        while x < pos.x + size.x
            invariant
                pos.x <= x <= pos.x + size.x,
                pos.x + size.x <= usize::MAX,
                pos.y + size.y <= usize::MAX,
                size.x > 0 ==> pos.y + size.y >= 1,
                log == edges_tb(pos, size, color, x as int),
            decreases pos.x + size.x - x,
        {
            self.write(x, pos.y, color);
            self.write(x, pos.y + size.y - 1, color);
            proof {
                log = log.push((x, pos.y, color)).push((x, (pos.y + size.y - 1) as usize, color));
            }
            x = x + 1;
        }
        let ghost tb = log;
        let mut y: usize = pos.y;
        while y < pos.y + size.y
            invariant
                pos.y <= y <= pos.y + size.y,
                pos.x + size.x <= usize::MAX,
                pos.y + size.y <= usize::MAX,
                size.y > 0 ==> pos.x + size.x >= 1,
                tb == edges_tb(pos, size, color, pos.x + size.x),
                log == tb + edges_lr(pos, size, color, y as int),
            decreases pos.y + size.y - y,
        {
            self.write(pos.x, y, color);
            self.write(pos.x + size.x - 1, y, color);
            proof {
                log = log.push((pos.x, y, color)).push(((pos.x + size.x - 1) as usize, y, color));
                assert(log =~= tb + edges_lr(pos, size, color, y + 1));
            }
            y = y + 1;
        }
        proof {
            if size.y == 0 {
                assert(log =~= tb);
            }
        }
        Ghost(log)
    }

    /// Draws the `len` by `len` board `board` with cells of `size` pixels
    /// from `pos` on, as `RendererMut::render_board` does: cell by cell, row
    /// by row, the inside filled and then the outline drawn.
    fn render_board(&self, board: &Vec<Vec<bool>>, pos: Vector2D, size: usize, color: Color) -> (drawn: Ghost<Seq<PixelWrite>>)
        requires
            board@.len() > 0 ==> size >= 1,
            pos.x + board@.len() * size <= usize::MAX,
            pos.y + board@.len() * size <= usize::MAX,
            forall|i: int| 0 <= i < board@.len() ==> #[trigger] board@[i]@.len() >= board@.len(),
        ensures
            drawn@ == board_writes(board_rows(board@), pos, size as int, color, board@.len() as int, board@.len() as int),
    {
        let ghost rows = board_rows(board@);
        let ghost mut log: Seq<PixelWrite> = Seq::empty();
        let len = board.len();
        let mut y: usize = 0;
        while y < len
            invariant
                len == board@.len(),
                y <= len,
                len > 0 ==> size >= 1,
                pos.x + len * size <= usize::MAX,
                pos.y + len * size <= usize::MAX,
                forall|i: int| 0 <= i < board@.len() ==> #[trigger] board@[i]@.len() >= board@.len(),
                rows == board_rows(board@),
                log == board_writes(rows, pos, size as int, color, len as int, y as int),
            decreases len - y,
        {
            let mut x: usize = 0;
            while x < len
                invariant
                    len == board@.len(),
                    y < len,
                    x <= len,
                    size >= 1,
                    pos.x + len * size <= usize::MAX,
                    pos.y + len * size <= usize::MAX,
                    forall|i: int| 0 <= i < board@.len() ==> #[trigger] board@[i]@.len() >= board@.len(),
                    rows == board_rows(board@),
                    log == board_writes(rows, pos, size as int, color, len as int, y as int) + board_row_writes(
                        rows,
                        pos,
                        size as int,
                        color,
                        y as int,
                        x as int,
                    ),
                decreases len - x,
            {
                proof {
                    assert((x + 1) * size <= len * size) by (nonlinear_arith)
                        requires x + 1 <= len, size >= 0;
                    assert((y + 1) * size <= len * size) by (nonlinear_arith)
                        requires y + 1 <= len, size >= 0;
                    assert((x + 1) * size == x * size + size) by (nonlinear_arith);
                    assert((y + 1) * size == y * size + size) by (nonlinear_arith);
                }
                let block_pos = Vector2D::new(pos.x + x * size, pos.y + y * size);
                let inner = Vector2D::new(block_pos.x + 1, block_pos.y + 1);
                let inner_size = Vector2D::new(size - 1, size - 1);
                let alive = board[y][x];
                let fill = if alive {
                    self.fill_rect(inner, inner_size, color)
                } else {
                    self.fill_rect(inner, inner_size, Color::black())
                };
                let outline = self.draw_rect_outline(block_pos, Vector2D::new(size, size), Color::white());
                proof {
                    assert(rows[y as int][x as int] == alive);
                    log = log + fill@ + outline@;
                    assert(log =~= board_writes(rows, pos, size as int, color, len as int, y as int) + board_row_writes(
                        rows,
                        pos,
                        size as int,
                        color,
                        y as int,
                        x + 1,
                    ));
                }
                x = x + 1;
            }
            y = y + 1;
        }
        Ghost(log)
    }

    /// Draws `shape` with its top-left pixel at `pos`, row by row.
    fn fill_shape<S: Shape>(&self, pos: Vector2D, shape: &S) -> (drawn: Ghost<Seq<PixelWrite>>)
        requires
            pos.x + shape.spec_width() <= usize::MAX,
            pos.y + shape.spec_height() <= usize::MAX,
        ensures
            drawn@ == shape_writes(shape, pos, shape.spec_height() as int),
    {
        let ghost mut log: Seq<PixelWrite> = Seq::empty();
        let width = shape.get_width();
        let height = shape.get_height();
        let mut y: usize = 0;
        while y < height
            invariant
                y <= height,
                width == shape.spec_width(),
                height == shape.spec_height(),
                pos.x + width <= usize::MAX,
                pos.y + height <= usize::MAX,
                log == shape_writes(shape, pos, y as int),
            decreases height - y,
        {
            let ghost before = log;
            let mut x: usize = 0;
            while x < width
                invariant
                    y < height,
                    x <= width,
                    width == shape.spec_width(),
                    height == shape.spec_height(),
                    pos.x + width <= usize::MAX,
                    pos.y + height <= usize::MAX,
                    before == shape_writes(shape, pos, y as int),
                    log == before + Seq::new(
                        x as nat,
                        |k: int| ((pos.x + k) as usize, (pos.y + y) as usize, shape.spec_pixel(k, y as int)),
                    ),
                decreases width - x,
            {
                let c = shape.get_pixel(x, y);
                self.write(pos.x + x, pos.y + y, c);
                proof {
                    log = log.push(((pos.x + x) as usize, (pos.y + y) as usize, c));
                    assert(log =~= before + Seq::new(
                        (x + 1) as nat,
                        |k: int| ((pos.x + k) as usize, (pos.y + y) as usize, shape.spec_pixel(k, y as int)),
                    ));
                }
                x = x + 1;
            }
            proof {
                assert(log =~= shape_writes(shape, pos, y + 1));
            }
            y = y + 1;
        }
        Ghost(log)
    }
}

impl<T: PixcelWritable> Renderer for T {}

} // verus!
