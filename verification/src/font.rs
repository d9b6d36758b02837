//! Drawing characters from an 8 by 16 bitmap font.
use vstd::prelude::*;
use crate::console::{Color, PixcelWritableMut};
use crate::render::drawn;

verus! {

/// Pixel `dx` (0 at the left) of a glyph row is set when bit `7 - dx` is.
pub open spec fn glyph_bit(row: u8, dx: int) -> bool {
    row & (1u8 << (7 - dx) as u8) != 0
}

/// The pixels of the glyph `glyph` (one byte per row) drawn with its
/// top-left corner at `(x, y)`: those whose bit is set.
pub open spec fn glyph_pixel(glyph: Seq<u8>, x: int, y: int, px: int, py: int) -> bool {
    x <= px < x + 8 && y <= py < y + 16 && glyph_bit(glyph[py - y], px - x)
}

/// Draws the 8 by 16 glyph `glyph` in `color` at `(x, y)`; unset pixels are
/// left as they are.
pub fn write_glyph<W: PixcelWritableMut>(w: &mut W, x: usize, y: usize, glyph: &[u8], color: Color)
    requires
        glyph@.len() >= 16,
        x + 8 <= usize::MAX,
        y + 16 <= usize::MAX,
        forall|px: usize, py: usize|
            glyph_pixel(glyph@, x as int, y as int, px as int, py as int) ==> #[trigger] old(w).writable(px, py),
    ensures
        drawn(
            *old(w),
            *final(w),
            |px: int, py: int| glyph_pixel(glyph@, x as int, y as int, px, py),
            |px: int, py: int| color,
        ),
{
    let ghost start = *w;
    let mut dy: usize = 0;
    while dy < 16
        invariant
            dy <= 16,
            glyph@.len() >= 16,
            x + 8 <= usize::MAX,
            y + 16 <= usize::MAX,
            forall|px: usize, py: usize|
                glyph_pixel(glyph@, x as int, y as int, px as int, py as int) ==> #[trigger] start.writable(px, py),
            drawn(
                start,
                *w,
                |px: int, py: int| glyph_pixel(glyph@, x as int, y as int, px, py) && py < y + dy,
                |px: int, py: int| color,
            ),
        decreases 16 - dy,
    {
        let row = glyph[dy];
        let mut dx: usize = 0;
        while dx < 8
            invariant
                dy < 16,
                dx <= 8,
                row == glyph@[dy as int],
                glyph@.len() >= 16,
                x + 8 <= usize::MAX,
                y + 16 <= usize::MAX,
                forall|px: usize, py: usize|
                    glyph_pixel(glyph@, x as int, y as int, px as int, py as int) ==> #[trigger] start.writable(px, py),
                drawn(
                    start,
                    *w,
                    |px: int, py: int|
                        glyph_pixel(glyph@, x as int, y as int, px, py) && (py < y + dy || (py == y + dy
                            && px < x + dx)),
                    |px: int, py: int| color,
                ),
            decreases 8 - dx,
        {
            let shift = (7 - dx) as u8;
            if row & (1u8 << shift) != 0 {
                let (px, py) = (x + dx, y + dy);
                assert(glyph_pixel(glyph@, x as int, y as int, px as int, py as int));
                assert(start.writable(px, py));
                w.write(px, py, color);
            }
            dx = dx + 1;
        }
        dy = dy + 1;
    }
}

/// The pixels that drawing the glyph `glyph` at `(x, y)` sets, row by row:
/// those of `glyph_pixel`, each once. For screens drawn on through a shared
/// reference.
pub fn glyph_pixels(x: usize, y: usize, glyph: &[u8]) -> (pixels: Vec<(usize, usize)>)
    requires
        glyph@.len() >= 16,
        x + 8 <= usize::MAX,
        y + 16 <= usize::MAX,
    ensures
        forall|k: int|
            0 <= k < pixels@.len() ==> glyph_pixel(
                glyph@,
                x as int,
                y as int,
                (#[trigger] pixels@[k]).0 as int,
                pixels@[k].1 as int,
            ),
        forall|px: usize, py: usize|
            glyph_pixel(glyph@, x as int, y as int, px as int, py as int) ==> #[trigger] pixels@.contains(
                (px, py),
            ),
        pixels@.no_duplicates(),
{
    let mut pixels: Vec<(usize, usize)> = Vec::new();
    let mut dy: usize = 0;
    while dy < 16
        invariant
            dy <= 16,
            glyph@.len() >= 16,
            x + 8 <= usize::MAX,
            y + 16 <= usize::MAX,
            forall|k: int|
                0 <= k < pixels@.len() ==> glyph_pixel(
                    glyph@,
                    x as int,
                    y as int,
                    (#[trigger] pixels@[k]).0 as int,
                    pixels@[k].1 as int,
                ) && pixels@[k].1 < y + dy,
            forall|px: usize, py: usize|
                glyph_pixel(glyph@, x as int, y as int, px as int, py as int) && py < y + dy
                    ==> #[trigger] pixels@.contains((px, py)),
            pixels@.no_duplicates(),
        decreases 16 - dy,
    {
        let row = glyph[dy];
        let mut dx: usize = 0;
        while dx < 8
            invariant
                dy < 16,
                dx <= 8,
                row == glyph@[dy as int],
                glyph@.len() >= 16,
                x + 8 <= usize::MAX,
                y + 16 <= usize::MAX,
                forall|k: int|
                    0 <= k < pixels@.len() ==> glyph_pixel(
                        glyph@,
                        x as int,
                        y as int,
                        (#[trigger] pixels@[k]).0 as int,
                        pixels@[k].1 as int,
                    ) && (pixels@[k].1 < y + dy || (pixels@[k].1 == y + dy && pixels@[k].0 < x + dx)),
                forall|px: usize, py: usize|
                    glyph_pixel(glyph@, x as int, y as int, px as int, py as int) && (py < y + dy || (py
                        == y + dy && px < x + dx)) ==> #[trigger] pixels@.contains((px, py)),
                pixels@.no_duplicates(),
            decreases 8 - dx,
        {
            let shift = (7 - dx) as u8;
            if row & (1u8 << shift) != 0 {
                let p = (x + dx, y + dy);
                let ghost before = pixels@;
                assert(glyph_pixel(glyph@, x as int, y as int, p.0 as int, p.1 as int));
                assert(!before.contains(p));
                assert(forall|px: usize, py: usize|
                    glyph_pixel(glyph@, x as int, y as int, px as int, py as int) && (py < y + dy || (py
                        == y + dy && px < x + dx)) ==> #[trigger] before.contains((px, py)));
                pixels.push(p);
                assert(pixels@.last() == p);
                assert forall|px: usize, py: usize|
                    glyph_pixel(glyph@, x as int, y as int, px as int, py as int) && (py < y + dy || (py
                        == y + dy && px < x + dx + 1)) implies #[trigger] pixels@.contains((px, py)) by {
                    if (px, py) == p {
                        assert(pixels@[pixels@.len() - 1] == p);
                    } else {
                        assert(before.contains((px, py)));
                        let k = choose|k: int| 0 <= k < before.len() && before[k] == (px, py);
                        assert(pixels@[k] == (px, py));
                    }
                }
            } else {
                assert forall|px: usize, py: usize|
                    glyph_pixel(glyph@, x as int, y as int, px as int, py as int) && (py < y + dy || (py
                        == y + dy && px < x + dx + 1)) implies #[trigger] pixels@.contains((px, py)) by {
                    if py == y + dy && px == x + dx {
                        assert(!glyph_pixel(glyph@, x as int, y as int, px as int, py as int));
                    }
                }
            }
            dx = dx + 1;
        }
        dy = dy + 1;
    }
    pixels
}

/// Draws character `c` from `font` (glyph `n` for character code `n`) in
/// `color` at `(x, y)`; a character the font has no glyph for is not drawn.
pub fn write_ascii<W: PixcelWritableMut>(w: &mut W, x: usize, y: usize, c: char, font: &Vec<Vec<u8>>, color: Color)
    requires
        x + 8 <= usize::MAX,
        y + 16 <= usize::MAX,
        (c as int) < font@.len() ==> font@[c as int]@.len() >= 16,
        (c as int) < font@.len() ==> forall|px: usize, py: usize|
            glyph_pixel(font@[c as int]@, x as int, y as int, px as int, py as int) ==> #[trigger] old(w).writable(px, py),
    ensures
        (c as int) < font@.len() ==> drawn(
            *old(w),
            *final(w),
            |px: int, py: int| glyph_pixel(font@[c as int]@, x as int, y as int, px, py),
            |px: int, py: int| color,
        ),
        (c as int) >= font@.len() ==> *final(w) == *old(w),
{
    let code = c as u32 as usize;
    if code < font.len() {
        write_glyph(w, x, y, font[code].as_slice(), color);
    }
}

} // verus!
