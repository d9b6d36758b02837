use vstd::prelude::*;
use crate::console::Color;
use crate::types::{GraphicsInfo, PixcelFormat};

verus! {

/// Frame buffers whose bytes are red, green, blue, reserved.
#[derive(Debug, Clone, Copy)]
pub struct Rgb;

/// Frame buffers whose bytes are blue, green, red, reserved.
#[derive(Debug, Clone, Copy)]
pub struct Bgr;

/// A pixel format known at compile time.
pub trait MarkerColor: Copy {
    spec fn spec_format() -> PixcelFormat;

    fn pixcel_format() -> (f: PixcelFormat)
        ensures
            f == Self::spec_format(),
    ;
}

impl MarkerColor for Rgb {
    open spec fn spec_format() -> PixcelFormat {
        PixcelFormat::Rgb
    }

    fn pixcel_format() -> (f: PixcelFormat)
        ensures
            f == PixcelFormat::Rgb,
    {
        PixcelFormat::Rgb
    }
}

impl MarkerColor for Bgr {
    open spec fn spec_format() -> PixcelFormat {
        PixcelFormat::Bgr
    }

    fn pixcel_format() -> (f: PixcelFormat)
        ensures
            f == PixcelFormat::Bgr,
    {
        PixcelFormat::Bgr
    }
}

/// The four frame-buffer bytes of a colour in format `f`.
pub open spec fn pixel_bytes(f: PixcelFormat, c: Color) -> Seq<u8> {
    match f {
        PixcelFormat::Rgb => seq![c.r, c.g, c.b, 0xffu8],
        PixcelFormat::Bgr => seq![c.b, c.g, c.r, 0xffu8],
    }
}

/// Turns a colour into frame-buffer bytes.
pub trait RenderedPixel: Send + Sync {
    /// The format whose byte order this renderer uses.
    spec fn format(&self) -> PixcelFormat;

    fn pixel(&self, c: Color) -> (r: [u8; 4])
        ensures
            r@ == pixel_bytes(self.format(), c),
    ;
}

impl RenderedPixel for Rgb {
    open spec fn format(&self) -> PixcelFormat {
        PixcelFormat::Rgb
    }

    fn pixel(&self, c: Color) -> (r: [u8; 4]) {
        let r = [c.r, c.g, c.b, 0xff];
        assert(r@ =~= pixel_bytes(self.format(), c));
        r
    }
}

impl RenderedPixel for Bgr {
    open spec fn format(&self) -> PixcelFormat {
        PixcelFormat::Bgr
    }

    fn pixel(&self, c: Color) -> (r: [u8; 4]) {
        let r = [c.b, c.g, c.r, 0xff];
        assert(r@ =~= pixel_bytes(self.format(), c));
        r
    }
}

impl RenderedPixel for PixcelFormat {
    open spec fn format(&self) -> PixcelFormat {
        *self
    }

    fn pixel(&self, c: Color) -> (r: [u8; 4]) {
        match self {
            PixcelFormat::Rgb => Rgb.pixel(c),
            PixcelFormat::Bgr => Bgr.pixel(c),
        }
    }
}

/// The renderer for the frame buffer described by `graphics_info`: the
/// buffer's own pixel format, which renders in its byte order.
pub fn new_rendering_handler(graphics_info: GraphicsInfo) -> (r: PixcelFormat)
    ensures
        r == graphics_info.spec_pixcel_format(),
{
    graphics_info.pixcel_format()
}

} // verus!
