//! Where the bytes of a pixel go in a linear frame buffer.
use vstd::prelude::*;
use crate::console::{Color, PixcelInfo};
use crate::pixel::{Bgr, MarkerColor, Rgb};
use crate::types::{GraphicsInfo, PixcelFormat};

verus! {

/// A frame buffer at `frame_buffer_base` with `pixcels_per_scan_line`
/// pixels of four bytes per scan line, in the pixel format `T`.
#[derive(Debug)]
pub struct PixcelWriter<T: MarkerColor> {
    frame_buffer_base: usize,
    pixcels_per_scan_line: usize,
    horizontal_resolution: usize,
    vertical_resolution: usize,
    _pixcel_format: T,
}

/// The byte offset of pixel `(x, y)`'s first byte from the frame buffer's
/// base.
pub open spec fn pixel_byte_offset(pixcels_per_scan_line: int, x: int, y: int) -> int {
    (y * pixcels_per_scan_line + x) * 4
}

/// The colour bytes written for a pixel, in frame-buffer order, for format
/// `f`: red, green, blue or blue, green, red; the fourth byte is not written.
pub open spec fn colour_bytes(f: PixcelFormat, c: Color) -> (u8, u8, u8) {
    match f {
        PixcelFormat::Rgb => (c.r, c.g, c.b),
        PixcelFormat::Bgr => (c.b, c.g, c.r),
    }
}

impl<T: MarkerColor> PixcelWriter<T> {
    pub closed spec fn spec_base(&self) -> usize {
        self.frame_buffer_base
    }

    pub closed spec fn spec_pixcels_per_scan_line(&self) -> usize {
        self.pixcels_per_scan_line
    }

    pub closed spec fn spec_horizontal_resolution(&self) -> usize {
        self.horizontal_resolution
    }

    pub closed spec fn spec_vertical_resolution(&self) -> usize {
        self.vertical_resolution
    }

    /// The whole frame buffer lies in the address space.
    #[verifier::type_invariant]
    closed spec fn addressable(&self) -> bool {
        self.frame_buffer_base + self.pixcels_per_scan_line * self.vertical_resolution * 4 <= usize::MAX
    }

    /// The number of the pixel `(x, y)` in the frame buffer.
    pub fn get_offset(&self, x: usize, y: usize) -> (offset: usize)
        requires
            x < self.spec_pixcels_per_scan_line(),
            y < self.spec_vertical_resolution(),
        ensures
            offset == y * self.spec_pixcels_per_scan_line() + x,
    {
        proof {
            use_type_invariant(self);
            assert(y * self.pixcels_per_scan_line + x < self.pixcels_per_scan_line * self.vertical_resolution)
                by (nonlinear_arith)
                requires
                    x < self.pixcels_per_scan_line,
                    y < self.vertical_resolution,
            ;
        }
        y * self.pixcels_per_scan_line + x
    }

    /// The addresses and values of the three bytes that drawing `color` at
    /// pixel `(x, y)` writes.
    pub fn pixel_writes(&self, x: usize, y: usize, color: Color) -> (w: [(usize, u8); 3])
        requires
            x < self.spec_pixcels_per_scan_line(),
            y < self.spec_vertical_resolution(),
        ensures
            ({
                let a = self.spec_base() + pixel_byte_offset(self.spec_pixcels_per_scan_line() as int, x as int, y as int);
                let (b0, b1, b2) = colour_bytes(T::spec_format(), color);
                w@ == seq![(a as usize, b0), ((a + 1) as usize, b1), ((a + 2) as usize, b2)]
            }),
    {
        proof {
            use_type_invariant(self);
            assert((y * self.pixcels_per_scan_line + x) * 4 + 4 <= self.pixcels_per_scan_line * self.vertical_resolution * 4)
                by (nonlinear_arith)
                requires
                    x < self.pixcels_per_scan_line,
                    y < self.vertical_resolution,
            ;
        }
        let offset = self.get_offset(x, y) * 4;
        let a = self.frame_buffer_base + offset;
        let w = match T::pixcel_format() {
            PixcelFormat::Rgb => [(a, color.r), (a + 1, color.g), (a + 2, color.b)],
            PixcelFormat::Bgr => [(a, color.b), (a + 1, color.g), (a + 2, color.r)],
        };
        assert(w@ =~= {
            let (b0, b1, b2) = colour_bytes(T::spec_format(), color);
            seq![(a, b0), ((a + 1) as usize, b1), ((a + 2) as usize, b2)]
        });
        w
    }
}

impl PixcelWriter<Rgb> {
    pub fn new_raw(
        frame_buffer_base: usize,
        pixcels_per_scan_line: usize,
        horizontal_resolution: usize,
        vertical_resolution: usize,
    ) -> (w: Self)
        requires
            frame_buffer_base + pixcels_per_scan_line * vertical_resolution * 4 <= usize::MAX,
        ensures
            w.spec_base() == frame_buffer_base,
            w.spec_pixcels_per_scan_line() == pixcels_per_scan_line,
            w.spec_horizontal_resolution() == horizontal_resolution,
            w.spec_vertical_resolution() == vertical_resolution,
    {
        PixcelWriter {
            frame_buffer_base,
            pixcels_per_scan_line,
            horizontal_resolution,
            vertical_resolution,
            _pixcel_format: Rgb,
        }
    }
}

impl PixcelWriter<Bgr> {
    pub fn new_raw(
        frame_buffer_base: usize,
        pixcels_per_scan_line: usize,
        horizontal_resolution: usize,
        vertical_resolution: usize,
    ) -> (w: Self)
        requires
            frame_buffer_base + pixcels_per_scan_line * vertical_resolution * 4 <= usize::MAX,
        ensures
            w.spec_base() == frame_buffer_base,
            w.spec_pixcels_per_scan_line() == pixcels_per_scan_line,
            w.spec_horizontal_resolution() == horizontal_resolution,
            w.spec_vertical_resolution() == vertical_resolution,
    {
        PixcelWriter {
            frame_buffer_base,
            pixcels_per_scan_line,
            horizontal_resolution,
            vertical_resolution,
            _pixcel_format: Bgr,
        }
    }
}

impl<T: MarkerColor> PixcelInfo for PixcelWriter<T> {
    open spec fn reported_horizontal_resolution(&self) -> usize {
        self.spec_horizontal_resolution()
    }

    open spec fn reported_pixcels_per_scan_line(&self) -> usize {
        self.spec_pixcels_per_scan_line()
    }

    fn get_pixcel_format(&self) -> (f: PixcelFormat)
        ensures
            f == T::spec_format(),
    {
        T::pixcel_format()
    }

    fn get_num_pixcels(&self) -> (n: usize)
        ensures
            n == self.spec_pixcels_per_scan_line() * self.spec_vertical_resolution(),
    {
        proof {
            use_type_invariant(self);
            assert(self.pixcels_per_scan_line * self.vertical_resolution <= self.pixcels_per_scan_line * self.vertical_resolution * 4)
                by (nonlinear_arith);
        }
        self.pixcels_per_scan_line * self.vertical_resolution
    }

    fn horizontal_resolution(&self) -> (r: usize)
        ensures
            r == self.spec_horizontal_resolution(),
    {
        self.horizontal_resolution
    }

    fn vertical_resolution(&self) -> (r: usize)
        ensures
            r == self.spec_vertical_resolution(),
    {
        self.vertical_resolution
    }

    fn pixcels_per_scan_line(&self) -> (r: usize)
        ensures
            r == self.spec_pixcels_per_scan_line(),
    {
        self.pixcels_per_scan_line
    }
}

/// A frame-buffer writer of either pixel format.
#[derive(Debug)]
pub enum AnyPixcelWriter {
    Rgb(PixcelWriter<Rgb>),
    Bgr(PixcelWriter<Bgr>),
}

pub struct PixcelWriterBuilder;

impl PixcelWriterBuilder {
    /// The writer for the frame buffer that `graphics_info` describes, in
    /// its pixel format.
    pub fn get_writer(graphics_info: &GraphicsInfo) -> (w: AnyPixcelWriter)
        requires
            graphics_info.spec_base() + graphics_info.spec_stride() * graphics_info.spec_vertical_resolution()
                * 4 <= usize::MAX,
        ensures
            match w {
                AnyPixcelWriter::Rgb(p) => graphics_info.spec_pixcel_format() == PixcelFormat::Rgb
                    && p.spec_base() == graphics_info.spec_base() && p.spec_pixcels_per_scan_line()
                    == graphics_info.spec_stride() && p.spec_horizontal_resolution()
                    == graphics_info.spec_horizontal_resolution() && p.spec_vertical_resolution()
                    == graphics_info.spec_vertical_resolution(),
                AnyPixcelWriter::Bgr(p) => graphics_info.spec_pixcel_format() == PixcelFormat::Bgr
                    && p.spec_base() == graphics_info.spec_base() && p.spec_pixcels_per_scan_line()
                    == graphics_info.spec_stride() && p.spec_horizontal_resolution()
                    == graphics_info.spec_horizontal_resolution() && p.spec_vertical_resolution()
                    == graphics_info.spec_vertical_resolution(),
            },
    {
        let frame_buffer_base = graphics_info.base();
        let pixcels_per_scan_line = graphics_info.stride();
        let vertical_resolution = graphics_info.vertical_resolution();
        let horizontal_resolution = graphics_info.horizontal_resolution();
        match graphics_info.pixcel_format() {
            PixcelFormat::Rgb => AnyPixcelWriter::Rgb(
                PixcelWriter::<Rgb>::new_raw(
                    frame_buffer_base,
                    pixcels_per_scan_line,
                    horizontal_resolution,
                    vertical_resolution,
                ),
            ),
            PixcelFormat::Bgr => AnyPixcelWriter::Bgr(
                PixcelWriter::<Bgr>::new_raw(
                    frame_buffer_base,
                    pixcels_per_scan_line,
                    horizontal_resolution,
                    vertical_resolution,
                ),
            ),
        }
    }
}

} // verus!
