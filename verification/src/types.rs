use vstd::prelude::*;

verus! {

/// The byte order of a frame-buffer pixel.
#[derive(Debug, Clone, Copy, PartialEq, Eq, Structural)]
pub enum PixcelFormat {
    Rgb,
    Bgr,
}

/// What the boot loader tells the kernel about the frame buffer.
#[derive(Debug, Clone, Copy)]
pub struct GraphicsInfo {
    horizontal_resolution: usize,
    vertical_resolution: usize,
    pixels_per_scan_line: usize,
    frame_buffer_base: usize,
    pixcel_format: PixcelFormat,
}

impl GraphicsInfo {
    pub closed spec fn spec_horizontal_resolution(&self) -> usize {
        self.horizontal_resolution
    }

    pub closed spec fn spec_vertical_resolution(&self) -> usize {
        self.vertical_resolution
    }

    pub closed spec fn spec_stride(&self) -> usize {
        self.pixels_per_scan_line
    }

    pub closed spec fn spec_base(&self) -> usize {
        self.frame_buffer_base
    }

    pub closed spec fn spec_pixcel_format(&self) -> PixcelFormat {
        self.pixcel_format
    }

    pub fn new(
        horizontal_resolution: usize,
        vertical_resolution: usize,
        pixels_per_scan_line: usize,
        frame_buffer_base: usize,
        pixcel_format: PixcelFormat,
    ) -> (r: Self)
        ensures
            r.spec_horizontal_resolution() == horizontal_resolution,
            r.spec_vertical_resolution() == vertical_resolution,
            r.spec_stride() == pixels_per_scan_line,
            r.spec_base() == frame_buffer_base,
            r.spec_pixcel_format() == pixcel_format,
    {
        Self { horizontal_resolution, vertical_resolution, pixels_per_scan_line, frame_buffer_base, pixcel_format }
    }

    /// The address of the frame buffer.
    pub fn base(&self) -> (r: usize)
        ensures
            r == self.spec_base(),
    {
        self.frame_buffer_base
    }

    /// The number of pixels in the frame buffer, padding included.
    pub fn size(&self) -> (r: usize)
        requires
            self.spec_stride() * self.spec_vertical_resolution() <= usize::MAX,
        ensures
            r == self.spec_stride() * self.spec_vertical_resolution(),
    {
        self.pixels_per_scan_line * self.vertical_resolution
    }

    /// Pixels per scan line.
    pub fn stride(&self) -> (r: usize)
        ensures
            r == self.spec_stride(),
    {
        self.pixels_per_scan_line
    }

    pub fn horizontal_resolution(&self) -> (r: usize)
        ensures
            r == self.spec_horizontal_resolution(),
    {
        self.horizontal_resolution
    }

    pub fn vertical_resolution(&self) -> (r: usize)
        ensures
            r == self.spec_vertical_resolution(),
    {
        self.vertical_resolution
    }

    pub fn pixcel_format(&self) -> (r: PixcelFormat)
        ensures
            r == self.spec_pixcel_format(),
    {
        self.pixcel_format
    }
}

/// The header of the memory map handed to the kernel: the number of
/// descriptors that follow it.
#[derive(Debug, Clone, Copy)]
pub struct MemMapEntry {
    pub size: u64,
}

/// What the boot loader passes to the kernel entry point: the frame buffer
/// and the address of the memory map.
#[derive(Debug, Clone, Copy)]
pub struct KernelMainArg {
    pub graphics_info: GraphicsInfo,
    pub memory_map_entry: usize,
}

} // verus!
