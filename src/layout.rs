use vstd::prelude::*;

verus! {

/// An approximate class of an image's width-to-height ratio.
#[derive(PartialEq, Eq, Structural, Debug, Copy, Clone)]
pub enum AspectType {
    Wide,
    Portrait,
    Squarish,
}

/// The aspect class of an image with the given dimensions: wider than 5:4 is wide,
/// narrower than 4:5 is portrait, anything between is squarish.
pub open spec fn aspect_of(w: int, h: int) -> AspectType {
    if 4 * w > 5 * h {
        AspectType::Wide
    } else if 5 * w < 4 * h {
        AspectType::Portrait
    } else {
        AspectType::Squarish
    }
}

impl AspectType {
    /// Classifies an image by its width-to-height ratio.
    pub fn get_aspect_from_dims(w: u32, h: u32) -> (r: AspectType)
        requires
            h > 0,
        ensures
            r == aspect_of(w as int, h as int),
    {
        let w64: u64 = w as u64;
        let h64: u64 = h as u64;
        if 4 * w64 > 5 * h64 {
            AspectType::Wide
        } else if 5 * w64 < 4 * h64 {
            AspectType::Portrait
        } else {
            AspectType::Squarish
        }
    }
}


/// How the images are arranged: a near-square grid whose main axis is chosen from the
/// images' aspect ratios, or a single row, or a single column.
#[derive(PartialEq, Eq, Structural, Debug, Copy, Clone)]
pub enum AlignmentMode {
    Grid,
    Horizontal,
    Vertical,
}

impl Default for AlignmentMode {
    fn default() -> (r: AlignmentMode)
        ensures
            r == AlignmentMode::Grid,
    {
        AlignmentMode::Grid
    }
}

/// The axis along which images are placed one after another within a line.
#[derive(PartialEq, Eq, Structural, Debug, Copy, Clone)]
pub enum Axis {
    Horizontal,
    Vertical,
}

/// Width and height of an image, in pixels.
#[derive(PartialEq, Eq, Structural, Debug, Copy, Clone)]
pub struct ImageSize {
    pub w: u32,
    pub h: u32,
}

impl ImageSize {
    pub fn new(w: u32, h: u32) -> (r: ImageSize)
        ensures
            r.w == w,
            r.h == h,
    {
        ImageSize { w, h }
    }
}

/// Position and size of one source image within the output canvas.
#[derive(PartialEq, Eq, Structural, Debug, Copy, Clone)]
pub struct ImageRect {
    pub x: u32,
    pub y: u32,
    pub w: u32,
    pub h: u32,
}

/// Extent of a size along the main axis.
pub open spec fn main_of(axis: Axis, s: ImageSize) -> int {
    match axis {
        Axis::Horizontal => s.w as int,
        Axis::Vertical => s.h as int,
    }
}

/// Extent of a size along the cross axis.
pub open spec fn cross_of(axis: Axis, s: ImageSize) -> int {
    match axis {
        Axis::Horizontal => s.h as int,
        Axis::Vertical => s.w as int,
    }
}

/// Whether a rect sits at main-axis position `m` and cross-axis position `c`, with extents
/// `ml` and `cl` along those axes.
pub open spec fn rect_is(axis: Axis, r: ImageRect, m: int, c: int, ml: int, cl: int) -> bool {
    match axis {
        Axis::Horizontal => r.x == m && r.y == c && r.w == ml && r.h == cl,
        Axis::Vertical => r.y == m && r.x == c && r.h == ml && r.w == cl,
    }
}

pub fn main_extent(axis: Axis, s: ImageSize) -> (r: u32)
    ensures
        r == main_of(axis, s),
{
    match axis {
        Axis::Horizontal => s.w,
        Axis::Vertical => s.h,
    }
}

pub fn cross_extent(axis: Axis, s: ImageSize) -> (r: u32)
    ensures
        r == cross_of(axis, s),
{
    match axis {
        Axis::Horizontal => s.h,
        Axis::Vertical => s.w,
    }
}

/// The rect at main-axis position `m` and cross-axis position `c`, with extents `ml` and
/// `cl` along those axes.
pub open spec fn rect_from(axis: Axis, m: int, c: int, ml: int, cl: int) -> ImageRect {
    match axis {
        Axis::Horizontal => ImageRect { x: m as u32, y: c as u32, w: ml as u32, h: cl as u32 },
        Axis::Vertical => ImageRect { x: c as u32, y: m as u32, w: cl as u32, h: ml as u32 },
    }
}

/// Builds the rect with the given main-axis and cross-axis placement.
pub fn make_rect(axis: Axis, m: u32, c: u32, ml: u32, cl: u32) -> (r: ImageRect)
    ensures
        r == rect_from(axis, m as int, c as int, ml as int, cl as int),
        rect_is(axis, r, m as int, c as int, ml as int, cl as int),
{
    match axis {
        Axis::Horizontal => ImageRect { x: m, y: c, w: ml, h: cl },
        Axis::Vertical => ImageRect { x: c, y: m, w: cl, h: ml },
    }
}

} // verus!
