use vstd::prelude::*;

use crate::layout::{
    cross_extent, cross_of, main_extent, main_of, make_rect, rect_from, Axis, ImageRect, ImageSize,
};

verus! {

pub const U32_MAX: u64 = 0xFFFF_FFFF;

/// A pen that places images one after another along its main axis, and moves on to a new
/// line along the cross axis each time a line holds `line_length` images.
///
/// `line_size_pixels` is the extent that every image is given along the cross axis, and
/// `longest_line_length_pixels` the greatest length along the main axis of any line drawn.
#[derive(PartialEq, Eq, Structural, Debug, Copy, Clone)]
pub struct GridPen {
    pub axis: Axis,
    pub line_length: usize,
    pub line_count: usize,
    pub lines_at_full_size: usize,
    pub longest_line_length_pixels: u32,
    pub line_size_pixels: u32,
}

/// Constructor of pens whose main axis is horizontal: images go left to right, lines top to
/// bottom.
pub struct HorizontalGridPen;

/// Constructor of pens whose main axis is vertical: images go top to bottom, lines left to
/// right.
pub struct VerticalGridPen;

impl HorizontalGridPen {
    pub fn new(
        line_length: usize,
        line_count: usize,
        lines_at_full_size: usize,
        line_size_pixels: u32,
    ) -> (r: GridPen)
        ensures
            r == (GridPen {
                axis: Axis::Horizontal,
                line_length,
                line_count,
                lines_at_full_size,
                longest_line_length_pixels: 0,
                line_size_pixels,
            }),
    {
        GridPen {
            axis: Axis::Horizontal,
            line_length,
            line_count,
            lines_at_full_size,
            longest_line_length_pixels: 0,
            line_size_pixels,
        }
    }
}

impl VerticalGridPen {
    pub fn new(
        line_length: usize,
        line_count: usize,
        lines_at_full_size: usize,
        line_size_pixels: u32,
    ) -> (r: GridPen)
        ensures
            r == (GridPen {
                axis: Axis::Vertical,
                line_length,
                line_count,
                lines_at_full_size,
                longest_line_length_pixels: 0,
                line_size_pixels,
            }),
    {
        GridPen {
            axis: Axis::Vertical,
            line_length,
            line_count,
            lines_at_full_size,
            longest_line_length_pixels: 0,
            line_size_pixels,
        }
    }
}

/// Where the pen stands before the next image: its main-axis and cross-axis position, how
/// many images the current line holds, how many lines it has finished, and the longest line
/// it has recorded so far.
pub struct PenState {
    pub main: int,
    pub cross: int,
    pub on_line: int,
    pub line: int,
    pub longest: int,
}

/// The main-axis extent of an image scaled, aspect ratio kept, to `line_size` along the cross
/// axis; rounded down.
pub open spec fn scaled_extent(axis: Axis, s: ImageSize, line_size: int) -> int {
    main_of(axis, s) * line_size / cross_of(axis, s)
}

pub open spec fn max_int(a: int, b: int) -> int {
    if a < b {
        b
    } else {
        a
    }
}

/// The pen after it has placed the first `k` images. Each image advances it along the main
/// axis; when the line is full, and the pen has not yet gone past the lines that are to be
/// full, the line's length is recorded and the pen moves to the start of the next line.
pub open spec fn pen_walk(pen: GridPen, sizes: Seq<ImageSize>, k: nat) -> PenState
    decreases k,
{
    if k == 0 {
        PenState {
            main: 0,
            cross: 0,
            on_line: 0,
            line: 0,
            longest: pen.longest_line_length_pixels as int,
        }
    } else {
        let s = pen_walk(pen, sizes, (k - 1) as nat);
        let m = s.main + scaled_extent(pen.axis, sizes[k - 1], pen.line_size_pixels as int);
        if s.line <= pen.lines_at_full_size && s.on_line + 1 >= pen.line_length {
            PenState {
                main: 0,
                cross: s.cross + pen.line_size_pixels,
                on_line: 0,
                line: s.line + 1,
                longest: max_int(s.longest, m),
            }
        } else {
            PenState { main: m, cross: s.cross, on_line: s.on_line + 1, line: s.line, longest: s.longest }
        }
    }
}

/// The longest line once all images are placed: the lines recorded when the pen wrapped,
/// and the line it was drawing at the end.
pub open spec fn longest_line(pen: GridPen, sizes: Seq<ImageSize>) -> int {
    let s = pen_walk(pen, sizes, sizes.len());
    max_int(s.longest, s.main)
}

/// The rect of image `k` lies within the range of `u32` on both axes.
pub open spec fn placement_fits(pen: GridPen, sizes: Seq<ImageSize>, k: int) -> bool {
    let s = pen_walk(pen, sizes, k as nat);
    &&& s.main + scaled_extent(pen.axis, sizes[k], pen.line_size_pixels as int) <= U32_MAX
    &&& s.cross + pen.line_size_pixels <= U32_MAX
}

pub open spec fn layout_fits(pen: GridPen, sizes: Seq<ImageSize>) -> bool {
    forall|k: int| 0 <= k < sizes.len() ==> placement_fits(pen, sizes, k)
}

/// The rect that the pen gives image `k`.
pub open spec fn placed(pen: GridPen, sizes: Seq<ImageSize>, k: int) -> ImageRect {
    let s = pen_walk(pen, sizes, k as nat);
    rect_from(
        pen.axis,
        s.main,
        s.cross,
        scaled_extent(pen.axis, sizes[k], pen.line_size_pixels as int),
        pen.line_size_pixels as int,
    )
}

/// The pen and the rects once every image is placed.
pub open spec fn generated(pen: GridPen, sizes: Seq<ImageSize>) -> (GridPen, Seq<ImageRect>) {
    (
        GridPen { longest_line_length_pixels: longest_line(pen, sizes) as u32, ..pen },
        Seq::new(sizes.len(), |k: int| placed(pen, sizes, k)),
    )
}

/// No image is zero pixels across the cross axis.
pub open spec fn nondegenerate(axis: Axis, sizes: Seq<ImageSize>) -> bool {
    forall|k: int| 0 <= k < sizes.len() ==> cross_of(axis, #[trigger] sizes[k]) > 0
}

/// `p / d` rounded to the nearest integer, halves rounded up.
pub open spec fn round_div(p: int, d: int) -> int {
    (2 * p + d) / (2 * d)
}

/// `v` capped at the largest `u32`.
pub open spec fn sat_u32(v: int) -> int {
    if v > U32_MAX {
        U32_MAX as int
    } else {
        v
    }
}

/// Extent of a rect along the main axis.
pub open spec fn rect_main(axis: Axis, r: ImageRect) -> int {
    match axis {
        Axis::Horizontal => r.w as int,
        Axis::Vertical => r.h as int,
    }
}

/// Extent of a rect along the cross axis.
pub open spec fn rect_cross(axis: Axis, r: ImageRect) -> int {
    match axis {
        Axis::Horizontal => r.h as int,
        Axis::Vertical => r.w as int,
    }
}

/// Length of the canvas along the cross axis.
pub open spec fn total_cross(pen: GridPen) -> int {
    pen.line_count * pen.line_size_pixels
}

/// The canvas's width and height as the pen records them.
pub open spec fn total_width(pen: GridPen) -> int {
    match pen.axis {
        Axis::Horizontal => pen.longest_line_length_pixels as int,
        Axis::Vertical => total_cross(pen),
    }
}

pub open spec fn total_height(pen: GridPen) -> int {
    match pen.axis {
        Axis::Horizontal => total_cross(pen),
        Axis::Vertical => pen.longest_line_length_pixels as int,
    }
}

/// What a limit allows of a total: all of it where the limit is zero (unset), else no more
/// than the limit.
pub open spec fn allowed(total: int, limit: int) -> int {
    if limit == 0 || total <= limit {
        total
    } else {
        limit
    }
}

/// The canvas already keeps within both limits.
pub open spec fn fits_limits(pen: GridPen, width_limit: int, height_limit: int) -> bool {
    &&& total_width(pen) <= allowed(total_width(pen), width_limit)
    &&& total_height(pen) <= allowed(total_height(pen), height_limit)
}

/// The factor, as numerator and denominator, by which a canvas that does not fit is scaled:
/// the smaller of the two ratios of allowed to current size, leaving out a dimension that is
/// zero.
pub open spec fn scale_ratio(pen: GridPen, width_limit: int, height_limit: int) -> (int, int) {
    let tw = total_width(pen);
    let th = total_height(pen);
    let aw = allowed(tw, width_limit);
    let ah = allowed(th, height_limit);
    if tw == 0 {
        (ah, th)
    } else if th == 0 {
        (aw, tw)
    } else if aw * th <= ah * tw {
        (aw, tw)
    } else {
        (ah, th)
    }
}

/// A position along one axis, scaled by `num / den` and rounded, as a `u32`.
pub open spec fn scaled_pos(v: int, num: int, den: int) -> int {
    sat_u32(round_div(v * num, den))
}

/// The pen while it rebuilds scaled rects: its unscaled main-axis and cross-axis position,
/// the images on the current line, and the largest scaled line size and line length so far.
pub struct ScaleState {
    pub main: int,
    pub cross: int,
    pub on_line: int,
    pub line_size: int,
    pub longest: int,
}

/// The rebuilding pen after the first `k` rects.
pub open spec fn scale_walk(pen: GridPen, rects: Seq<ImageRect>, num: int, den: int, k: nat) -> ScaleState
    decreases k,
{
    if k == 0 {
        ScaleState { main: 0, cross: 0, on_line: 0, line_size: 0, longest: 0 }
    } else {
        let s = scale_walk(pen, rects, num, den, (k - 1) as nat);
        let r = rects[k - 1];
        let next_m = s.main + rect_main(pen.axis, r);
        let next_c = s.cross + rect_cross(pen.axis, r);
        let h = scaled_pos(next_c, num, den) - scaled_pos(s.cross, num, den);
        let line_size = max_int(s.line_size, h);
        let longest = max_int(s.longest, scaled_pos(next_m, num, den));
        if s.on_line + 1 >= pen.line_length {
            ScaleState { main: 0, cross: next_c, on_line: 0, line_size, longest }
        } else {
            ScaleState { main: next_m, cross: s.cross, on_line: s.on_line + 1, line_size, longest }
        }
    }
}

/// The rect that rebuilding gives rect `k`: its corners are the scaled and rounded pen
/// positions before and after it.
pub open spec fn rescaled(pen: GridPen, rects: Seq<ImageRect>, num: int, den: int, k: int) -> ImageRect {
    let s = scale_walk(pen, rects, num, den, k as nat);
    let m0 = scaled_pos(s.main, num, den);
    let c0 = scaled_pos(s.cross, num, den);
    let m1 = scaled_pos(s.main + rect_main(pen.axis, rects[k]), num, den);
    let c1 = scaled_pos(s.cross + rect_cross(pen.axis, rects[k]), num, den);
    rect_from(pen.axis, m0, c0, m1 - m0, c1 - c0)
}

/// The pen and the rects after rescaling to the limits: unchanged where the canvas fits,
/// else rebuilt at the scale that makes it fit.
pub open spec fn rescale(pen: GridPen, rects: Seq<ImageRect>, width_limit: int, height_limit: int) -> (
    GridPen,
    Seq<ImageRect>,
) {
    if fits_limits(pen, width_limit, height_limit) {
        (pen, rects)
    } else {
        let (num, den) = scale_ratio(pen, width_limit, height_limit);
        let s = scale_walk(pen, rects, num, den, rects.len());
        (
            GridPen {
                longest_line_length_pixels: s.longest as u32,
                line_size_pixels: s.line_size as u32,
                ..pen
            },
            Seq::new(rects.len(), |k: int| rescaled(pen, rects, num, den, k)),
        )
    }
}

/// Rounding a quotient to the nearest integer, from its quotient and remainder.
proof fn lemma_round_div(p: int, d: int)
    requires
        p >= 0,
        d > 0,
    ensures
        round_div(p, d) == p / d + if 2 * (p % d) >= d { 1int } else { 0int },
{
    let q = p / d;
    let r = p % d;
    vstd::arithmetic::div_mod::lemma_fundamental_div_mod(p, d);
    assert(0 <= r < d) by {
        vstd::arithmetic::div_mod::lemma_mod_bound(p, d);
    }
    if 2 * r >= d {
        assert(2 * p + d == (q + 1) * (2 * d) + (2 * r - d)) by (nonlinear_arith)
            requires
                p == d * q + r,
        ;
        vstd::arithmetic::div_mod::lemma_fundamental_div_mod_converse(2 * p + d, 2 * d, q + 1, 2 * r - d);
    } else {
        assert(2 * p + d == q * (2 * d) + (2 * r + d)) by (nonlinear_arith)
            requires
                p == d * q + r,
        ;
        vstd::arithmetic::div_mod::lemma_fundamental_div_mod_converse(2 * p + d, 2 * d, q, 2 * r + d);
    }
}

/// Rounding keeps order.
proof fn lemma_round_div_ordered(lo: int, hi: int, d: int)
    requires
        0 <= lo <= hi,
        d > 0,
    ensures
        round_div(lo, d) <= round_div(hi, d),
{
    vstd::arithmetic::div_mod::lemma_div_is_ordered(2 * lo + d, 2 * hi + d, 2 * d);
}

/// Scaling by a nonnegative ratio and rounding keeps order.
pub(crate) proof fn lemma_scaled_pos_ordered(v1: int, v2: int, num: int, den: int)
    requires
        0 <= v1 <= v2,
        num >= 0,
        den > 0,
    ensures
        scaled_pos(v1, num, den) <= scaled_pos(v2, num, den),
{
    assert(v1 * num <= v2 * num) by (nonlinear_arith)
        requires
            0 <= v1 <= v2,
            num >= 0,
    ;
    assert(v1 * num >= 0) by (nonlinear_arith)
        requires
            0 <= v1,
            num >= 0,
    ;
    lemma_round_div_ordered(v1 * num, v2 * num, den);
}

/// Computes `scaled_pos(v, num, den)`.
fn scale_pos(v: u128, num: u128, den: u128) -> (r: u32)
    requires
        0 < den <= U32_MAX,
        v * num <= u128::MAX,
    ensures
        r == scaled_pos(v as int, num as int, den as int),
{
    let p: u128 = v * num;
    let q: u128 = p / den;
    let rem: u128 = p % den;
    proof {
        lemma_round_div(p as int, den as int);
    }
    if q >= U32_MAX as u128 {
        return U32_MAX as u32;
    }
    let rounded: u128 = if 2 * rem >= den {
        q + 1
    } else {
        q
    };
    if rounded > U32_MAX as u128 {
        U32_MAX as u32
    } else {
        rounded as u32
    }
}

/// The layout that the pen gives the images under the limits: the rects as generated, and
/// rescaled where a limit is set; `None` where a rect or the canvas, before or after
/// rescaling, would reach beyond the range of `u32`.
pub open spec fn laid_out(pen: GridPen, sizes: Seq<ImageSize>, width_limit: int, height_limit: int) -> Option<
    (GridPen, Seq<ImageRect>),
> {
    if !layout_fits(pen, sizes) || total_cross(pen) > U32_MAX {
        None
    } else {
        let (unscaled, unscaled_rects) = generated(pen, sizes);
        if width_limit > 0 || height_limit > 0 {
            let (scaled, scaled_rects) = rescale(unscaled, unscaled_rects, width_limit, height_limit);
            if total_cross(scaled) > U32_MAX {
                None
            } else {
                Some((scaled, scaled_rects))
            }
        } else {
            Some((unscaled, unscaled_rects))
        }
    }
}

impl GridPen {
    pub fn get_images_per_line(&self) -> (r: usize)
        ensures
            r == self.line_length,
    {
        self.line_length
    }

    pub fn get_line_count(&self) -> (r: usize)
        ensures
            r == self.line_count,
    {
        self.line_count
    }

    pub fn get_lines_at_full_size(&self) -> (r: usize)
        ensures
            r == self.lines_at_full_size,
    {
        self.lines_at_full_size
    }

    /// Places each image in turn, scaled to the pen's line size along the cross axis, and
    /// records the longest line. Returns `None`, and leaves the pen as it was, where some
    /// rect would reach beyond the range of `u32`.
    pub fn generate_output_rects(&mut self, images: &Vec<ImageSize>) -> (r: Option<Vec<ImageRect>>)
        requires
            nondegenerate(old(self).axis, images@),
        ensures
            r is Some <==> layout_fits(*old(self), images@),
            r is None ==> *final(self) == *old(self),
            r matches Some(rects) ==> (*final(self), rects@) == generated(*old(self), images@),
    {
        let ghost pen = *self;
        let axis = self.axis;
        let ls: u32 = self.line_size_pixels;
        let mut rects: Vec<ImageRect> = Vec::new();
        let mut pen_m: u32 = 0;
        let mut pen_c: u32 = 0;
        let mut on_line: usize = 0;
        let mut line: usize = 0;
        let mut longest: u32 = self.longest_line_length_pixels;
        let n = images.len();
        let mut i: usize = 0;
        while i < n
            invariant
                *self == pen,
                axis == pen.axis,
                ls == pen.line_size_pixels,
                n == images@.len(),
                nondegenerate(axis, images@),
                0 <= i <= n,
                on_line <= i,
                line <= i,
                pen_walk(pen, images@, i as nat) == (PenState {
                    main: pen_m as int,
                    cross: pen_c as int,
                    on_line: on_line as int,
                    line: line as int,
                    longest: longest as int,
                }),
                rects@.len() == i,
                forall|k: int| 0 <= k < i ==> placement_fits(pen, images@, k),
                forall|k: int| 0 <= k < i ==> #[trigger] rects@[k] == placed(pen, images@, k),
            decreases n - i,
        {
            let size = images[i];
            let mv: u64 = main_extent(axis, size) as u64;
            let cv: u64 = cross_extent(axis, size) as u64;
            assert(cv > 0);
            assert(mv * (ls as u64) <= U32_MAX * U32_MAX) by (nonlinear_arith)
                requires
                    mv <= U32_MAX,
                    ls <= U32_MAX,
            ;
            let ext64: u64 = mv * (ls as u64) / cv;
            if ext64 > U32_MAX || pen_m as u64 + ext64 > U32_MAX || pen_c as u64 + ls as u64 > U32_MAX {
                assert(!placement_fits(pen, images@, i as int));
                return None;
            }
            let ext: u32 = ext64 as u32;
            let rect = make_rect(axis, pen_m, pen_c, ext, ls);
            rects.push(rect);
            let m: u32 = pen_m + ext;
            if line <= self.lines_at_full_size && on_line + 1 >= self.line_length {
                if longest < m {
                    longest = m;
                }
                pen_m = 0;
                pen_c = pen_c + ls;
                on_line = 0;
                line = line + 1;
            } else {
                pen_m = m;
                on_line = on_line + 1;
            }
            i = i + 1;
            assert(rects@[i - 1] == rect);
        }
        if longest < pen_m {
            longest = pen_m;
        }
        self.longest_line_length_pixels = longest;
        assert(rects@ =~= generated(pen, images@).1);
        Some(rects)
    }

    /// Whether the canvas's length along the cross axis, `line_count * line_size_pixels`,
    /// is within the range of `u32`.
    pub fn canvas_fits(&self) -> (r: bool)
        ensures
            r == (total_cross(*self) <= U32_MAX),
    {
        let lc: u128 = self.line_count as u128;
        let ls: u128 = self.line_size_pixels as u128;
        assert(lc * ls <= 0xFFFF_FFFF_FFFF_FFFFu128 * 0xFFFF_FFFFu128) by (nonlinear_arith)
            requires
                lc <= 0xFFFF_FFFF_FFFF_FFFFu128,
                ls <= 0xFFFF_FFFFu128,
        ;
        lc * ls <= U32_MAX as u128
    }

    /// The size of the canvas: the longest line along the main axis, and the line size
    /// times the number of lines along the cross axis.
    pub fn get_output_dimensions(&self) -> (r: ImageSize)
        requires
            total_cross(*self) <= U32_MAX,
        ensures
            r.w == total_width(*self),
            r.h == total_height(*self),
    {
        let cross: u32 = ((self.line_count as u64) * (self.line_size_pixels as u64)) as u32;
        match self.axis {
            Axis::Horizontal => ImageSize::new(self.longest_line_length_pixels, cross),
            Axis::Vertical => ImageSize::new(cross, self.longest_line_length_pixels),
        }
    }

    /// Shrinks the layout to keep within the limits, a limit of zero meaning none. Where the
    /// canvas already fits, the rects come back as they are. Else every rect is scaled by
    /// the one factor that brings the canvas within both limits, and the rects are rebuilt by
    /// walking the pen again, rounding the scaled pen position at each step so that no gaps
    /// open between neighbours; the pen's line size and longest line take the scaled values.
    pub fn scale_image_rects(
        &mut self,
        image_rects: Vec<ImageRect>,
        width_limit: u32,
        height_limit: u32,
    ) -> (r: Vec<ImageRect>)
        requires
            total_cross(*old(self)) <= U32_MAX,
        ensures
            (*final(self), r@) == rescale(*old(self), image_rects@, width_limit as int, height_limit as int),
    {
        let ghost pen = *self;
        let axis = self.axis;
        let cross: u64 = (self.line_count as u64) * (self.line_size_pixels as u64);
        let longest_now: u64 = self.longest_line_length_pixels as u64;
        let (tw, th): (u64, u64) = match axis {
            Axis::Horizontal => (longest_now, cross),
            Axis::Vertical => (cross, longest_now),
        };
        let aw: u64 = if width_limit == 0 || tw <= width_limit as u64 {
            tw
        } else {
            width_limit as u64
        };
        let ah: u64 = if height_limit == 0 || th <= height_limit as u64 {
            th
        } else {
            height_limit as u64
        };
        if tw <= aw && th <= ah {
            return image_rects;
        }
        assert(aw * th <= U32_MAX * U32_MAX && ah * tw <= U32_MAX * U32_MAX) by (nonlinear_arith)
            requires
                aw <= U32_MAX,
                th <= U32_MAX,
                ah <= U32_MAX,
                tw <= U32_MAX,
        ;
        let (num, den): (u64, u64) = if tw == 0 {
            (ah, th)
        } else if th == 0 {
            (aw, tw)
        } else if aw * th <= ah * tw {
            (aw, tw)
        } else {
            (ah, th)
        };
        assert((num as int, den as int) == scale_ratio(pen, width_limit as int, height_limit as int));
        let num: u128 = num as u128;
        let den: u128 = den as u128;

        let n = image_rects.len();
        let mut out: Vec<ImageRect> = Vec::new();
        let mut pm: u128 = 0;
        let mut pc: u128 = 0;
        let mut on_line: usize = 0;
        let mut line_size: u32 = 0;
        let mut longest: u32 = 0;
        let mut i: usize = 0;
        while i < n
            invariant
                *self == pen,
                axis == pen.axis,
                n == image_rects@.len(),
                0 < den <= U32_MAX,
                num <= U32_MAX,
                0 <= i <= n,
                pm <= i * U32_MAX,
                pc <= i * U32_MAX,
                scale_walk(pen, image_rects@, num as int, den as int, i as nat) == (ScaleState {
                    main: pm as int,
                    cross: pc as int,
                    on_line: on_line as int,
                    line_size: line_size as int,
                    longest: longest as int,
                }),
                out@.len() == i,
                forall|k: int|
                    0 <= k < i ==> #[trigger] out@[k] == rescaled(pen, image_rects@, num as int, den as int, k),
            decreases n - i,
        {
            let rect = image_rects[i];
            let (rm, rc): (u32, u32) = match axis {
                Axis::Horizontal => (rect.w, rect.h),
                Axis::Vertical => (rect.h, rect.w),
            };
            let next_m: u128 = pm + rm as u128;
            let next_c: u128 = pc + rc as u128;
            assert(next_m * num <= u128::MAX && next_c * num <= u128::MAX && pm * num <= u128::MAX
                && pc * num <= u128::MAX) by (nonlinear_arith)
                requires
                    pm <= next_m <= (i + 1) * U32_MAX,
                    pc <= next_c <= (i + 1) * U32_MAX,
                    i < 0x1_0000_0000_0000_0000int - 1,
                    num <= U32_MAX,
            ;
            let m0 = scale_pos(pm, num, den);
            let m1 = scale_pos(next_m, num, den);
            let c0 = scale_pos(pc, num, den);
            let c1 = scale_pos(next_c, num, den);
            proof {
                lemma_scaled_pos_ordered(pm as int, next_m as int, num as int, den as int);
                lemma_scaled_pos_ordered(pc as int, next_c as int, num as int, den as int);
            }
            let scaled = make_rect(axis, m0, c0, m1 - m0, c1 - c0);
            out.push(scaled);
            let h: u32 = c1 - c0;
            if line_size < h {
                line_size = h;
            }
            if longest < m1 {
                longest = m1;
            }
            if on_line + 1 >= self.line_length {
                pm = 0;
                pc = next_c;
                on_line = 0;
            } else {
                pm = next_m;
                on_line = on_line + 1;
            }
            i = i + 1;
            assert(out@[i - 1] == scaled);
        }
        self.longest_line_length_pixels = longest;
        self.line_size_pixels = line_size;
        assert(out@ =~= rescale(pen, image_rects@, width_limit as int, height_limit as int).1);
        out
    }
}

/// Lays the images out with the pen: generates their rects, then rescales them where a
/// limit is set.
pub fn lay_out(pen: GridPen, images: &Vec<ImageSize>, width_limit: u32, height_limit: u32) -> (r: Option<
    (GridPen, Vec<ImageRect>),
>)
    requires
        nondegenerate(pen.axis, images@),
    ensures
        r matches Some((p, rects)) ==> laid_out(pen, images@, width_limit as int, height_limit as int)
            == Some((p, rects@)),
        r is None ==> laid_out(pen, images@, width_limit as int, height_limit as int) is None,
{
    let mut axis_pen = pen;
    if !axis_pen.canvas_fits() {
        return None;
    }
    let unscaled = match axis_pen.generate_output_rects(images) {
        Some(rects) => rects,
        None => return None,
    };
    if width_limit > 0 || height_limit > 0 {
        let scaled = axis_pen.scale_image_rects(unscaled, width_limit, height_limit);
        if !axis_pen.canvas_fits() {
            return None;
        }
        Some((axis_pen, scaled))
    } else {
        Some((axis_pen, unscaled))
    }
}

} // verus!
