use vstd::prelude::*;

use crate::layout::{aspect_of, AlignmentMode, AspectType, Axis, ImageSize};
use crate::pen::{GridPen, HorizontalGridPen, VerticalGridPen};

verus! {

/// `t` is the smallest integer of at least 1 whose square reaches `n`: the ceiling of the
/// square root of `n`, and 1 where `n` is zero.
pub open spec fn is_ceil_sqrt(n: int, t: int) -> bool {
    &&& t >= 1
    &&& t * t >= n
    &&& (t == 1 || (t - 1) * (t - 1) < n)
}

/// `a / b` rounded up.
pub open spec fn ceil_div(a: int, b: int) -> int {
    a / b + if a % b == 0 {
        0int
    } else {
        1int
    }
}

/// The number of images of the given aspect class.
pub open spec fn aspect_count(sizes: Seq<ImageSize>, kind: AspectType) -> nat
    decreases sizes.len(),
{
    if sizes.len() == 0 {
        0
    } else {
        let last = sizes.last();
        aspect_count(sizes.drop_last(), kind) + if aspect_of(last.w as int, last.h as int)
            == kind {
            1nat
        } else {
            0nat
        }
    }
}

/// The main axis of an automatic grid: horizontal where portrait images outnumber wide ones
/// or squarish ones are at least as many as wide ones, else vertical.
pub open spec fn grid_axis(sizes: Seq<ImageSize>) -> Axis {
    let wide = aspect_count(sizes, AspectType::Wide);
    let portrait = aspect_count(sizes, AspectType::Portrait);
    let squarish = aspect_count(sizes, AspectType::Squarish);
    if portrait > wide || squarish >= wide {
        Axis::Horizontal
    } else {
        Axis::Vertical
    }
}

/// `v` is the smallest extent of the images across `axis`, or 1 where there are none.
pub open spec fn is_smallest(sizes: Seq<ImageSize>, axis: Axis, v: int) -> bool {
    &&& sizes.len() == 0 ==> v == 1
    &&& sizes.len() > 0 ==> exists|k: int|
        0 <= k < sizes.len() && v == crate::layout::cross_of(axis, #[trigger] sizes[k])
    &&& forall|k: int| 0 <= k < sizes.len() ==> v <= crate::layout::cross_of(axis, #[trigger] sizes[k])
}

/// No image has a zero width or height.
pub open spec fn all_nondegenerate(sizes: Seq<ImageSize>) -> bool {
    forall|k: int| 0 <= k < sizes.len() ==> (#[trigger] sizes[k]).w > 0 && sizes[k].h > 0
}

/// The pen that planning gives for these images: a single line along the chosen axis, or a
/// near-square grid whose main axis follows the images' aspect ratios; its line size is the
/// smallest extent of any image across the main axis.
pub open spec fn planned_pen(alignment: AlignmentMode, sizes: Seq<ImageSize>, pen: GridPen) -> bool {
    let n = sizes.len() as int;
    &&& pen.longest_line_length_pixels == 0
    &&& is_smallest(sizes, pen.axis, pen.line_size_pixels as int)
    &&& match alignment {
        AlignmentMode::Horizontal => {
            &&& pen.axis == Axis::Horizontal
            &&& pen.line_length == n
            &&& pen.line_count == 1
            &&& pen.lines_at_full_size == 1
        },
        AlignmentMode::Vertical => {
            &&& pen.axis == Axis::Vertical
            &&& pen.line_length == n
            &&& pen.line_count == 1
            &&& pen.lines_at_full_size == 1
        },
        AlignmentMode::Grid => {
            &&& pen.axis == grid_axis(sizes)
            &&& is_ceil_sqrt(n, pen.line_length as int)
            &&& pen.line_count == ceil_div(n, pen.line_length as int)
            &&& pen.lines_at_full_size == n / (pen.line_length as int)
        },
    }
}

/// Smallest extent of the images across `axis`, or 1 where there are none.
fn find_smallest_cross(images: &Vec<ImageSize>, axis: Axis) -> (r: u32)
    ensures
        is_smallest(images@, axis, r as int),
{
    let n = images.len();
    if n == 0 {
        return 1;
    }
    let mut smallest: u32 = crate::layout::cross_extent(axis, images[0]);
    let mut i: usize = 1;
    while i < n
        invariant
            n == images@.len(),
            1 <= i <= n,
            exists|k: int| 0 <= k < i && smallest == crate::layout::cross_of(axis, #[trigger] images@[k]),
            forall|k: int| 0 <= k < i ==> smallest <= crate::layout::cross_of(axis, #[trigger] images@[k]),
        decreases n - i,
    {
        let c = crate::layout::cross_extent(axis, images[i]);
        if c < smallest {
            smallest = c;
        }
        i = i + 1;
    }
    smallest
}

/// Smallest width of any image, or 1 where there are none.
pub fn find_smallest_image_width(images: &Vec<ImageSize>) -> (r: u32)
    ensures
        is_smallest(images@, Axis::Vertical, r as int),
{
    find_smallest_cross(images, Axis::Vertical)
}

/// Smallest height of any image, or 1 where there are none.
pub fn find_smallest_image_height(images: &Vec<ImageSize>) -> (r: u32)
    ensures
        is_smallest(images@, Axis::Horizontal, r as int),
{
    find_smallest_cross(images, Axis::Horizontal)
}

/// Counts the images of each aspect class: wide, portrait and squarish.
fn count_aspects(images: &Vec<ImageSize>) -> (r: (usize, usize, usize))
    requires
        all_nondegenerate(images@),
    ensures
        r.0 == aspect_count(images@, AspectType::Wide),
        r.1 == aspect_count(images@, AspectType::Portrait),
        r.2 == aspect_count(images@, AspectType::Squarish),
{
    let n = images.len();
    let mut wide: usize = 0;
    let mut portrait: usize = 0;
    let mut squarish: usize = 0;
    let mut i: usize = 0;
    while i < n
        invariant
            n == images@.len(),
            all_nondegenerate(images@),
            0 <= i <= n,
            wide + portrait + squarish == i,
            wide == aspect_count(images@.subrange(0, i as int), AspectType::Wide),
            portrait == aspect_count(images@.subrange(0, i as int), AspectType::Portrait),
            squarish == aspect_count(images@.subrange(0, i as int), AspectType::Squarish),
        decreases n - i,
    {
        let size = images[i];
        assert(images@.subrange(0, i + 1).drop_last() =~= images@.subrange(0, i as int));
        assert(images@.subrange(0, i + 1).last() == size);
        assert(size.h > 0);
        match AspectType::get_aspect_from_dims(size.w, size.h) {
            AspectType::Wide => wide = wide + 1,
            AspectType::Portrait => portrait = portrait + 1,
            AspectType::Squarish => squarish = squarish + 1,
        }
        i = i + 1;
    }
    assert(images@.subrange(0, n as int) =~= images@);
    (wide, portrait, squarish)
}

/// Whether `t * t < n`.
fn square_below(t: usize, n: usize) -> (r: bool)
    ensures
        r == (t * t < n),
{
    assert((t as u128) * (t as u128) <= 0xFFFF_FFFF_FFFF_FFFFu128 * 0xFFFF_FFFF_FFFF_FFFFu128)
        by (nonlinear_arith)
        requires
            t <= 0xFFFF_FFFF_FFFF_FFFFu128,
    ;
    (t as u128) * (t as u128) < n as u128
}

/// Chooses the pen for the images: a single row or column where the alignment asks for
/// one, else a grid of `t` images per line, `t` the ceiling of the square root of the image
/// count, with as many lines as that takes, along the axis that the images' aspect ratios
/// favour.
pub fn make_axis_pen(alignment: AlignmentMode, images: &Vec<ImageSize>) -> (r: GridPen)
    requires
        alignment == AlignmentMode::Grid ==> all_nondegenerate(images@),
    ensures
        planned_pen(alignment, images@, r),
        r == plan_for(alignment, images@),
{
    let pen = plan_axis_pen(alignment, images);
    proof {
        lemma_plan_unique(alignment, images@, pen);
    }
    pen
}

fn plan_axis_pen(alignment: AlignmentMode, images: &Vec<ImageSize>) -> (r: GridPen)
    requires
        alignment == AlignmentMode::Grid ==> all_nondegenerate(images@),
    ensures
        planned_pen(alignment, images@, r),
{
    let image_count = images.len();
    if alignment == AlignmentMode::Horizontal {
        let smallest_height = find_smallest_image_height(images);
        return HorizontalGridPen::new(image_count, 1, 1, smallest_height);
    }
    if alignment == AlignmentMode::Vertical {
        let smallest_width = find_smallest_image_width(images);
        return VerticalGridPen::new(image_count, 1, 1, smallest_width);
    }

    // The smallest t of at least 1 with t * t >= count
    let mut t: usize = 1;
    while square_below(t, image_count)
        invariant
            1 <= t <= image_count || t == 1,
            t == 1 || (t - 1) * (t - 1) < image_count,
        decreases image_count - t,
    {
        assert(t < image_count) by (nonlinear_arith)
            requires
                t * t < image_count,
                t >= 1,
        ;
        t = t + 1;
    }
    let grid_size_main_axis = t;
    let grid_size_cross_axis = if image_count % t == 0 {
        image_count / t
    } else {
        proof {
            if t >= 2 {
                vstd::arithmetic::div_mod::lemma_div_is_ordered_by_denominator(
                    image_count as int,
                    2,
                    t as int,
                );
            }
        }
        image_count / t + 1
    };
    let main_lines_with_full_size = image_count / t;

    let (wide_count, portrait_count, squarish_count) = count_aspects(images);
    let draw_horizontal = portrait_count > wide_count || squarish_count >= wide_count;
    if draw_horizontal {
        let smallest_height = find_smallest_image_height(images);
        HorizontalGridPen::new(
            grid_size_main_axis,
            grid_size_cross_axis,
            main_lines_with_full_size,
            smallest_height,
        )
    } else {
        let smallest_width = find_smallest_image_width(images);
        VerticalGridPen::new(
            grid_size_main_axis,
            grid_size_cross_axis,
            main_lines_with_full_size,
            smallest_width,
        )
    }
}

/// Under grid alignment the number of images per line is the ceiling of the square root of
/// the image count, the full lines together hold no more than all the images, and all the
/// lines together have room for all of them.
pub proof fn lemma_grid_shape(sizes: Seq<ImageSize>, pen: GridPen)
    requires
        planned_pen(AlignmentMode::Grid, sizes, pen),
    ensures
        is_ceil_sqrt(sizes.len() as int, pen.line_length as int),
        pen.line_length * pen.lines_at_full_size <= sizes.len(),
        sizes.len() <= pen.line_length * pen.line_count,
{
    let n = sizes.len() as int;
    let t = pen.line_length as int;
    vstd::arithmetic::div_mod::lemma_fundamental_div_mod(n, t);
    vstd::arithmetic::div_mod::lemma_mod_bound(n, t);
    assert(t * (n / t + 1) == t * (n / t) + t) by (nonlinear_arith);
}

/// Under horizontal or vertical alignment all images stand in one line.
pub proof fn lemma_single_line(alignment: AlignmentMode, sizes: Seq<ImageSize>, pen: GridPen)
    requires
        alignment != AlignmentMode::Grid,
        planned_pen(alignment, sizes, pen),
    ensures
        pen.line_count == 1,
        pen.line_length == sizes.len(),
{
}

/// The smallest `t` of at least `from` whose square reaches `n`.
pub open spec fn ceil_sqrt_from(n: int, from: int) -> int
    decreases n - from,
{
    if from >= n || from * from >= n {
        from
    } else {
        ceil_sqrt_from(n, from + 1)
    }
}

/// The smallest extent of the images across `axis`, or 1 where there are none.
pub open spec fn smallest_cross(sizes: Seq<ImageSize>, axis: Axis) -> int
    decreases sizes.len(),
{
    if sizes.len() == 0 {
        1
    } else if sizes.len() == 1 {
        crate::layout::cross_of(axis, sizes[0])
    } else {
        let rest = smallest_cross(sizes.drop_last(), axis);
        let last = crate::layout::cross_of(axis, sizes.last());
        if last < rest {
            last
        } else {
            rest
        }
    }
}

/// The pen that planning gives for these images.
pub open spec fn plan_for(alignment: AlignmentMode, sizes: Seq<ImageSize>) -> GridPen {
    let n = sizes.len() as int;
    match alignment {
        AlignmentMode::Horizontal => GridPen {
            axis: Axis::Horizontal,
            line_length: n as usize,
            line_count: 1,
            lines_at_full_size: 1,
            longest_line_length_pixels: 0,
            line_size_pixels: smallest_cross(sizes, Axis::Horizontal) as u32,
        },
        AlignmentMode::Vertical => GridPen {
            axis: Axis::Vertical,
            line_length: n as usize,
            line_count: 1,
            lines_at_full_size: 1,
            longest_line_length_pixels: 0,
            line_size_pixels: smallest_cross(sizes, Axis::Vertical) as u32,
        },
        AlignmentMode::Grid => {
            let t = ceil_sqrt_from(n, 1);
            let axis = grid_axis(sizes);
            GridPen {
                axis,
                line_length: t as usize,
                line_count: ceil_div(n, t) as usize,
                lines_at_full_size: (n / t) as usize,
                longest_line_length_pixels: 0,
                line_size_pixels: smallest_cross(sizes, axis) as u32,
            }
        },
    }
}

proof fn lemma_ceil_sqrt_from(n: int, from: int)
    requires
        1 <= from,
        from == 1 || (from - 1) * (from - 1) < n,
    ensures
        is_ceil_sqrt(n, ceil_sqrt_from(n, from)),
    decreases n - from,
{
    if !(from >= n || from * from >= n) {
        lemma_ceil_sqrt_from(n, from + 1);
    } else if from >= n && from * from < n {
        assert(from * from >= from) by (nonlinear_arith)
            requires
                from >= 1,
        ;
    }
}

proof fn lemma_smallest_cross(sizes: Seq<ImageSize>, axis: Axis)
    ensures
        is_smallest(sizes, axis, smallest_cross(sizes, axis)),
    decreases sizes.len(),
{
    if sizes.len() > 1 {
        let init = sizes.drop_last();
        lemma_smallest_cross(init, axis);
        let v = smallest_cross(sizes, axis);
        let rest = smallest_cross(init, axis);
        assert forall|k: int| 0 <= k < sizes.len() implies v <= crate::layout::cross_of(
            axis,
            #[trigger] sizes[k],
        ) by {
            if k < sizes.len() - 1 {
                assert(sizes[k] == init[k]);
            }
        }
        if crate::layout::cross_of(axis, sizes.last()) < rest {
            assert(v == crate::layout::cross_of(axis, sizes[sizes.len() - 1]));
        } else {
            let i = choose|k: int|
                0 <= k < init.len() && rest == crate::layout::cross_of(axis, #[trigger] init[k]);
            assert(sizes[i] == init[i]);
        }
    } else if sizes.len() == 1 {
        assert(smallest_cross(sizes, axis) == crate::layout::cross_of(axis, sizes[0]));
    }
}

proof fn lemma_ceil_sqrt_unique(n: int, a: int, b: int)
    requires
        is_ceil_sqrt(n, a),
        is_ceil_sqrt(n, b),
    ensures
        a == b,
{
    if a < b {
        assert(a * a <= (b - 1) * (b - 1)) by (nonlinear_arith)
            requires
                1 <= a <= b - 1,
        ;
    } else if b < a {
        assert(b * b <= (a - 1) * (a - 1)) by (nonlinear_arith)
            requires
                1 <= b <= a - 1,
        ;
    }
}

proof fn lemma_smallest_unique(sizes: Seq<ImageSize>, axis: Axis, a: int, b: int)
    requires
        is_smallest(sizes, axis, a),
        is_smallest(sizes, axis, b),
    ensures
        a == b,
{
    if sizes.len() > 0 {
        let i = choose|k: int| 0 <= k < sizes.len() && a == crate::layout::cross_of(axis, #[trigger] sizes[k]);
        let j = choose|k: int| 0 <= k < sizes.len() && b == crate::layout::cross_of(axis, #[trigger] sizes[k]);
        assert(b <= crate::layout::cross_of(axis, sizes[i]));
        assert(a <= crate::layout::cross_of(axis, sizes[j]));
    }
}

/// Planning fixes the pen: any pen that `planned_pen` describes is `plan_for`.
pub proof fn lemma_plan_unique(alignment: AlignmentMode, sizes: Seq<ImageSize>, pen: GridPen)
    requires
        planned_pen(alignment, sizes, pen),
    ensures
        pen == plan_for(alignment, sizes),
{
    let q = plan_for(alignment, sizes);
    lemma_smallest_cross(sizes, pen.axis);
    lemma_smallest_unique(sizes, pen.axis, pen.line_size_pixels as int, smallest_cross(sizes, pen.axis));
    if alignment == AlignmentMode::Grid {
        let n = sizes.len() as int;
        lemma_ceil_sqrt_from(n, 1);
        lemma_ceil_sqrt_unique(n, pen.line_length as int, ceil_sqrt_from(n, 1));
    }
}

} // verus!
