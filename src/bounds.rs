use vstd::prelude::*;

use crate::layout::{cross_of, AlignmentMode, Axis, ImageSize};
use crate::pen::{
    allowed, fits_limits, generated, layout_fits, longest_line, max_int, pen_walk, placed,
    placement_fits, rect_cross, rect_main, rescale, round_div, scale_ratio, scale_walk,
    scaled_extent, scaled_pos, total_height, total_width, GridPen, U32_MAX,
};
use crate::plan::{all_nondegenerate, planned_pen};

verus! {

/// The pen's lines are regular for `n` images: each line but the last is full, no image
/// falls past the lines that are to be full, and every image falls within the pen's lines.
pub open spec fn regular_lines(pen: GridPen, n: int) -> bool {
    n == 0 || {
        &&& pen.line_length >= 1
        &&& (n - 1) / (pen.line_length as int) <= pen.lines_at_full_size
        &&& (n - 1) / (pen.line_length as int) < pen.line_count
    }
}

/// A planned pen has regular lines.
proof fn lemma_planned_regular(alignment: AlignmentMode, sizes: Seq<ImageSize>, pen: GridPen)
    requires
        planned_pen(alignment, sizes, pen),
    ensures
        regular_lines(pen, sizes.len() as int),
{
    let n = sizes.len() as int;
    if n > 0 {
        let t = pen.line_length as int;
        match alignment {
            AlignmentMode::Grid => {
                vstd::arithmetic::div_mod::lemma_div_is_ordered(n - 1, n, t);
                vstd::arithmetic::div_mod::lemma_fundamental_div_mod(n - 1, t);
                vstd::arithmetic::div_mod::lemma_fundamental_div_mod(n, t);
                vstd::arithmetic::div_mod::lemma_mod_bound(n - 1, t);
                vstd::arithmetic::div_mod::lemma_mod_bound(n, t);
                if n % t == 0 {
                    // n = t * q exactly, so n - 1 = t * (q - 1) + (t - 1)
                    assert((n - 1) / t < n / t) by {
                        let q = n / t;
                        assert(n - 1 == t * (q - 1) + (t - 1)) by (nonlinear_arith)
                            requires
                                n == t * q + 0,
                        ;
                        vstd::arithmetic::div_mod::lemma_fundamental_div_mod_converse(
                            n - 1,
                            t,
                            q - 1,
                            t - 1,
                        );
                    }
                }
            },
            _ => {
                assert((n - 1) / n == 0) by {
                    vstd::arithmetic::div_mod::lemma_fundamental_div_mod_converse(n - 1, n, 0, n - 1);
                }
            },
        }
    }
}

/// Under regular lines, image `k` stands on line `k / t` at place `k % t`, the pen's cross
/// position is that line times the line size, and its main position is never negative.
proof fn lemma_walk_shape(pen: GridPen, sizes: Seq<ImageSize>, k: nat)
    requires
        regular_lines(pen, sizes.len() as int),
        k <= sizes.len(),
        sizes.len() > 0,
        crate::pen::nondegenerate(pen.axis, sizes),
    ensures
        pen_walk(pen, sizes, k).line == k as int / (pen.line_length as int),
        pen_walk(pen, sizes, k).on_line == k as int % (pen.line_length as int),
        pen_walk(pen, sizes, k).cross == pen_walk(pen, sizes, k).line * pen.line_size_pixels,
        pen_walk(pen, sizes, k).main >= 0,
    decreases k,
{
    let t = pen.line_length as int;
    if k == 0 {
        vstd::arithmetic::div_mod::lemma_fundamental_div_mod_converse(0, t, 0, 0);
    } else {
        let j = (k - 1) as nat;
        lemma_walk_shape(pen, sizes, j);
        let s = pen_walk(pen, sizes, j);
        let size = sizes[j as int];
        assert(cross_of(pen.axis, size) > 0);
        assert(scaled_extent(pen.axis, size, pen.line_size_pixels as int) >= 0) by {
            let m = crate::layout::main_of(pen.axis, size);
            let c = cross_of(pen.axis, size);
            assert(m * pen.line_size_pixels >= 0) by (nonlinear_arith)
                requires
                    m >= 0,
                    pen.line_size_pixels >= 0,
            ;
            vstd::arithmetic::div_mod::lemma_div_pos_is_pos(m * pen.line_size_pixels, c);
        }
        vstd::arithmetic::div_mod::lemma_fundamental_div_mod(j as int, t);
        vstd::arithmetic::div_mod::lemma_mod_bound(j as int, t);
        let q = j as int / t;
        let r = j as int % t;
        // the line of image j is never past the lines that are to be full
        vstd::arithmetic::div_mod::lemma_div_is_ordered(j as int, sizes.len() - 1, t);
        if r + 1 == t {
            assert(k as int == t * (q + 1) + 0) by (nonlinear_arith)
                requires
                    j as int == t * q + r,
                    r + 1 == t,
                    k == j + 1,
            ;
            vstd::arithmetic::div_mod::lemma_fundamental_div_mod_converse(k as int, t, q + 1, 0);
            assert(s.cross + pen.line_size_pixels == (q + 1) * pen.line_size_pixels) by (
            nonlinear_arith)
                requires
                    s.cross == q * pen.line_size_pixels,
            ;
        } else {
            assert(k as int == t * q + (r + 1));
            vstd::arithmetic::div_mod::lemma_fundamental_div_mod_converse(k as int, t, q, r + 1);
        }
    }
}

/// A scaled extent is never negative.
proof fn lemma_extent_nonneg(axis: Axis, size: ImageSize, ls: int)
    requires
        cross_of(axis, size) > 0,
        ls >= 0,
    ensures
        scaled_extent(axis, size, ls) >= 0,
{
    let m = crate::layout::main_of(axis, size);
    assert(m * ls >= 0) by (nonlinear_arith)
        requires
            m >= 0,
            ls >= 0,
    ;
    vstd::arithmetic::div_mod::lemma_div_pos_is_pos(m * ls, cross_of(axis, size));
}

/// How far along the main axis the pen has reached after `k` images.
spec fn reach(pen: GridPen, sizes: Seq<ImageSize>, k: nat) -> int {
    max_int(pen_walk(pen, sizes, k).longest, pen_walk(pen, sizes, k).main)
}

/// The end of image `k` along the main axis.
spec fn end_of(pen: GridPen, sizes: Seq<ImageSize>, k: int) -> int {
    pen_walk(pen, sizes, k as nat).main + scaled_extent(
        pen.axis,
        sizes[k],
        pen.line_size_pixels as int,
    )
}

proof fn lemma_reach_step(pen: GridPen, sizes: Seq<ImageSize>, k: nat)
    requires
        k < sizes.len(),
        crate::pen::nondegenerate(pen.axis, sizes),
    ensures
        reach(pen, sizes, k) <= reach(pen, sizes, k + 1),
        end_of(pen, sizes, k as int) <= reach(pen, sizes, k + 1),
{
    assert(cross_of(pen.axis, sizes[k as int]) > 0);
    lemma_extent_nonneg(pen.axis, sizes[k as int], pen.line_size_pixels as int);
}

proof fn lemma_reach_mono(pen: GridPen, sizes: Seq<ImageSize>, j: nat, k: nat)
    requires
        j <= k <= sizes.len(),
        crate::pen::nondegenerate(pen.axis, sizes),
    ensures
        reach(pen, sizes, j) <= reach(pen, sizes, k),
    decreases k - j,
{
    if j < k {
        lemma_reach_step(pen, sizes, j);
        lemma_reach_mono(pen, sizes, j + 1, k);
    }
}

/// Where every placement fits, so does the pen's reach.
proof fn lemma_reach_bounded(pen: GridPen, sizes: Seq<ImageSize>, k: nat)
    requires
        k <= sizes.len(),
        layout_fits(pen, sizes),
        crate::pen::nondegenerate(pen.axis, sizes),
    ensures
        0 <= reach(pen, sizes, k) <= U32_MAX,
        0 <= pen_walk(pen, sizes, k).main <= U32_MAX,
    decreases k,
{
    if k > 0 {
        lemma_reach_bounded(pen, sizes, (k - 1) as nat);
        assert(placement_fits(pen, sizes, k - 1));
        assert(cross_of(pen.axis, sizes[k - 1]) > 0);
        lemma_extent_nonneg(pen.axis, sizes[k - 1], pen.line_size_pixels as int);
    }
}

/// No image ends past the longest line.
proof fn lemma_end_within(pen: GridPen, sizes: Seq<ImageSize>, k: int)
    requires
        0 <= k < sizes.len(),
        crate::pen::nondegenerate(pen.axis, sizes),
    ensures
        end_of(pen, sizes, k) <= longest_line(pen, sizes),
{
    lemma_reach_step(pen, sizes, k as nat);
    lemma_reach_mono(pen, sizes, (k + 1) as nat, sizes.len());
}

/// Within one line, each image starts where the ones before it end.
proof fn lemma_same_line_ordered(pen: GridPen, sizes: Seq<ImageSize>, i: int, j: int)
    requires
        regular_lines(pen, sizes.len() as int),
        crate::pen::nondegenerate(pen.axis, sizes),
        0 <= i < j < sizes.len(),
        pen_walk(pen, sizes, j as nat).line == pen_walk(pen, sizes, i as nat).line,
    ensures
        end_of(pen, sizes, i) <= pen_walk(pen, sizes, j as nat).main,
    decreases j - i,
{
    let t = pen.line_length as int;
    lemma_walk_shape(pen, sizes, i as nat);
    lemma_walk_shape(pen, sizes, j as nat);
    lemma_walk_shape(pen, sizes, (j - 1) as nat);
    vstd::arithmetic::div_mod::lemma_div_is_ordered(i, j - 1, t);
    vstd::arithmetic::div_mod::lemma_div_is_ordered(j - 1, j, t);
    // image j - 1 shares the line, so the pen did not wrap after it
    assert(pen_walk(pen, sizes, (j - 1) as nat).line == pen_walk(pen, sizes, j as nat).line);
    if j - 1 > i {
        lemma_same_line_ordered(pen, sizes, i, j - 1);
        assert(cross_of(pen.axis, sizes[j - 1]) > 0);
        lemma_extent_nonneg(pen.axis, sizes[j - 1], pen.line_size_pixels as int);
    }
}

/// `r` lies within a canvas of `w` by `h` pixels.
pub open spec fn rect_within(r: crate::layout::ImageRect, w: int, h: int) -> bool {
    r.x + r.w <= w && r.y + r.h <= h
}

/// `a` and `b` share no pixel.
pub open spec fn rects_disjoint(a: crate::layout::ImageRect, b: crate::layout::ImageRect) -> bool {
    ||| a.x + a.w <= b.x
    ||| b.x + b.w <= a.x
    ||| a.y + a.h <= b.y
    ||| b.y + b.h <= a.y
}

/// The rect of image `k` as its placement on the two axes.
proof fn lemma_placed_fields(pen: GridPen, sizes: Seq<ImageSize>, k: int)
    requires
        regular_lines(pen, sizes.len() as int),
        crate::pen::nondegenerate(pen.axis, sizes),
        layout_fits(pen, sizes),
        0 <= k < sizes.len(),
    ensures
        ({
            let s = pen_walk(pen, sizes, k as nat);
            crate::layout::rect_is(
                pen.axis,
                placed(pen, sizes, k),
                s.main,
                s.cross,
                scaled_extent(pen.axis, sizes[k], pen.line_size_pixels as int),
                pen.line_size_pixels as int,
            )
        }),
{
    lemma_walk_shape(pen, sizes, k as nat);
    assert(placement_fits(pen, sizes, k));
    assert(cross_of(pen.axis, sizes[k]) > 0);
    lemma_extent_nonneg(pen.axis, sizes[k], pen.line_size_pixels as int);
    let s = pen_walk(pen, sizes, k as nat);
    assert(s.cross >= 0) by (nonlinear_arith)
        requires
            s.cross == s.line * pen.line_size_pixels,
            s.line >= 0,
            pen.line_size_pixels >= 0,
    ;
    vstd::arithmetic::div_mod::lemma_div_pos_is_pos(k, pen.line_length as int);
}

/// Every rect that the pen generates for planned images lies on the canvas, and no two of
/// them overlap.
pub proof fn lemma_generated_rects_disjoint(alignment: AlignmentMode, sizes: Seq<ImageSize>, pen: GridPen)
    requires
        all_nondegenerate(sizes),
        planned_pen(alignment, sizes, pen),
        layout_fits(pen, sizes),
    ensures
        ({
            let (p, rects) = generated(pen, sizes);
            &&& forall|k: int|
                0 <= k < rects.len() ==> rect_within(
                    #[trigger] rects[k],
                    crate::pen::total_width(p),
                    crate::pen::total_height(p),
                )
            &&& forall|i: int, j: int|
                0 <= i < j < rects.len() ==> rects_disjoint(#[trigger] rects[i], #[trigger] rects[j])
        }),
{
    lemma_planned_regular(alignment, sizes, pen);
    assert(crate::pen::nondegenerate(pen.axis, sizes)) by {
        assert forall|k: int| 0 <= k < sizes.len() implies cross_of(pen.axis, #[trigger] sizes[k]) > 0 by {
            assert(sizes[k].w > 0 && sizes[k].h > 0);
        }
    }
    let (p, rects) = generated(pen, sizes);
    let n = sizes.len() as int;
    let t = pen.line_length as int;
    let ls = pen.line_size_pixels as int;
    assert forall|k: int| 0 <= k < rects.len() implies rect_within(
        #[trigger] rects[k],
        crate::pen::total_width(p),
        crate::pen::total_height(p),
    ) by {
        lemma_placed_fields(pen, sizes, k);
        lemma_end_within(pen, sizes, k);
        lemma_walk_shape(pen, sizes, k as nat);
        vstd::arithmetic::div_mod::lemma_div_is_ordered(k, n - 1, t);
        let line = pen_walk(pen, sizes, k as nat).line;
        assert(line * ls + ls <= pen.line_count * ls) by (nonlinear_arith)
            requires
                line + 1 <= pen.line_count,
                ls >= 0,
        ;
        lemma_reach_bounded(pen, sizes, sizes.len());
    }
    assert forall|i: int, j: int| 0 <= i < j < rects.len() implies rects_disjoint(
        #[trigger] rects[i],
        #[trigger] rects[j],
    ) by {
        lemma_placed_fields(pen, sizes, i);
        lemma_placed_fields(pen, sizes, j);
        lemma_walk_shape(pen, sizes, i as nat);
        lemma_walk_shape(pen, sizes, j as nat);
        vstd::arithmetic::div_mod::lemma_div_is_ordered(i, j, t);
        let li = pen_walk(pen, sizes, i as nat).line;
        let lj = pen_walk(pen, sizes, j as nat).line;
        if li == lj {
            lemma_same_line_ordered(pen, sizes, i, j);
        } else {
            assert(li * ls + ls <= lj * ls) by (nonlinear_arith)
                requires
                    li + 1 <= lj,
                    ls >= 0,
            ;
        }
    }
}

/// Once the rescaled canvas fits the limits, rescaling it again with the same limits gives
/// back the same rects and the same pen.
pub proof fn lemma_rescale_idempotent(
    pen: GridPen,
    rects: Seq<crate::layout::ImageRect>,
    width_limit: int,
    height_limit: int,
)
    requires
        fits_limits(rescale(pen, rects, width_limit, height_limit).0, width_limit, height_limit),
    ensures
        ({
            let (p, r) = rescale(pen, rects, width_limit, height_limit);
            rescale(p, r, width_limit, height_limit) == (p, r)
        }),
{
}

/// The factor of a rescale is at most 1, and brings both totals within what the limits
/// allow.
proof fn lemma_scale_ratio(pen: GridPen, width_limit: int, height_limit: int)
    requires
        !fits_limits(pen, width_limit, height_limit),
        width_limit >= 0,
        height_limit >= 0,
        total_width(pen) >= 0,
        total_height(pen) >= 0,
    ensures
        ({
            let (num, den) = scale_ratio(pen, width_limit, height_limit);
            let tw = total_width(pen);
            let th = total_height(pen);
            &&& den > 0
            &&& 0 <= num <= den
            &&& tw * num <= allowed(tw, width_limit) * den
            &&& th * num <= allowed(th, height_limit) * den
        }),
{
    let tw = total_width(pen);
    let th = total_height(pen);
    let aw = allowed(tw, width_limit);
    let ah = allowed(th, height_limit);
    assert(0 <= aw <= tw && 0 <= ah <= th);
    if tw == 0 {
        assert(tw * ah == 0 && th * ah == ah * th) by (nonlinear_arith)
            requires
                tw == 0,
        ;
    } else if th == 0 {
        assert(th * aw == 0 && tw * aw == aw * tw) by (nonlinear_arith)
            requires
                th == 0,
        ;
    } else if aw * th <= ah * tw {
        assert(th * aw <= ah * tw && tw * aw == aw * tw) by (nonlinear_arith)
            requires
                aw * th <= ah * tw,
        ;
    } else {
        assert(tw * ah <= aw * th && th * ah == ah * th) by (nonlinear_arith)
            requires
                aw * th > ah * tw,
        ;
    }
}

/// A quotient no greater than `a` rounds to no more than `a`.
proof fn lemma_round_at_most(p: int, d: int, a: int)
    requires
        0 <= p <= a * d,
        d > 0,
        a >= 0,
    ensures
        round_div(p, d) <= a,
{
    assert(2 * p + d < (a + 1) * (2 * d)) by (nonlinear_arith)
        requires
            p <= a * d,
            d > 0,
    ;
    vstd::arithmetic::div_mod::lemma_div_is_ordered(2 * p + d, (a + 1) * (2 * d) - 1, 2 * d);
    assert((a + 1) * (2 * d) - 1 == a * (2 * d) + (2 * d - 1)) by (nonlinear_arith);
    vstd::arithmetic::div_mod::lemma_fundamental_div_mod_converse(
        (a + 1) * (2 * d) - 1,
        2 * d,
        a,
        2 * d - 1,
    );
}

/// A scaled position whose exact value is no greater than `a` is no greater than `a`.
proof fn lemma_scaled_at_most(v: int, num: int, den: int, a: int)
    requires
        v >= 0,
        num >= 0,
        den > 0,
        a >= 0,
        v * num <= a * den,
    ensures
        scaled_pos(v, num, den) <= a,
{
    assert(v * num >= 0) by (nonlinear_arith)
        requires
            v >= 0,
            num >= 0,
    ;
    lemma_round_at_most(v * num, den, a);
}

/// Scaled by at most 1 and rounded, a span of `ls` stays no longer than `ls`.
proof fn lemma_scaled_span(a: int, ls: int, num: int, den: int)
    requires
        a >= 0,
        ls >= 0,
        0 <= num <= den,
        den > 0,
    ensures
        scaled_pos(a + ls, num, den) - scaled_pos(a, num, den) <= ls,
        scaled_pos(a, num, den) <= scaled_pos(a + ls, num, den),
{
    let d2 = 2 * den;
    let x = 2 * (a * num) + den;
    assert((a + ls) * num == a * num + ls * num) by (nonlinear_arith);
    assert(ls * num <= ls * den && a * num >= 0 && ls * num >= 0) by (nonlinear_arith)
        requires
            0 <= num <= den,
            ls >= 0,
            a >= 0,
    ;
    assert(2 * ((a + ls) * num) + den <= x + ls * d2) by (nonlinear_arith)
        requires
            (a + ls) * num == a * num + ls * num,
            ls * num <= ls * den,
            x == 2 * (a * num) + den,
            d2 == 2 * den,
    ;
    vstd::arithmetic::div_mod::lemma_div_is_ordered(2 * ((a + ls) * num) + den, x + ls * d2, d2);
    vstd::arithmetic::div_mod::lemma_hoist_over_denominator(x, ls, d2 as nat);
    crate::pen::lemma_scaled_pos_ordered(a, a + ls, num, den);
}

/// Rescaling the generated rects of regular lines walks the same positions as generating
/// them did, before scaling.
proof fn lemma_scale_retraces(pen: GridPen, q: GridPen, sizes: Seq<ImageSize>, num: int, den: int, k: nat)
    requires
        regular_lines(pen, sizes.len() as int),
        crate::pen::nondegenerate(pen.axis, sizes),
        layout_fits(pen, sizes),
        sizes.len() > 0,
        k <= sizes.len(),
        q.axis == pen.axis,
        q.line_length == pen.line_length,
    ensures
        ({
            let g = pen_walk(pen, sizes, k);
            let s = scale_walk(q, generated(pen, sizes).1, num, den, k);
            s.main == g.main && s.cross == g.cross && s.on_line == g.on_line
        }),
    decreases k,
{
    if k > 0 {
        let j = (k - 1) as nat;
        lemma_scale_retraces(pen, q, sizes, num, den, j);
        lemma_placed_fields(pen, sizes, j as int);
        lemma_walk_shape(pen, sizes, j);
        vstd::arithmetic::div_mod::lemma_div_is_ordered(j as int, sizes.len() - 1, pen.line_length as int);
        let r = generated(pen, sizes).1[j as int];
        assert(r == placed(pen, sizes, j as int));
        assert(rect_main(pen.axis, r) == scaled_extent(pen.axis, sizes[j as int], pen.line_size_pixels as int));
        assert(rect_cross(pen.axis, r) == pen.line_size_pixels);
    }
}

/// While rescaling planned, generated rects, the longest line so far is at most the scaled
/// longest unscaled line, and the line size at most the unscaled one; in a single line, at
/// most the scaled unscaled one.
proof fn lemma_scale_walk_bounds(
    pen: GridPen,
    q: GridPen,
    sizes: Seq<ImageSize>,
    num: int,
    den: int,
    k: nat,
)
    requires
        regular_lines(pen, sizes.len() as int),
        crate::pen::nondegenerate(pen.axis, sizes),
        layout_fits(pen, sizes),
        sizes.len() > 0,
        k <= sizes.len(),
        q.axis == pen.axis,
        q.line_length == pen.line_length,
        0 <= num <= den,
        den > 0,
    ensures
        ({
            let s = scale_walk(q, generated(pen, sizes).1, num, den, k);
            let ls = pen.line_size_pixels as int;
            &&& 0 <= s.longest <= scaled_pos(longest_line(pen, sizes), num, den)
            &&& 0 <= s.line_size <= ls
            &&& pen.line_count <= 1 ==> s.line_size <= scaled_pos(ls, num, den)
        }),
    decreases k,
{
    let ls = pen.line_size_pixels as int;
    let big_l = longest_line(pen, sizes);
    lemma_reach_bounded(pen, sizes, sizes.len());
    crate::pen::lemma_scaled_pos_ordered(0, big_l, num, den);
    crate::pen::lemma_scaled_pos_ordered(0, ls, num, den);
    lemma_scaled_at_most(0, num, den, 0);
    if k > 0 {
        let j = (k - 1) as nat;
        lemma_scale_walk_bounds(pen, q, sizes, num, den, j);
        lemma_scale_retraces(pen, q, sizes, num, den, j);
        lemma_placed_fields(pen, sizes, j as int);
        lemma_walk_shape(pen, sizes, j);
        lemma_end_within(pen, sizes, j as int);
        let g = pen_walk(pen, sizes, j);
        let r = generated(pen, sizes).1[j as int];
        assert(r == placed(pen, sizes, j as int));
        let ext = scaled_extent(pen.axis, sizes[j as int], ls);
        assert(cross_of(pen.axis, sizes[j as int]) > 0);
        lemma_extent_nonneg(pen.axis, sizes[j as int], ls);
        assert(rect_main(pen.axis, r) == ext);
        assert(rect_cross(pen.axis, r) == ls);
        assert(g.cross >= 0) by (nonlinear_arith)
            requires
                g.cross == g.line * ls,
                g.line >= 0,
                ls >= 0,
        ;
        crate::pen::lemma_scaled_pos_ordered(0, g.main + ext, num, den);
        crate::pen::lemma_scaled_pos_ordered(g.main + ext, big_l, num, den);
        lemma_scaled_span(g.cross, ls, num, den);
        if pen.line_count <= 1 {
            vstd::arithmetic::div_mod::lemma_div_is_ordered(j as int, sizes.len() - 1, pen.line_length as int);
            assert(g.line == 0);
            assert(g.cross == 0) by (nonlinear_arith)
                requires
                    g.line == 0,
                    g.cross == g.line * ls,
            ;
        }
    }
}

/// Rescaling a planned layout never enlarges it: the canvas comes out no larger than before
/// in either dimension, no longer along the main axis than the limit allows, and, where the
/// images stand in a single line, no larger across it than the limit allows.
pub proof fn lemma_rescale_never_grows(
    alignment: AlignmentMode,
    sizes: Seq<ImageSize>,
    pen: GridPen,
    width_limit: int,
    height_limit: int,
)
    requires
        all_nondegenerate(sizes),
        planned_pen(alignment, sizes, pen),
        layout_fits(pen, sizes),
        width_limit >= 0,
        height_limit >= 0,
    ensures
        ({
            let (unscaled_pen, unscaled_rects) = generated(pen, sizes);
            let (scaled_pen, scaled_rects) = rescale(unscaled_pen, unscaled_rects, width_limit, height_limit);
            &&& total_width(scaled_pen) <= total_width(unscaled_pen)
            &&& total_height(scaled_pen) <= total_height(unscaled_pen)
            &&& (unscaled_pen.axis == Axis::Horizontal || unscaled_pen.line_count <= 1) ==> total_width(scaled_pen) <= allowed(
                total_width(unscaled_pen),
                width_limit,
            )
            &&& (unscaled_pen.axis == Axis::Vertical || unscaled_pen.line_count <= 1) ==> total_height(scaled_pen) <= allowed(
                total_height(unscaled_pen),
                height_limit,
            )
        }),
{
    lemma_planned_regular(alignment, sizes, pen);
    assert(crate::pen::nondegenerate(pen.axis, sizes)) by {
        assert forall|k: int| 0 <= k < sizes.len() implies cross_of(pen.axis, #[trigger] sizes[k]) > 0 by {
            assert(sizes[k].w > 0 && sizes[k].h > 0);
        }
    }
    let (unscaled_pen, unscaled_rects) = generated(pen, sizes);
    let ls = pen.line_size_pixels as int;
    let lc = pen.line_count as int;
    lemma_reach_bounded(pen, sizes, sizes.len());
    let big_l = longest_line(pen, sizes);
    assert(unscaled_pen.longest_line_length_pixels == big_l);
    assert(lc * ls >= 0) by (nonlinear_arith)
        requires
            lc >= 0,
            ls >= 0,
    ;
    if !fits_limits(unscaled_pen, width_limit, height_limit) {
        lemma_scale_ratio(unscaled_pen, width_limit, height_limit);
        let (num, den) = scale_ratio(unscaled_pen, width_limit, height_limit);
        let n = sizes.len();
        let (main_total, main_limit, cross_total, cross_limit) = match pen.axis {
            Axis::Horizontal => (total_width(unscaled_pen), width_limit, total_height(unscaled_pen), height_limit),
            Axis::Vertical => (total_height(unscaled_pen), height_limit, total_width(unscaled_pen), width_limit),
        };
        assert(main_total == big_l && cross_total == lc * ls);
        if n == 0 {
            assert(big_l == 0);
            assert(scale_walk(unscaled_pen, unscaled_rects, num, den, 0).line_size == 0);
        } else {
            lemma_scale_walk_bounds(pen, unscaled_pen, sizes, num, den, n);
        }
        let s = scale_walk(unscaled_pen, unscaled_rects, num, den, n);
        // along the main axis
        assert(big_l * num <= big_l * den) by (nonlinear_arith)
            requires
                0 <= num <= den,
                big_l >= 0,
        ;
        lemma_scaled_at_most(big_l, num, den, big_l);
        lemma_scaled_at_most(big_l, num, den, allowed(main_total, main_limit));
        // across it
        assert(lc * s.line_size <= lc * ls) by (nonlinear_arith)
            requires
                0 <= s.line_size <= ls,
                lc >= 0,
        ;
        if lc <= 1 {
            if lc == 1 {
                assert(cross_total == ls) by (nonlinear_arith)
                    requires
                        lc == 1,
                        cross_total == lc * ls,
                ;
                lemma_scaled_at_most(ls, num, den, allowed(cross_total, cross_limit));
            }
            assert(lc * s.line_size <= allowed(cross_total, cross_limit)) by (nonlinear_arith)
                requires
                    lc == 0 || lc == 1,
                    lc == 1 ==> s.line_size <= allowed(cross_total, cross_limit),
                    allowed(cross_total, cross_limit) >= 0,
            ;
        }
    }
}

/// The rescaling walk's longest line and line size never shrink.
proof fn lemma_scale_walk_grows(
    q: GridPen,
    rects: Seq<crate::layout::ImageRect>,
    num: int,
    den: int,
    j: nat,
    k: nat,
)
    requires
        j <= k <= rects.len(),
    ensures
        scale_walk(q, rects, num, den, j).longest <= scale_walk(q, rects, num, den, k).longest,
        scale_walk(q, rects, num, den, j).line_size <= scale_walk(q, rects, num, den, k).line_size,
    decreases k - j,
{
    if j < k {
        lemma_scale_walk_grows(q, rects, num, den, j + 1, k);
    }
}

/// The rescaled rect of image `k`, as positions of the generating walk scaled and rounded.
proof fn lemma_rescaled_fields(
    pen: GridPen,
    q: GridPen,
    sizes: Seq<ImageSize>,
    num: int,
    den: int,
    k: int,
)
    requires
        regular_lines(pen, sizes.len() as int),
        crate::pen::nondegenerate(pen.axis, sizes),
        layout_fits(pen, sizes),
        0 <= k < sizes.len(),
        q.axis == pen.axis,
        q.line_length == pen.line_length,
        0 <= num <= den,
        den > 0,
    ensures
        ({
            let g = pen_walk(pen, sizes, k as nat);
            let ls = pen.line_size_pixels as int;
            let ext = scaled_extent(pen.axis, sizes[k], ls);
            let m0 = scaled_pos(g.main, num, den);
            let m1 = scaled_pos(g.main + ext, num, den);
            let c0 = scaled_pos(g.cross, num, den);
            let c1 = scaled_pos(g.cross + ls, num, den);
            let s = scale_walk(q, generated(pen, sizes).1, num, den, (k + 1) as nat);
            &&& 0 <= m0 <= m1 <= U32_MAX
            &&& 0 <= c0 <= c1 <= U32_MAX
            &&& m1 <= s.longest
            &&& c1 - c0 <= s.line_size
            &&& crate::layout::rect_is(
                pen.axis,
                crate::pen::rescaled(q, generated(pen, sizes).1, num, den, k),
                m0,
                c0,
                m1 - m0,
                c1 - c0,
            )
        }),
{
    let ls = pen.line_size_pixels as int;
    lemma_scale_retraces(pen, q, sizes, num, den, k as nat);
    lemma_placed_fields(pen, sizes, k);
    lemma_walk_shape(pen, sizes, k as nat);
    let g = pen_walk(pen, sizes, k as nat);
    let r = generated(pen, sizes).1[k];
    assert(r == placed(pen, sizes, k));
    let ext = scaled_extent(pen.axis, sizes[k], ls);
    assert(cross_of(pen.axis, sizes[k]) > 0);
    lemma_extent_nonneg(pen.axis, sizes[k], ls);
    assert(g.cross >= 0) by (nonlinear_arith)
        requires
            g.cross == g.line * ls,
            g.line >= 0,
            ls >= 0,
    ;
    lemma_scaled_at_most(0, num, den, 0);
    crate::pen::lemma_scaled_pos_ordered(0, g.main, num, den);
    crate::pen::lemma_scaled_pos_ordered(g.main, g.main + ext, num, den);
    crate::pen::lemma_scaled_pos_ordered(0, g.cross, num, den);
    crate::pen::lemma_scaled_pos_ordered(g.cross, g.cross + ls, num, den);
}

/// The rounded start of each line is at most the line number times the largest line size.
proof fn lemma_line_starts(
    pen: GridPen,
    q: GridPen,
    sizes: Seq<ImageSize>,
    num: int,
    den: int,
    line: int,
)
    requires
        regular_lines(pen, sizes.len() as int),
        crate::pen::nondegenerate(pen.axis, sizes),
        layout_fits(pen, sizes),
        sizes.len() > 0,
        0 <= line,
        line * (pen.line_length as int) < sizes.len(),
        q.axis == pen.axis,
        q.line_length == pen.line_length,
        0 <= num <= den,
        den > 0,
    ensures
        scaled_pos((line + 1) * pen.line_size_pixels, num, den) <= (line + 1) * scale_walk(
            q,
            generated(pen, sizes).1,
            num,
            den,
            sizes.len(),
        ).line_size,
    decreases line,
{
    let ls = pen.line_size_pixels as int;
    let t = pen.line_length as int;
    let n = sizes.len();
    let big_h = scale_walk(q, generated(pen, sizes).1, num, den, n).line_size;
    // the first image of the line shows the line's rounded height
    let k = line * t;
    assert(0 <= k) by (nonlinear_arith)
        requires
            line >= 0,
            t >= 1,
            k == line * t,
    ;
    lemma_walk_shape(pen, sizes, k as nat);
    vstd::arithmetic::div_mod::lemma_fundamental_div_mod_converse(k, t, line, 0);
    lemma_rescaled_fields(pen, q, sizes, num, den, k);
    lemma_scale_walk_grows(q, generated(pen, sizes).1, num, den, (k + 1) as nat, n);
    let g = pen_walk(pen, sizes, k as nat);
    assert(g.cross == line * ls);
    assert(line * ls + ls == (line + 1) * ls) by (nonlinear_arith);
    let c0 = scaled_pos(line * ls, num, den);
    let c1 = scaled_pos((line + 1) * ls, num, den);
    assert(c1 - c0 <= big_h);
    if line == 0 {
        assert(0 * num <= 0 * den) by (nonlinear_arith);
        lemma_scaled_at_most(0, num, den, 0);
        assert(line * ls == 0) by (nonlinear_arith)
            requires
                line == 0,
        ;
        assert(c0 <= 0);
        assert((line + 1) * big_h == big_h) by (nonlinear_arith)
            requires
                line == 0,
        ;
    } else {
        assert((line - 1) * t < n) by (nonlinear_arith)
            requires
                line * t < n,
                t >= 1,
                line >= 1,
        ;
        lemma_line_starts(pen, q, sizes, num, den, line - 1);
        assert((line - 1 + 1) * ls == line * ls);
        assert(c0 <= line * big_h);
        assert(line * big_h + big_h == (line + 1) * big_h) by (nonlinear_arith);
    }
}

/// Every rect of a rescaled planned layout lies on the rescaled canvas, and no two of them
/// overlap.
pub proof fn lemma_rescaled_rects_disjoint(
    alignment: AlignmentMode,
    sizes: Seq<ImageSize>,
    pen: GridPen,
    width_limit: int,
    height_limit: int,
)
    requires
        all_nondegenerate(sizes),
        planned_pen(alignment, sizes, pen),
        layout_fits(pen, sizes),
        width_limit >= 0,
        height_limit >= 0,
    ensures
        ({
            let (unscaled_pen, unscaled_rects) = generated(pen, sizes);
            let (scaled_pen, scaled_rects) = rescale(unscaled_pen, unscaled_rects, width_limit, height_limit);
            &&& forall|k: int|
                0 <= k < scaled_rects.len() ==> rect_within(#[trigger] scaled_rects[k], total_width(scaled_pen), total_height(scaled_pen))
            &&& forall|i: int, j: int|
                0 <= i < j < scaled_rects.len() ==> rects_disjoint(#[trigger] scaled_rects[i], #[trigger] scaled_rects[j])
        }),
{
    lemma_generated_rects_disjoint(alignment, sizes, pen);
    lemma_planned_regular(alignment, sizes, pen);
    assert(crate::pen::nondegenerate(pen.axis, sizes)) by {
        assert forall|k: int| 0 <= k < sizes.len() implies cross_of(pen.axis, #[trigger] sizes[k]) > 0 by {
            assert(sizes[k].w > 0 && sizes[k].h > 0);
        }
    }
    let (unscaled_pen, unscaled_rects) = generated(pen, sizes);
    if !fits_limits(unscaled_pen, width_limit, height_limit) {
        lemma_reach_bounded(pen, sizes, sizes.len());
        assert(unscaled_pen.longest_line_length_pixels == longest_line(pen, sizes));
        assert(pen.line_count * pen.line_size_pixels >= 0) by (nonlinear_arith)
            requires
                pen.line_count >= 0,
                pen.line_size_pixels >= 0,
        ;
        lemma_scale_ratio(unscaled_pen, width_limit, height_limit);
        let (num, den) = scale_ratio(unscaled_pen, width_limit, height_limit);
        let n = sizes.len();
        let (scaled_pen, scaled_rects) = rescale(unscaled_pen, unscaled_rects, width_limit, height_limit);
        let t = pen.line_length as int;
        let ls = pen.line_size_pixels as int;
        let lc = pen.line_count as int;
        if n > 0 {
            lemma_scale_walk_bounds(pen, unscaled_pen, sizes, num, den, n);
            let s = scale_walk(unscaled_pen, unscaled_rects, num, den, n);
            assert(scaled_pen.longest_line_length_pixels == s.longest);
            assert(scaled_pen.line_size_pixels == s.line_size);
            assert forall|k: int| 0 <= k < scaled_rects.len() implies rect_within(
                #[trigger] scaled_rects[k],
                total_width(scaled_pen),
                total_height(scaled_pen),
            ) by {
                lemma_rescaled_fields(pen, unscaled_pen, sizes, num, den, k);
                lemma_scale_walk_grows(unscaled_pen, unscaled_rects, num, den, (k + 1) as nat, n);
                lemma_walk_shape(pen, sizes, k as nat);
                let line = pen_walk(pen, sizes, k as nat).line;
                vstd::arithmetic::div_mod::lemma_fundamental_div_mod(k, t);
                vstd::arithmetic::div_mod::lemma_mod_bound(k, t);
                assert(line * t <= k) by (nonlinear_arith)
                    requires
                        k == t * line + k % t,
                        k % t >= 0,
                ;
                lemma_line_starts(pen, unscaled_pen, sizes, num, den, line);
                vstd::arithmetic::div_mod::lemma_div_is_ordered(k, n - 1, t);
                assert(line * ls + ls == (line + 1) * ls) by (nonlinear_arith);
                assert((line + 1) * s.line_size <= lc * s.line_size) by (nonlinear_arith)
                    requires
                        line + 1 <= lc,
                        s.line_size >= 0,
                ;
            }
            assert forall|i: int, j: int| 0 <= i < j < scaled_rects.len() implies rects_disjoint(
                #[trigger] scaled_rects[i],
                #[trigger] scaled_rects[j],
            ) by {
                lemma_rescaled_fields(pen, unscaled_pen, sizes, num, den, i);
                lemma_rescaled_fields(pen, unscaled_pen, sizes, num, den, j);
                lemma_walk_shape(pen, sizes, i as nat);
                lemma_walk_shape(pen, sizes, j as nat);
                vstd::arithmetic::div_mod::lemma_div_is_ordered(i, j, t);
                let gi = pen_walk(pen, sizes, i as nat);
                let gj = pen_walk(pen, sizes, j as nat);
                assert(cross_of(pen.axis, sizes[i]) > 0);
                lemma_extent_nonneg(pen.axis, sizes[i], ls);
                if gi.line == gj.line {
                    lemma_same_line_ordered(pen, sizes, i, j);
                    crate::pen::lemma_scaled_pos_ordered(end_of(pen, sizes, i), gj.main, num, den);
                } else {
                    assert(gi.line * ls + ls <= gj.line * ls) by (nonlinear_arith)
                        requires
                            gi.line + 1 <= gj.line,
                            ls >= 0,
                    ;
                    assert(gi.cross >= 0) by (nonlinear_arith)
                        requires
                            gi.cross == gi.line * ls,
                            gi.line >= 0,
                            ls >= 0,
                    ;
                    crate::pen::lemma_scaled_pos_ordered(gi.cross + ls, gj.cross, num, den);
                }
            }
        }
    }
}

/// A planned layout whose images stand in one line fits the limits once rescaled, so
/// rescaling it again with the same limits changes nothing.
pub proof fn lemma_single_line_rescale_settles(
    alignment: AlignmentMode,
    sizes: Seq<ImageSize>,
    pen: GridPen,
    width_limit: int,
    height_limit: int,
)
    requires
        all_nondegenerate(sizes),
        planned_pen(alignment, sizes, pen),
        layout_fits(pen, sizes),
        pen.line_count <= 1,
        width_limit >= 0,
        height_limit >= 0,
    ensures
        ({
            let (unscaled_pen, unscaled_rects) = generated(pen, sizes);
            let (scaled_pen, scaled_rects) = rescale(unscaled_pen, unscaled_rects, width_limit, height_limit);
            &&& fits_limits(scaled_pen, width_limit, height_limit)
            &&& rescale(scaled_pen, scaled_rects, width_limit, height_limit) == (scaled_pen, scaled_rects)
        }),
{
    lemma_rescale_never_grows(alignment, sizes, pen, width_limit, height_limit);
}

/// The sum of the scaled extents of images `a` up to, not including, `b`.
pub open spec fn extent_sum(pen: GridPen, sizes: Seq<ImageSize>, a: int, b: int) -> int
    decreases b - a,
{
    if b <= a {
        0
    } else {
        extent_sum(pen, sizes, a, b - 1) + scaled_extent(
            pen.axis,
            sizes[b - 1],
            pen.line_size_pixels as int,
        )
    }
}

/// Under regular lines the pen's main position before image `k` is the sum of the extents
/// of the images before it on its line.
proof fn lemma_walk_main(pen: GridPen, sizes: Seq<ImageSize>, k: nat)
    requires
        regular_lines(pen, sizes.len() as int),
        crate::pen::nondegenerate(pen.axis, sizes),
        sizes.len() > 0,
        k <= sizes.len(),
    ensures
        pen_walk(pen, sizes, k).main == extent_sum(
            pen,
            sizes,
            k - k as int % (pen.line_length as int),
            k as int,
        ),
    decreases k,
{
    let t = pen.line_length as int;
    lemma_walk_shape(pen, sizes, k);
    if k == 0 {
        vstd::arithmetic::div_mod::lemma_fundamental_div_mod_converse(0, t, 0, 0);
    } else {
        let j = (k - 1) as nat;
        lemma_walk_main(pen, sizes, j);
        lemma_walk_shape(pen, sizes, j);
        vstd::arithmetic::div_mod::lemma_fundamental_div_mod(j as int, t);
        vstd::arithmetic::div_mod::lemma_mod_bound(j as int, t);
        vstd::arithmetic::div_mod::lemma_div_is_ordered(j as int, sizes.len() - 1, t);
        let q = j as int / t;
        let r = j as int % t;
        if r + 1 == t {
            assert(k as int == t * (q + 1) + 0) by (nonlinear_arith)
                requires
                    j as int == t * q + r,
                    r + 1 == t,
                    k == j + 1,
            ;
            vstd::arithmetic::div_mod::lemma_fundamental_div_mod_converse(k as int, t, q + 1, 0);
        } else {
            assert(k as int == q * t + (r + 1)) by (nonlinear_arith)
                requires
                    j as int == t * q + r,
                    k == j + 1,
            ;
            vstd::arithmetic::div_mod::lemma_fundamental_div_mod_converse(k as int, t, q, r + 1);
        }
    }
}

/// Where a planned pen puts image `k`: on line `k / t`, `t` the images per line, at that
/// line times the line size across the main axis, and along it at the sum of the extents of
/// the images before it on the same line; with its own scaled extent and the line size.
pub proof fn lemma_placement(alignment: AlignmentMode, sizes: Seq<ImageSize>, pen: GridPen, k: int)
    requires
        all_nondegenerate(sizes),
        planned_pen(alignment, sizes, pen),
        0 <= k < sizes.len(),
    ensures
        ({
            let t = pen.line_length as int;
            let ls = pen.line_size_pixels as int;
            let line = k / t;
            &&& t >= 1
            &&& pen_walk(pen, sizes, k as nat).line == line
            &&& pen_walk(pen, sizes, k as nat).cross == line * ls
            &&& pen_walk(pen, sizes, k as nat).main == extent_sum(pen, sizes, line * t, k)
            &&& placed(pen, sizes, k) == crate::layout::rect_from(
                pen.axis,
                extent_sum(pen, sizes, line * t, k),
                line * ls,
                scaled_extent(pen.axis, sizes[k], ls),
                ls,
            )
            &&& generated(pen, sizes).1[k] == placed(pen, sizes, k)
        }),
{
    lemma_planned_regular(alignment, sizes, pen);
    assert(crate::pen::nondegenerate(pen.axis, sizes)) by {
        assert forall|i: int| 0 <= i < sizes.len() implies cross_of(pen.axis, #[trigger] sizes[i]) > 0 by {
            assert(sizes[i].w > 0 && sizes[i].h > 0);
        }
    }
    let t = pen.line_length as int;
    lemma_walk_shape(pen, sizes, k as nat);
    lemma_walk_main(pen, sizes, k as nat);
    vstd::arithmetic::div_mod::lemma_fundamental_div_mod(k, t);
    assert(k - k % t == (k / t) * t) by (nonlinear_arith)
        requires
            k == t * (k / t) + k % t,
    ;
}

} // verus!
