use image::imageops::FilterType;
use image::DynamicImage;
use stitchy::{
    find_smallest_image_height, find_smallest_image_width, lay_out, make_axis_pen, AlignmentMode, AspectType, Axis, GridPen, HorizontalGridPen,
    ImageRect, ImageSize, Stitch, StitchBuilder, VerticalGridPen,
};

fn create_stitch(image_count: usize, alignment: AlignmentMode) -> Stitch {
    let images: Vec<DynamicImage> = (0..image_count)
        .map(|_| DynamicImage::new_rgba8(1, 1))
        .collect();
    Stitch::new(images, alignment, 0, 0, FilterType::Lanczos3).unwrap()
}

fn sizes(dims: &[(u32, u32)]) -> Vec<ImageSize> {
    dims.iter().map(|&(w, h)| ImageSize::new(w, h)).collect()
}

fn layout_of(dims: &[(u32, u32)], alignment: AlignmentMode, wl: u32, hl: u32) -> (GridPen, Vec<ImageRect>) {
    let sizes = sizes(dims);
    let pen = make_axis_pen(alignment, &sizes);
    lay_out(pen, &sizes, wl, hl).unwrap()
}

fn images_of(dims: &[(u32, u32)]) -> Vec<DynamicImage> {
    dims.iter().map(|&(w, h)| DynamicImage::new_rgba8(w, h)).collect()
}

#[test]
fn check_horizontal_and_vertical_resizing() {
    for count in 0..=10 {
        let stitch = create_stitch(count, AlignmentMode::Horizontal);
        let pen = stitch.get_axis_pen();
        let expected = (count, 1, 1);
        assert_eq!(
            expected,
            (
                pen.get_images_per_line(),
                pen.get_line_count(),
                pen.get_lines_at_full_size()
            ),
            "{} images should be one filled row",
            count
        );
    }
}

#[test]
fn check_grid_resizing() {
    let sizes: [(usize, (usize, usize, usize)); 17] = [
        (0, (1, 0, 0)),
        (1, (1, 1, 1)),
        (2, (2, 1, 1)),
        (3, (2, 2, 1)),
        (4, (2, 2, 2)),
        (5, (3, 2, 1)),
        (6, (3, 2, 2)),
        (7, (3, 3, 2)),
        (8, (3, 3, 2)),
        (9, (3, 3, 3)),
        (10, (4, 3, 2)),
        (11, (4, 3, 2)),
        (12, (4, 3, 3)),
        (13, (4, 4, 3)),
        (14, (4, 4, 3)),
        (15, (4, 4, 3)),
        (16, (4, 4, 4)),
    ];
    for (count, expected_dimensions) in sizes.into_iter() {
        let stitch = create_stitch(count, AlignmentMode::Grid);
        let pen = stitch.get_axis_pen();
        assert_eq!(
            expected_dimensions,
            (
                pen.get_images_per_line(),
                pen.get_line_count(),
                pen.get_lines_at_full_size()
            ),
            "{} images should be {}x{}, {} row(s) filled",
            count,
            expected_dimensions.0,
            expected_dimensions.1,
            expected_dimensions.2
        );
    }
}

#[test]
fn tests_test_output_dimensions() {
    // Three identically-sized images of 1080 x 2280 in a row
    let process_result = Stitch::builder()
        .images(images_of(&[(1080, 2280), (1080, 2280), (1080, 2280)]))
        .alignment(AlignmentMode::Horizontal)
        .stitch()
        .unwrap();
    assert_eq!(process_result.width(), 3240);
    assert_eq!(process_result.height(), 2280);

    // One image of 1080 x 1080, then two of 1080 x 2280 which scale down to 511 wide
    let process_result = Stitch::builder()
        .images(images_of(&[(1080, 1080), (1080, 2280), (1080, 2280)]))
        .alignment(AlignmentMode::Horizontal)
        .stitch()
        .unwrap();
    assert_eq!(process_result.width(), 2102);
    assert_eq!(process_result.height(), 1080);

    // All four in a grid: two rows, the lower one 511 + 1080 wide
    let process_result = Stitch::builder()
        .images(images_of(&[(1080, 2280), (1080, 2280), (1080, 2280), (1080, 1080)]))
        .stitch()
        .unwrap();
    assert_eq!(process_result.width(), 1591);
    assert_eq!(process_result.height(), 2160);
}

#[test]
fn aspect_classes_follow_ratio_bounds() {
    assert_eq!(AspectType::get_aspect_from_dims(126, 100), AspectType::Wide);
    assert_eq!(AspectType::get_aspect_from_dims(125, 100), AspectType::Squarish);
    assert_eq!(AspectType::get_aspect_from_dims(80, 100), AspectType::Squarish);
    assert_eq!(AspectType::get_aspect_from_dims(79, 100), AspectType::Portrait);
    assert_eq!(AspectType::get_aspect_from_dims(1080, 2280), AspectType::Portrait);
}

#[test]
fn grid_shape_bounds_hold_for_many_counts() {
    for n in 0..200usize {
        let dims: Vec<(u32, u32)> = (0..n).map(|_| (10, 10)).collect();
        let pen = make_axis_pen(AlignmentMode::Grid, &sizes(&dims));
        let t = pen.get_images_per_line();
        assert!(t >= 1 && t * t >= n && (t == 1 || (t - 1) * (t - 1) < n));
        assert!(t * pen.get_lines_at_full_size() <= n);
        assert!(n <= t * pen.get_line_count());
    }
}

#[test]
fn single_line_alignments_hold_every_image() {
    for n in 0..12usize {
        let dims: Vec<(u32, u32)> = (0..n).map(|_| (30, 20)).collect();
        let h = make_axis_pen(AlignmentMode::Horizontal, &sizes(&dims));
        let v = make_axis_pen(AlignmentMode::Vertical, &sizes(&dims));
        assert_eq!((h.line_count, h.line_length, h.axis), (1, n, Axis::Horizontal));
        assert_eq!((v.line_count, v.line_length, v.axis), (1, n, Axis::Vertical));
    }
}

#[test]
fn three_equal_portraits_in_a_row() {
    let (pen, rects) = layout_of(&[(1080, 2280); 3], AlignmentMode::Horizontal, 0, 0);
    assert_eq!(pen.axis, Axis::Horizontal);
    assert_eq!(pen.line_size_pixels, 2280);
    let out = pen.get_output_dimensions();
    assert_eq!((out.w, out.h), (3240, 2280));
    assert_eq!(rects[2], ImageRect { x: 2160, y: 0, w: 1080, h: 2280 });
}

#[test]
fn mixed_heights_scale_to_smallest() {
    let (pen, rects) =
        layout_of(&[(1080, 1080), (1080, 2280), (1080, 2280)], AlignmentMode::Horizontal, 0, 0);
    assert_eq!(pen.line_size_pixels, 1080);
    assert_eq!(rects[1].w, 511);
    assert_eq!(rects[2], ImageRect { x: 1591, y: 0, w: 511, h: 1080 });
    let out = pen.get_output_dimensions();
    assert_eq!((out.w, out.h), (2102, 1080));
}

#[test]
fn four_equal_images_make_two_full_rows() {
    let (pen, rects) = layout_of(&[(200, 200); 4], AlignmentMode::Grid, 0, 0);
    assert_eq!(pen.axis, Axis::Horizontal);
    assert_eq!(
        (pen.get_images_per_line(), pen.get_line_count(), pen.get_lines_at_full_size()),
        (2, 2, 2)
    );
    assert_eq!(rects[3], ImageRect { x: 200, y: 200, w: 200, h: 200 });
}

#[test]
fn wide_images_stack_in_columns() {
    let (pen, rects) = layout_of(&[(400, 100); 4], AlignmentMode::Grid, 0, 0);
    assert_eq!(pen.axis, Axis::Vertical);
    assert_eq!(rects[1], ImageRect { x: 0, y: 100, w: 400, h: 100 });
    assert_eq!(rects[2], ImageRect { x: 400, y: 0, w: 400, h: 100 });
    let out = pen.get_output_dimensions();
    assert_eq!((out.w, out.h), (800, 200));
}

#[test]
fn width_limit_scales_both_dimensions() {
    let (pen, rects) = layout_of(&[(200, 200), (200, 200)], AlignmentMode::Horizontal, 100, 0);
    let out = pen.get_output_dimensions();
    assert_eq!((out.w, out.h), (100, 50));
    assert_eq!(rects[0], ImageRect { x: 0, y: 0, w: 50, h: 50 });
    assert_eq!(rects[1], ImageRect { x: 50, y: 0, w: 50, h: 50 });
}

#[test]
fn rescale_never_upscales_and_respects_limits() {
    let (pen, _) = layout_of(&[(200, 200), (200, 200)], AlignmentMode::Horizontal, 1000, 1000);
    let out = pen.get_output_dimensions();
    assert_eq!((out.w, out.h), (400, 200));
    let (pen, _) = layout_of(&[(300, 200); 5], AlignmentMode::Grid, 0, 333);
    let out = pen.get_output_dimensions();
    assert!(out.h <= 333 && out.w <= 900);
}

#[test]
fn rescaling_a_fitting_layout_changes_nothing() {
    let (mut pen, rects) =
        layout_of(&[(1080, 1080), (1080, 2280), (1080, 2280)], AlignmentMode::Horizontal, 700, 0);
    let before = pen;
    let again = pen.scale_image_rects(rects.clone(), 700, 0);
    assert_eq!(again, rects);
    assert_eq!(pen, before);
}

#[test]
fn rounding_follows_cumulative_position() {
    // Three images 10 wide scaled by 1/3: edges at 3.33, 6.67 and 10 round to 3, 7 and 10
    let mut pen = HorizontalGridPen::new(3, 1, 1, 30);
    let rects = pen.generate_output_rects(&sizes(&[(10, 30); 3])).unwrap();
    let scaled = pen.scale_image_rects(rects, 10, 0);
    let widths: Vec<u32> = scaled.iter().map(|r| r.w).collect();
    assert_eq!(widths, vec![3, 4, 3]);
    assert_eq!(scaled[2].x, 7);
}

#[test]
fn rects_do_not_overlap_and_stay_on_canvas() {
    let dims = [(640, 480), (480, 640), (1000, 1000), (123, 457), (999, 1), (50, 60), (70, 40)];
    for alignment in [AlignmentMode::Grid, AlignmentMode::Horizontal, AlignmentMode::Vertical] {
        for (wl, hl) in [(0, 0), (500, 0), (0, 300), (257, 311)] {
            let (pen, rects) = layout_of(&dims, alignment, wl, hl);
            let out = pen.get_output_dimensions();
            for (i, a) in rects.iter().enumerate() {
                assert!(a.x + a.w <= out.w && a.y + a.h <= out.h);
                for b in rects.iter().skip(i + 1) {
                    let apart = a.x + a.w <= b.x || b.x + b.w <= a.x || a.y + a.h <= b.y || b.y + b.h <= a.y;
                    assert!(apart);
                }
            }
        }
    }
}

#[test]
fn vertical_pen_places_images_down_the_column() {
    let mut pen = VerticalGridPen::new(2, 1, 1, 100);
    let rects = pen.generate_output_rects(&sizes(&[(200, 100), (100, 300)])).unwrap();
    assert_eq!(rects[0], ImageRect { x: 0, y: 0, w: 100, h: 50 });
    assert_eq!(rects[1], ImageRect { x: 0, y: 50, w: 100, h: 300 });
    let out = pen.get_output_dimensions();
    assert_eq!((out.w, out.h), (100, 350));
}

#[test]
fn oversized_layout_is_refused() {
    let mut pen = HorizontalGridPen::new(3, 1, 1, 10);
    let before = pen;
    let result = pen.generate_output_rects(&sizes(&[(u32::MAX, 10), (u32::MAX, 10)]));
    assert!(result.is_none());
    assert_eq!(pen, before);
}

#[test]
fn empty_input_is_an_error() {
    assert!(StitchBuilder::default().stitch().is_err());
}

#[test]
fn degenerate_image_is_an_error() {
    let images = vec![DynamicImage::new_rgba8(10, 10), DynamicImage::new_rgba8(0, 10)];
    assert!(Stitch::new(images, AlignmentMode::Grid, 0, 0, FilterType::Nearest).is_err());
}

#[test]
fn stitch_paints_each_image_in_place() {
    let mut red = DynamicImage::new_rgba8(4, 4);
    let mut blue = DynamicImage::new_rgba8(4, 4);
    for x in 0..4 {
        for y in 0..4 {
            red.as_mut_rgba8().unwrap().put_pixel(x, y, image::Rgba([255, 0, 0, 255]));
            blue.as_mut_rgba8().unwrap().put_pixel(x, y, image::Rgba([0, 0, 255, 255]));
        }
    }
    let out = Stitch::builder()
        .images(vec![red, blue])
        .alignment(AlignmentMode::Horizontal)
        .resize_filter(FilterType::Nearest)
        .stitch()
        .unwrap()
        .to_rgba8();
    assert_eq!((out.width(), out.height()), (8, 4));
    assert_eq!(out.get_pixel(1, 1).0, [255, 0, 0, 255]);
    assert_eq!(out.get_pixel(6, 2).0, [0, 0, 255, 255]);
}

#[test]
fn rounded_rows_can_pass_a_height_limit() {
    // Two rows of 100 pixels scaled by 101/200: rows of 51 and 50, canvas of 2 * 51
    let (pen, rects) = layout_of(&[(100, 100); 4], AlignmentMode::Grid, 0, 101);
    assert_eq!(rects[0].h, 51);
    assert_eq!(rects[2], ImageRect { x: 0, y: 51, w: 51, h: 50 });
    let out = pen.get_output_dimensions();
    assert_eq!((out.w, out.h), (101, 102));
}

#[test]
fn smallest_sizes_and_sentinel() {
    assert_eq!(find_smallest_image_width(&vec![]), 1);
    assert_eq!(find_smallest_image_height(&vec![]), 1);
    let s = sizes(&[(30, 70), (20, 90), (50, 10)]);
    assert_eq!(find_smallest_image_width(&s), 20);
    assert_eq!(find_smallest_image_height(&s), 10);
}

#[test]
fn empty_input_names_the_problem() {
    match StitchBuilder::default().stitch() {
        Err(e) => assert_eq!(e, "No images to stitch"),
        Ok(_) => panic!("stitching nothing must fail"),
    }
}

#[test]
fn builder_width_limit_shrinks_both_dimensions() {
    let out = Stitch::builder()
        .images(images_of(&[(200, 200), (200, 200)]))
        .alignment(AlignmentMode::Horizontal)
        .width_limit(100)
        .stitch()
        .unwrap();
    assert_eq!((out.width(), out.height()), (100, 50));
}
