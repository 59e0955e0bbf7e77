use vstd::prelude::*;

use image::imageops::FilterType;
use image::{DynamicImage, GenericImage, ImageError};

use crate::bounds::{lemma_generated_rects_disjoint, lemma_rescaled_rects_disjoint, rect_within};
use crate::layout::{AlignmentMode, ImageRect, ImageSize};
use crate::pen::{laid_out, lay_out, total_cross, total_height, total_width, GridPen, U32_MAX};
use crate::plan::{all_nondegenerate, make_axis_pen, plan_for};

verus! {

#[verifier::external_type_specification]
#[verifier::external_body]
pub struct ExDynamicImage(DynamicImage);

#[verifier::external_type_specification]
#[verifier::external_body]
pub struct ExFilterType(FilterType);

#[verifier::external_type_specification]
#[verifier::external_body]
pub struct ExImageError(ImageError);

/// The width and height of an image.
pub uninterp spec fn image_dims(img: DynamicImage) -> (u32, u32);

/// Relies on `DynamicImage::width`, which reads the image's width.
pub assume_specification[ DynamicImage::width ](img: &DynamicImage) -> (r: u32)
    ensures
        r == image_dims(*img).0,
;

/// Relies on `DynamicImage::height`, which reads the image's height.
pub assume_specification[ DynamicImage::height ](img: &DynamicImage) -> (r: u32)
    ensures
        r == image_dims(*img).1,
;

/// Relies on `DynamicImage::new_rgba8`, which allocates a zeroed RGBA buffer of `w` by `h`
/// pixels, `4 * w * h` bytes, and panics where that count overflows `usize`.
pub assume_specification[ DynamicImage::new_rgba8 ](w: u32, h: u32) -> (r: DynamicImage)
    requires
        4 * (w as int) * (h as int) <= isize::MAX,
    ensures
        image_dims(r) == (w, h),
;

/// Relies on `DynamicImage::resize_exact`, which resamples the image to exactly
/// `nwidth` by `nheight` pixels with the given filter. On the way it allocates a buffer of
/// the source width by `nheight` pixels, then one of `nwidth` by `nheight`, at up to 16 bytes
/// a pixel.
pub assume_specification[ DynamicImage::resize_exact ](
    img: &DynamicImage,
    nwidth: u32,
    nheight: u32,
    filter: FilterType,
) -> (r: DynamicImage)
    requires
        16 * (nwidth as int) * (nheight as int) <= isize::MAX,
        16 * (image_dims(*img).0 as int) * (nheight as int) <= isize::MAX,
    ensures
        image_dims(r) == (nwidth, nheight),
;

/// Relies on `GenericImage::copy_from` of `DynamicImage`: copies `img` into `canvas` with
/// its top left corner at `(x, y)`, leaving the canvas's size as it was; it fails only where
/// the image would not fit.
#[verifier::external_body]
fn copy_into(canvas: &mut DynamicImage, img: &DynamicImage, x: u32, y: u32) -> (r: Result<(), ImageError>)
    ensures
        image_dims(*final(canvas)) == image_dims(*old(canvas)),
        x + image_dims(*img).0 <= image_dims(*old(canvas)).0 && y + image_dims(*img).1
            <= image_dims(*old(canvas)).1 ==> r is Ok,
{
    canvas.copy_from(img, x, y)
}

/// Relies on the `Display` of `ImageError` for the message of a failed copy.
#[verifier::external_body]
fn copy_error_message(err: &ImageError, index: usize) -> String {
    format!("{} error while copying file #{}", err, index)
}

/// Relies on `FilterType::Lanczos3`, the high-quality filter used by default.
#[verifier::external_body]
fn default_filter() -> FilterType {
    FilterType::Lanczos3
}

/// The size of each image.
pub open spec fn sizes_of(images: Seq<DynamicImage>) -> Seq<ImageSize> {
    Seq::new(
        images.len(),
        |k: int| ImageSize { w: image_dims(images[k]).0, h: image_dims(images[k]).1 },
    )
}

/// A canvas of the pen's size, and each of the rects, can be allocated at 16 bytes a pixel,
/// together with the buffer of the source image's width by the rect's height that
/// resampling takes.
pub open spec fn paintable(pen: GridPen, rects: Seq<ImageRect>, sizes: Seq<ImageSize>) -> bool {
    &&& 16 * total_width(pen) * total_height(pen) <= isize::MAX
    &&& forall|k: int|
        0 <= k < rects.len() ==> {
            &&& 16 * ((#[trigger] rects[k]).w as int) * (rects[k].h as int) <= isize::MAX
            &&& 16 * (sizes[k].w as int) * (rects[k].h as int) <= isize::MAX
        }
}

/// The size of the image that stitching these images gives, where it succeeds: there are
/// images, none is zero pixels wide or high, the planned layout fits within `u32`, and the
/// canvas and the resampled images can be allocated.
pub open spec fn stitched_size(
    images: Seq<DynamicImage>,
    alignment: AlignmentMode,
    width_limit: int,
    height_limit: int,
) -> Option<(u32, u32)> {
    let sizes = sizes_of(images);
    if images.len() == 0 || !all_nondegenerate(sizes) {
        None
    } else {
        match laid_out(plan_for(alignment, sizes), sizes, width_limit, height_limit) {
            Some((pen, rects)) => if paintable(pen, rects, sizes) {
                Some((total_width(pen) as u32, total_height(pen) as u32))
            } else {
                None
            },
            None => None,
        }
    }
}

/// Reads the width and height of each image.
pub fn image_sizes(images: &Vec<DynamicImage>) -> (r: Vec<ImageSize>)
    ensures
        r@ == sizes_of(images@),
{
    let mut sizes: Vec<ImageSize> = Vec::new();
    let mut i: usize = 0;
    while i < images.len()
        invariant
            0 <= i <= images@.len(),
            sizes@ == sizes_of(images@).subrange(0, i as int),
        decreases images@.len() - i,
    {
        let img = &images[i];
        sizes.push(ImageSize::new(img.width(), img.height()));
        i = i + 1;
        assert(sizes@ =~= sizes_of(images@).subrange(0, i as int));
    }
    assert(sizes@ =~= sizes_of(images@));
    sizes
}

/// Whether no image has a zero width or height.
pub fn no_degenerate_image(sizes: &Vec<ImageSize>) -> (r: bool)
    ensures
        r == all_nondegenerate(sizes@),
{
    let mut i: usize = 0;
    while i < sizes.len()
        invariant
            0 <= i <= sizes@.len(),
            all_nondegenerate(sizes@.subrange(0, i as int)),
        decreases sizes@.len() - i,
    {
        if sizes[i].w == 0 || sizes[i].h == 0 {
            assert(!all_nondegenerate(sizes@)) by {
                assert(sizes@[i as int].w == 0 || sizes@[i as int].h == 0);
            }
            return false;
        }
        assert forall|k: int| 0 <= k < i + 1 implies #[trigger] sizes@.subrange(0, i + 1)[k].w > 0
            && sizes@.subrange(0, i + 1)[k].h > 0 by {
            if k < i {
                assert(sizes@.subrange(0, i + 1)[k] == sizes@.subrange(0, i as int)[k]);
            }
        }
        i = i + 1;
    }
    assert(sizes@.subrange(0, sizes@.len() as int) =~= sizes@);
    true
}

/// Whether an image of `w` by `h` pixels at 16 bytes a pixel can be allocated.
pub fn buffer_fits(w: u32, h: u32) -> (r: bool)
    ensures
        r == (16 * (w as int) * (h as int) <= isize::MAX),
{
    assert((w as u64) * (h as u64) <= U32_MAX * U32_MAX) by (nonlinear_arith)
        requires
            w <= U32_MAX,
            h <= U32_MAX,
    ;
    let area: u64 = (w as u64) * (h as u64);
    assert(16 * (w as int) * (h as int) == 16 * (area as int)) by (nonlinear_arith)
        requires
            area == (w as int) * (h as int),
    ;
    area <= (isize::MAX as u64) / 16
}

/// The source images of a stitch together with their layout: the pen that traced it and the
/// rect of each image in the output.
pub struct Stitch {
    images: Vec<DynamicImage>,
    sizes: Vec<ImageSize>,
    axis_pen: GridPen,
    image_rects: Vec<ImageRect>,
    resize_filter: FilterType,
}

impl Stitch {
    /// There is a rect for each image, and each lies on the canvas, whose size fits `u32`.
    pub closed spec fn wf(&self) -> bool {
        &&& self.sizes@ == sizes_of(self.images@)
        &&& self.image_rects@.len() == self.images@.len()
        &&& total_cross(self.axis_pen) <= U32_MAX
        &&& self.axis_pen.longest_line_length_pixels <= U32_MAX
        &&& forall|k: int|
            0 <= k < self.image_rects@.len() ==> rect_within(
                #[trigger] self.image_rects@[k],
                total_width(self.axis_pen),
                total_height(self.axis_pen),
            )
    }

    /// The source images.
    pub closed spec fn images(&self) -> Seq<DynamicImage> {
        self.images@
    }

    /// The sizes of the source images, as read from them.
    pub closed spec fn sizes(&self) -> Seq<ImageSize> {
        self.sizes@
    }

    /// The pen once the layout is done.
    pub closed spec fn pen(&self) -> GridPen {
        self.axis_pen
    }

    /// The rect of each image in the output.
    pub closed spec fn rects(&self) -> Seq<ImageRect> {
        self.image_rects@
    }

    pub fn builder() -> (r: StitchBuilder)
        ensures
            r.images@.len() == 0,
            r.alignment == AlignmentMode::Grid,
            r.width_limit == 0,
            r.height_limit == 0,
    {
        StitchBuilder::default()
    }

    /// Lays out the images: plans the pen for their sizes, generates their rects and
    /// rescales them to the limits. Fails where an image has a zero width or height, or the
    /// layout does not fit within the range of `u32`.
    pub fn new(
        images: Vec<DynamicImage>,
        alignment: AlignmentMode,
        width_limit: u32,
        height_limit: u32,
        resize_filter: FilterType,
    ) -> (r: Result<Stitch, String>)
        ensures
            ({
                let sizes = sizes_of(images@);
                let planned = plan_for(alignment, sizes);
                &&& r is Ok <==> (all_nondegenerate(sizes) && laid_out(
                    planned,
                    sizes,
                    width_limit as int,
                    height_limit as int,
                ) is Some)
                &&& r matches Ok(st) ==> {
                    &&& st.wf()
                    &&& st.images() == images@
                    &&& st.sizes() == sizes
                    &&& laid_out(planned, sizes, width_limit as int, height_limit as int) == Some(
                        (st.pen(), st.rects()),
                    )
                }
            }),
    {
        let sizes = image_sizes(&images);
        if !no_degenerate_image(&sizes) {
            return Err("Cannot stitch an image with a width or height of zero".to_owned());
        }
        let planned = make_axis_pen(alignment, &sizes);
        assert(crate::pen::nondegenerate(planned.axis, sizes@)) by {
            assert forall|k: int| 0 <= k < sizes@.len() implies crate::layout::cross_of(
                planned.axis,
                #[trigger] sizes@[k],
            ) > 0 by {
                assert(sizes@[k].w > 0 && sizes@[k].h > 0);
            }
        }
        match lay_out(planned, &sizes, width_limit, height_limit) {
            Some((axis_pen, image_rects)) => {
                assert(image_rects@.len() == sizes@.len()) by {
                    let unscaled = crate::pen::generated(planned, sizes@);
                    if width_limit > 0 || height_limit > 0 {
                        assert(crate::pen::rescale(unscaled.0, unscaled.1, width_limit as int, height_limit as int).1.len()
                            == unscaled.1.len());
                    }
                }
                proof {
                    if width_limit > 0 || height_limit > 0 {
                        lemma_rescaled_rects_disjoint(
                            alignment,
                            sizes@,
                            planned,
                            width_limit as int,
                            height_limit as int,
                        );
                    } else {
                        lemma_generated_rects_disjoint(alignment, sizes@, planned);
                    }
                }
                Ok(Stitch { images, sizes, axis_pen, image_rects, resize_filter })
            },
            None => Err("The stitched image would be too large".to_owned()),
        }
    }

    /// The pen once the layout is done.
    pub fn get_axis_pen(&self) -> (r: GridPen)
        ensures
            r == self.pen(),
    {
        self.axis_pen
    }

    /// The rect of each image in the output.
    pub fn get_image_rects(&self) -> (r: Vec<ImageRect>)
        ensures
            r@ == self.rects(),
    {
        self.image_rects.clone()
    }

    /// Paints the output: a blank canvas the size of the layout, with each image resampled
    /// to its rect and copied into place. Every rect lies on the canvas, so no copy fails; it
    /// fails exactly where the canvas or a resampled image is too large to allocate.
    pub fn stitch(self) -> (r: Result<DynamicImage, String>)
        requires
            self.wf(),
        ensures
            r is Ok <==> paintable(self.pen(), self.rects(), self.sizes()),
            r matches Ok(img) ==> image_dims(img) == (
                total_width(self.pen()) as u32,
                total_height(self.pen()) as u32,
            ),
    {
        let out_dimensions = self.axis_pen.get_output_dimensions();
        if !buffer_fits(out_dimensions.w, out_dimensions.h) {
            return Err("The stitched image would be too large to allocate".to_owned());
        }
        assert(4 * (out_dimensions.w as int) * (out_dimensions.h as int) <= 16 * (
        out_dimensions.w as int) * (out_dimensions.h as int)) by (nonlinear_arith);
        let mut output_image = DynamicImage::new_rgba8(out_dimensions.w, out_dimensions.h);
        let n = self.images.len();
        let mut i: usize = 0;
        while i < n
            invariant
                self.wf(),
                n == self.images@.len(),
                0 <= i <= n,
                image_dims(output_image) == (out_dimensions.w, out_dimensions.h),
                out_dimensions.w == total_width(self.pen()),
                out_dimensions.h == total_height(self.pen()),
                16 * total_width(self.pen()) * total_height(self.pen()) <= isize::MAX,
                forall|k: int|
                    0 <= k < i ==> {
                        &&& 16 * ((#[trigger] self.rects()[k]).w as int) * (self.rects()[k].h as int)
                            <= isize::MAX
                        &&& 16 * (self.sizes()[k].w as int) * (self.rects()[k].h as int) <= isize::MAX
                    },
            decreases n - i,
        {
            let img = &self.images[i];
            let rect = self.image_rects[i];
            if !buffer_fits(rect.w, rect.h) || !buffer_fits(img.width(), rect.h) {
                return Err("A resized image would be too large to allocate".to_owned());
            }
            assert(rect_within(rect, total_width(self.pen()), total_height(self.pen())));
            let scaled_image = img.resize_exact(rect.w, rect.h, self.resize_filter);
            if let Err(err) = copy_into(&mut output_image, &scaled_image, rect.x, rect.y) {
                return Err(copy_error_message(&err, i));
            }
            i = i + 1;
        }
        Ok(output_image)
    }
}

/// Builder for a stitch: the source images, the alignment, optional limits on the output's
/// width and height (zero for none), and the filter used to resample the images.
pub struct StitchBuilder {
    pub images: Vec<DynamicImage>,
    pub alignment: AlignmentMode,
    pub width_limit: u32,
    pub height_limit: u32,
    pub resize_filter: FilterType,
}

impl Default for StitchBuilder {
    fn default() -> (r: StitchBuilder)
        ensures
            r.images@.len() == 0,
            r.alignment == AlignmentMode::Grid,
            r.width_limit == 0,
            r.height_limit == 0,
    {
        StitchBuilder {
            images: Vec::new(),
            alignment: AlignmentMode::Grid,
            width_limit: 0,
            height_limit: 0,
            resize_filter: default_filter(),
        }
    }
}

impl StitchBuilder {
    pub fn images(self, images: Vec<DynamicImage>) -> (r: StitchBuilder)
        ensures
            r == (StitchBuilder { images, ..self }),
    {
        StitchBuilder { images, ..self }
    }

    pub fn alignment(self, alignment: AlignmentMode) -> (r: StitchBuilder)
        ensures
            r == (StitchBuilder { alignment, ..self }),
    {
        StitchBuilder { alignment, ..self }
    }

    pub fn width_limit(self, width_limit: u32) -> (r: StitchBuilder)
        ensures
            r == (StitchBuilder { width_limit, ..self }),
    {
        StitchBuilder { width_limit, ..self }
    }

    pub fn height_limit(self, height_limit: u32) -> (r: StitchBuilder)
        ensures
            r == (StitchBuilder { height_limit, ..self }),
    {
        StitchBuilder { height_limit, ..self }
    }

    pub fn resize_filter(self, resize_filter: FilterType) -> (r: StitchBuilder)
        ensures
            r == (StitchBuilder { resize_filter, ..self }),
    {
        StitchBuilder { resize_filter, ..self }
    }

    /// Lays out and paints the images. Fails where there are none, and otherwise as
    /// [`Stitch::new`] and [`Stitch::stitch`] do.
    pub fn stitch(self) -> (r: Result<DynamicImage, String>)
        ensures
            self.images@.len() == 0 ==> (r matches Err(e) && e@ == "No images to stitch"@),
            r is Ok <==> stitched_size(
                self.images@,
                self.alignment,
                self.width_limit as int,
                self.height_limit as int,
            ) is Some,
            r matches Ok(img) ==> Some(image_dims(img)) == stitched_size(
                self.images@,
                self.alignment,
                self.width_limit as int,
                self.height_limit as int,
            ),
    {
        if self.images.len() == 0 {
            proof {
                reveal_strlit("No images to stitch");
            }
            return Err("No images to stitch".to_owned());
        }
        match Stitch::new(
            self.images,
            self.alignment,
            self.width_limit,
            self.height_limit,
            self.resize_filter,
        ) {
            Ok(st) => st.stitch(),
            Err(e) => Err(e),
        }
    }
}

} // verus!
