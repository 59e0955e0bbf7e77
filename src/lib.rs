//! Joins images into one: plans a grid, a row or a column for them, places each image at
//! the size that lines it up with its neighbours, shrinks the whole to optional limits, and
//! paints the result.
use vstd::prelude::*;

pub mod bounds;
pub mod formats;
pub mod layout;
pub mod options;
pub mod pen;
pub mod plan;
pub mod select;
pub mod sources;
pub mod stitch;
pub mod util;
pub mod wrap;

pub use formats::{
    common_format_in_sources, determine_output_format, extension_formats, infer_format, ImageFormat,
};
pub use layout::{AlignmentMode, AspectType, Axis, ImageRect, ImageSize};
pub use options::{
    order_from_alpha_flags, settings_to_save, updated_defaults, with_saved_defaults, Opt, OrderBy,
    TakeFrom, DEFAULT_QUALITY,
};
pub use pen::{lay_out, GridPen, HorizontalGridPen, VerticalGridPen};
pub use sources::{RawBufferLocation, RawBufferProperties};
pub use select::{compare_paths, sort_and_truncate_by, FileEntry};
pub use plan::{find_smallest_image_height, find_smallest_image_width, make_axis_pen};
pub use stitch::{image_sizes, Stitch, StitchBuilder};
pub use util::{make_ratio_string, make_size_string, output_file_name, OUTPUT_NAME_ATTEMPTS};
pub use wrap::{wrap_line, wrap_words};

verus! {

} // verus!
