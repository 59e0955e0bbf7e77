use std::cmp::Ordering;
use stitchy::{
    common_format_in_sources, determine_output_format, extension_formats, infer_format,
    make_ratio_string, make_size_string, order_from_alpha_flags, sort_and_truncate_by, FileEntry,
    output_file_name, compare_paths, ImageFormat, Opt, OrderBy, TakeFrom,
};

#[test]
fn check_files_length_strings() {
    let sizes: [u64; 6] = [137, 1370, 13700, 137000, 1370000, 13700000];
    let expected = ["137 bytes", "1.3 KiB", "13 KiB", "133 KiB", "1.3 MiB", "13 MiB"];
    for (size, text) in sizes.iter().zip(expected.iter()) {
        assert_eq!(make_size_string(*size), *text);
    }
}

#[test]
fn size_strings_at_unit_edges() {
    assert_eq!(make_size_string(0), "0 bytes");
    assert_eq!(make_size_string(1023), "1023 bytes");
    assert_eq!(make_size_string(1024), "1.0 KiB");
    assert_eq!(make_size_string(10 * 1024), "10 KiB");
    assert_eq!(make_size_string(1024 * 1024), "1.0 MiB");
    assert_eq!(make_size_string(u64::MAX), "17592186044415 MiB");
}

#[test]
fn ratio_strings() {
    assert_eq!(make_ratio_string(0, 50), "-");
    assert_eq!(make_ratio_string(200, 50), "25%");
    assert_eq!(make_ratio_string(3, 1), "33%");
    assert_eq!(make_ratio_string(3, 2), "67%");
    assert_eq!(make_ratio_string(200, 1), "0%");
    assert_eq!(make_ratio_string(200, 3), "2%");
    assert_eq!(make_ratio_string(100, 250), "250%");
}

#[test]
fn formats_and_extensions() {
    assert_eq!(ImageFormat::WebP.get_main_extension(), "webp");
    assert_eq!(ImageFormat::Jpeg.get_main_extension(), "jpg");
    assert_eq!(ImageFormat::allowed_extensions().len(), 6);
    assert_eq!(extension_formats()[1], (".jpeg", ImageFormat::Jpeg));
}

#[test]
fn requested_format_and_alignment() {
    let opt = Opt { gif: true, vertical: true, ..Opt::default() };
    assert_eq!(opt.get_requested_image_format(), Some(ImageFormat::Gif));
    assert_eq!(opt.get_alignment(), stitchy::AlignmentMode::Vertical);
    assert_eq!(Opt::default().get_requested_image_format(), None);
    assert_eq!(Opt::default().get_alignment(), stitchy::AlignmentMode::Grid);
}

#[test]
fn prepare_for_use_spreads_maxd() {
    let mut opt = Opt { maxd: 300, ..Opt::default() };
    opt.prepare_for_use();
    assert_eq!((opt.maxw, opt.maxh), (300, 300));
    let mut opt = Opt { maxw: 20, ..Opt::default() };
    opt.prepare_for_use();
    assert_eq!((opt.maxw, opt.maxh), (20, 0));
}

#[test]
fn number_of_files_must_be_positive() {
    assert!(Opt::default().check_number_of_files_provided().is_some());
    assert!(Opt { number_of_files: Some(0), ..Opt::default() }.check_number_of_files_provided().is_some());
    assert!(Opt { number_of_files: Some(2), ..Opt::default() }.check_number_of_files_provided().is_none());
}

#[test]
fn saved_jpeg_defaults_allow_quality() {
    let saved = Opt { jpeg: true, quality: 50, ..Opt::default() };
    let opt = Opt { png: true, quality: 50, number_of_files: Some(1), ..Opt::default() };
    assert!(opt.check_for_basic_errors(&Some(saved)).is_none());
    assert!(opt.check_for_basic_errors(&None).is_some());
    let zero = Opt { quality: 0, ..Opt::default() };
    assert!(zero.check_for_basic_errors(&None).is_some());
}

#[test]
fn formats_inferred_from_last_extension() {
    assert_eq!(infer_format("photo.jpg"), Some(ImageFormat::Jpeg));
    assert_eq!(infer_format("dir.png/photo.jpeg"), Some(ImageFormat::Jpeg));
    assert_eq!(infer_format("a.b.webp"), Some(ImageFormat::WebP));
    assert_eq!(infer_format("scan.bmp"), Some(ImageFormat::Bmp));
    assert_eq!(infer_format("anim.gif"), Some(ImageFormat::Gif));
    assert_eq!(infer_format("notes.txt"), None);
    assert_eq!(infer_format("no_extension"), None);
    assert_eq!(infer_format("upper.JPG"), None);
    assert_eq!(infer_format(""), None);
}

#[test]
fn common_format_needs_agreement() {
    assert_eq!(common_format_in_sources(&vec![]), None);
    assert_eq!(
        common_format_in_sources(&vec![Some(ImageFormat::Png), Some(ImageFormat::Png)]),
        Some(ImageFormat::Png)
    );
    assert_eq!(common_format_in_sources(&vec![Some(ImageFormat::Png), Some(ImageFormat::Gif)]), None);
    assert_eq!(common_format_in_sources(&vec![Some(ImageFormat::Png), None]), None);
}

#[test]
fn output_format_choice() {
    assert_eq!(determine_output_format(Some(ImageFormat::Gif), Some(ImageFormat::Png), 50), Ok(ImageFormat::Gif));
    assert_eq!(determine_output_format(None, None, 100), Ok(ImageFormat::Jpeg));
    assert_eq!(determine_output_format(None, Some(ImageFormat::Png), 100), Ok(ImageFormat::Png));
    assert!(determine_output_format(None, Some(ImageFormat::Png), 80).is_err());
    assert_eq!(determine_output_format(None, Some(ImageFormat::Jpeg), 80), Ok(ImageFormat::Jpeg));
}

#[test]
fn alphabetical_flags_become_order_and_end() {
    assert_eq!(order_from_alpha_flags(false, false), (OrderBy::Latest, TakeFrom::Start));
    assert_eq!(order_from_alpha_flags(true, false), (OrderBy::Alphabetic, TakeFrom::Start));
    assert_eq!(order_from_alpha_flags(false, true), (OrderBy::Alphabetic, TakeFrom::End));
    assert_eq!(order_from_alpha_flags(true, true), (OrderBy::Alphabetic, TakeFrom::Start));
}

fn entry(name: &str, modified: u128) -> FileEntry {
    FileEntry { full_path: name.to_owned(), modified, size_bytes: 10 }
}

fn names(files: &[FileEntry]) -> Vec<&str> {
    files.iter().map(|f| f.full_path.as_str()).collect()
}

fn sample_files() -> Vec<FileEntry> {
    vec![entry("c.jpg", 30), entry("a.jpg", 20), entry("d.jpg", 10), entry("b.jpg", 40)]
}

#[test]
fn latest_files_come_oldest_first() {
    let chosen = sort_and_truncate_by(sample_files(), 2, OrderBy::Latest, TakeFrom::Start, false).unwrap();
    assert_eq!(names(&chosen), vec!["c.jpg", "b.jpg"]);
    let chosen = sort_and_truncate_by(sample_files(), 2, OrderBy::Latest, TakeFrom::Start, true).unwrap();
    assert_eq!(names(&chosen), vec!["b.jpg", "c.jpg"]);
}

#[test]
fn oldest_files_taken_from_the_end() {
    let chosen = sort_and_truncate_by(sample_files(), 3, OrderBy::Latest, TakeFrom::End, false).unwrap();
    assert_eq!(names(&chosen), vec!["c.jpg", "a.jpg", "d.jpg"]);
}

#[test]
fn alphabetic_selection_from_either_end() {
    let chosen = sort_and_truncate_by(sample_files(), 3, OrderBy::Alphabetic, TakeFrom::Start, false).unwrap();
    assert_eq!(names(&chosen), vec!["a.jpg", "b.jpg", "c.jpg"]);
    let chosen = sort_and_truncate_by(sample_files(), 3, OrderBy::Alphabetic, TakeFrom::End, false).unwrap();
    assert_eq!(names(&chosen), vec!["d.jpg", "c.jpg", "b.jpg"]);
    let chosen = sort_and_truncate_by(sample_files(), 3, OrderBy::Alphabetic, TakeFrom::End, true).unwrap();
    assert_eq!(names(&chosen), vec!["b.jpg", "c.jpg", "d.jpg"]);
}

#[test]
fn too_few_files_is_an_error() {
    assert!(sort_and_truncate_by(sample_files(), 5, OrderBy::Latest, TakeFrom::Start, false).is_err());
    assert_eq!(sort_and_truncate_by(sample_files(), 4, OrderBy::Latest, TakeFrom::Start, false).unwrap().len(), 4);
}

#[test]
fn output_names_number_after_the_first() {
    assert_eq!(output_file_name(0, "jpg"), "stitch.jpg");
    assert_eq!(output_file_name(1, "png"), "stitch_1.png");
    assert_eq!(output_file_name(999, "webp"), "stitch_999.webp");
}

#[test]
fn paths_compare_by_characters() {
    assert_eq!(compare_paths(&entry("a.jpg", 0), &entry("b.jpg", 0)), Ordering::Less);
    assert_eq!(compare_paths(&entry("b.jpg", 0), &entry("a.jpg", 0)), Ordering::Greater);
    assert_eq!(compare_paths(&entry("a.jpg", 0), &entry("a.jpg", 9)), Ordering::Equal);
    assert_eq!(compare_paths(&entry("a", 0), &entry("a.jpg", 0)), Ordering::Less);
    assert_eq!(compare_paths(&entry("Z", 0), &entry("a", 0)), Ordering::Less);
    assert_eq!(compare_paths(&entry("é", 0), &entry("z", 0)), Ordering::Greater);
}
