use stitchy::{Opt, OrderBy, TakeFrom, DEFAULT_QUALITY};

fn make_test_default() -> Opt {
    Opt {
        number_of_files: Some(1),
        ..Opt::default()
    }
}

#[test]
fn options_test_default_is_valid() {
    let error = make_test_default().check_for_basic_errors(&None);
    assert!(error.is_none());
}

#[test]
fn options_default_quailty_is_100() {
    let opt = make_test_default();
    assert_eq!(opt.quality, DEFAULT_QUALITY);
}

#[test]
fn options_choosing_both_directions_gives_error() {
    let error = Opt { horizontal: true, vertical: true, ..make_test_default() }
        .check_for_basic_errors(&None);
    assert!(error.is_some());
}

#[test]
fn options_choosing_neither_direction_gives_no_error() {
    let opt = make_test_default();
    assert_eq!(opt.horizontal, false);
    assert_eq!(opt.vertical, false);
    let error = opt.check_for_basic_errors(&None);
    assert!(error.is_none());
}

#[test]
fn options_setting_general_and_specific_dimension_constraints_gives_error() {
    let error_1 = Opt { maxd: 100, maxw: 100, ..make_test_default() }.check_for_basic_errors(&None);
    let error_2 = Opt { maxd: 100, maxh: 100, ..make_test_default() }.check_for_basic_errors(&None);
    let error_3 = Opt { maxd: 100, maxw: 100, maxh: 100, ..make_test_default() }
        .check_for_basic_errors(&None);
    assert!(error_1.is_some());
    assert!(error_2.is_some());
    assert!(error_3.is_some());
}

#[test]
fn options_setting_both_specific_dimension_constraints_gives_no_error() {
    let error = Opt { maxw: 100, maxh: 100, ..make_test_default() }.check_for_basic_errors(&None);
    assert!(error.is_none());
}

#[test]
fn options_setting_zero_dimension_constraints_gives_no_error() {
    let error = Opt { maxd: 0, maxw: 0, maxh: 0, ..make_test_default() }
        .check_for_basic_errors(&None);
    assert!(error.is_none());
}

#[test]
fn options_choosing_multiple_formats_gives_error() {
    let error_1 = Opt { jpeg: true, png: true, ..make_test_default() }.check_for_basic_errors(&None);
    let error_2 = Opt { png: true, gif: true, ..make_test_default() }.check_for_basic_errors(&None);
    let error_3 = Opt { gif: true, bmp: true, ..make_test_default() }.check_for_basic_errors(&None);
    let error_4 = Opt { jpeg: true, png: true, gif: true, bmp: true, ..make_test_default() }
        .check_for_basic_errors(&None);
    assert!(error_1.is_some());
    assert!(error_2.is_some());
    assert!(error_3.is_some());
    assert!(error_4.is_some());
}

#[test]
fn options_choosing_no_format_gives_no_error() {
    let opt = Opt { ..make_test_default() };
    assert_eq!(opt.jpeg, false);
    assert_eq!(opt.png, false);
    assert_eq!(opt.gif, false);
    assert_eq!(opt.bmp, false);
    let error = opt.check_for_basic_errors(&None);
    assert!(error.is_none());
}

#[test]
fn options_choosing_quality_for_non_jpeg_gives_error() {
    let error_1 = Opt { png: true, quality: 50, ..make_test_default() }
        .check_for_basic_errors(&None);
    let error_2 = Opt { gif: true, quality: 50, ..make_test_default() }
        .check_for_basic_errors(&None);
    let error_3 = Opt { bmp: true, quality: 50, ..make_test_default() }
        .check_for_basic_errors(&None);
    assert!(error_1.is_some());
    assert!(error_2.is_some());
    assert!(error_3.is_some());
}

#[test]
fn options_choosing_quality_for_jpeg_gives_no_error() {
    let error = Opt { jpeg: true, quality: 50, ..make_test_default() }.check_for_basic_errors(&None);
    assert!(error.is_none());
}

#[test]
fn options_choosing_silly_quality_gives_error() {
    let error = Opt { jpeg: true, quality: 250, ..make_test_default() }.check_for_basic_errors(&None);
    assert!(error.is_some());
}

#[test]
fn options_mixin_preserves_mixer_integers() {
    let mixer = Opt {
        maxd: 100,
        maxw: 200,
        maxh: 50,
        quality: 80,
        ..Opt::default()
    };
    let merged = Opt::default().mix_in(&mixer);
    assert_eq!(merged.maxd, 100);
    assert_eq!(merged.maxw, 200);
    assert_eq!(merged.maxh, 50);
    assert_eq!(merged.quality, 80);
}

#[test]
fn options_mixin_preserves_original_integers() {
    let base = Opt {
        maxd: 100,
        maxw: 200,
        maxh: 50,
        quality: 80,
        ..Opt::default()
    };
    let merged = base.mix_in(&Opt::default());
    assert_eq!(merged.maxd, 100);
    assert_eq!(merged.maxw, 200);
    assert_eq!(merged.maxh, 50);
    assert_eq!(merged.quality, 80);
}

#[test]
fn options_mixin_favours_original_integers() {
    let base = Opt {
        maxd: 100,
        maxw: 200,
        maxh: 50,
        quality: 80,
        ..Opt::default()
    };
    let mixer = Opt {
        maxd: 50,
        maxw: 100,
        maxh: 25,
        quality: 40,
        ..Opt::default()
    };
    let merged = base.mix_in(&mixer);
    assert_eq!(merged.maxd, 100);
    assert_eq!(merged.maxw, 200);
    assert_eq!(merged.maxh, 50);
    assert_eq!(merged.quality, 80);
}

#[test]
fn options_mixin_preserves_non_default_quality() {
    let base = Opt {
        quality: DEFAULT_QUALITY,
        ..Opt::default()
    };
    let mixer = Opt {
        quality: 40,
        ..Opt::default()
    };
    let merged = base.mix_in(&mixer);
    assert_eq!(merged.quality, 40);
}

#[test]
fn options_mixin_preserves_some_number_of_files() {
    let base = Opt { number_of_files: Some(5), ..Opt::default() };
    let mixer = Opt { number_of_files: None, ..Opt::default() };
    let merged_1 = base.mix_in(&mixer);
    let base = Opt { number_of_files: None, ..Opt::default() };
    let mixer = Opt { number_of_files: Some(7), ..Opt::default() };
    let merged_2 = base.mix_in(&mixer);
    let base = Opt { number_of_files: None, ..Opt::default() };
    let mixer = Opt { number_of_files: None, ..Opt::default() };
    let merged_3 = base.mix_in(&mixer);
    assert!(merged_1.number_of_files.is_some());
    assert!(merged_2.number_of_files.is_some());
    assert!(merged_3.number_of_files.is_none());
}

#[test]
fn options_mixin_favours_original_number_of_files() {
    let base = Opt { number_of_files: Some(5), ..Opt::default() };
    let mixer = Opt { number_of_files: Some(7), ..Opt::default() };
    let merged_number = base.mix_in(&mixer).number_of_files.unwrap();
    assert_eq!(merged_number, 5);
}
