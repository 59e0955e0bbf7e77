use vstd::prelude::*;
use vstd::string::StringExecFns;

use crate::formats::ImageFormat;
use crate::layout::AlignmentMode;

verus! {

pub const DEFAULT_QUALITY: usize = 100;

/// Which end of the ordered files to take from.
#[derive(PartialEq, Eq, Structural, Debug, Copy, Clone)]
pub enum TakeFrom {
    Start,
    End,
}

impl Default for TakeFrom {
    fn default() -> (r: TakeFrom)
        ensures
            r == TakeFrom::Start,
    {
        TakeFrom::Start
    }
}

/// The order in which files are taken: most recently modified first, or by name.
#[derive(PartialEq, Eq, Structural, Debug, Copy, Clone)]
pub enum OrderBy {
    Latest,
    Alphabetic,
}

impl Default for OrderBy {
    fn default() -> (r: OrderBy)
        ensures
            r == OrderBy::Latest,
    {
        OrderBy::Latest
    }
}

/// The settings of a run: layout, size limits, output format and quality, file selection,
/// and the commands that manage saved defaults.
#[derive(Debug, Clone)]
pub struct Opt {
    pub help: bool,
    pub version: bool,
    pub printdefaults: bool,
    pub horizontal: bool,
    pub vertical: bool,
    pub maxd: usize,
    pub maxw: usize,
    pub maxh: usize,
    pub reverse: bool,
    pub take_from: Option<TakeFrom>,
    pub jpeg: bool,
    pub png: bool,
    pub gif: bool,
    pub bmp: bool,
    pub webp: bool,
    pub fast: bool,
    pub quality: usize,
    pub order: Option<OrderBy>,
    pub input_dir: Option<String>,
    pub output_dir: Option<String>,
    pub number_of_files: Option<usize>,
    pub setdefaults: bool,
    pub updatedefaults: bool,
    pub cleardefaults: bool,
}

/// The settings when nothing is given: every flag off, no limits, no file count, and the
/// highest quality.
pub open spec fn default_opt() -> Opt {
    Opt {
        help: false,
        version: false,
        printdefaults: false,
        horizontal: false,
        vertical: false,
        maxd: 0,
        maxw: 0,
        maxh: 0,
        reverse: false,
        take_from: None,
        jpeg: false,
        png: false,
        gif: false,
        bmp: false,
        webp: false,
        fast: false,
        quality: DEFAULT_QUALITY,
        order: None,
        input_dir: None,
        output_dir: None,
        number_of_files: None,
        setdefaults: false,
        updatedefaults: false,
        cleardefaults: false,
    }
}

impl Default for Opt {
    fn default() -> (r: Opt)
        ensures
            r == default_opt(),
    {
        Opt {
            help: false,
            version: false,
            printdefaults: false,
            horizontal: false,
            vertical: false,
            maxd: 0,
            maxw: 0,
            maxh: 0,
            reverse: false,
            take_from: None,
            jpeg: false,
            png: false,
            gif: false,
            bmp: false,
            webp: false,
            fast: false,
            quality: DEFAULT_QUALITY,
            order: None,
            input_dir: None,
            output_dir: None,
            number_of_files: None,
            setdefaults: false,
            updatedefaults: false,
            cleardefaults: false,
        }
    }
}

/// How many of the output format flags are set.
pub open spec fn format_flag_count(o: Opt) -> int {
    (if o.jpeg { 1int } else { 0int }) + (if o.png { 1int } else { 0int }) + (if o.gif {
        1int
    } else {
        0int
    }) + (if o.bmp { 1int } else { 0int }) + (if o.webp { 1int } else { 0int })
}

/// The settings contradict themselves: both directions; `maxd` together with `maxw` or
/// `maxh`; more than one output format; a quality outside 1 to 100; or a quality other than
/// the default with a format that is not JPEG, where the saved defaults do not choose JPEG
/// either.
pub open spec fn has_basic_error(o: Opt, previous: Option<Opt>) -> bool {
    ||| o.horizontal && o.vertical
    ||| o.maxd > 0 && o.maxw > 0
    ||| o.maxd > 0 && o.maxh > 0
    ||| format_flag_count(o) > 1
    ||| o.quality == 0 || o.quality > 100
    ||| (o.quality != 100 && format_flag_count(o) > 0 && !o.jpeg && !(previous matches Some(
        p,
    ) && p.jpeg))
}

/// The first of the two that is set.
pub open spec fn first_set<T>(a: Option<T>, b: Option<T>) -> Option<T> {
    match a {
        Some(x) => Some(x),
        None => b,
    }
}

/// The settings `base` with the settings `other` mixed in. Each class of setting (direction,
/// size limits, output format) comes from `base` where `base` sets any of it, else from
/// `other`; a quality comes from `base` unless it is the default; a selection of files, an
/// order or a directory comes from `base` where it has one; the `reverse` and `fast` flags
/// are set where either sets them; the commands come from `base` alone.
pub open spec fn mixed(base: Opt, other: Opt) -> Opt {
    let base_has_axis = base.horizontal || base.vertical;
    let base_has_format = base.jpeg || base.png || base.gif || base.bmp || base.webp;
    let base_constrains_dimensions = base.maxd != 0 || base.maxw != 0 || base.maxh != 0;
    Opt {
        help: base.help,
        version: base.version,
        printdefaults: base.printdefaults,
        horizontal: base.horizontal || (other.horizontal && !base_has_axis),
        vertical: base.vertical || (other.vertical && !base_has_axis),
        maxd: if base_constrains_dimensions { base.maxd } else { other.maxd },
        maxw: if base_constrains_dimensions { base.maxw } else { other.maxw },
        maxh: if base_constrains_dimensions { base.maxh } else { other.maxh },
        reverse: base.reverse || other.reverse,
        take_from: first_set(base.take_from, other.take_from),
        jpeg: base.jpeg || (other.jpeg && !base_has_format),
        png: base.png || (other.png && !base_has_format),
        gif: base.gif || (other.gif && !base_has_format),
        bmp: base.bmp || (other.bmp && !base_has_format),
        webp: base.webp || (other.webp && !base_has_format),
        fast: base.fast || other.fast,
        quality: if base.quality != DEFAULT_QUALITY { base.quality } else { other.quality },
        order: first_set(base.order, other.order),
        input_dir: first_set(base.input_dir, other.input_dir),
        output_dir: first_set(base.output_dir, other.output_dir),
        number_of_files: first_set(base.number_of_files, other.number_of_files),
        setdefaults: base.setdefaults,
        updatedefaults: base.updatedefaults,
        cleardefaults: base.cleardefaults,
    }
}

/// The directory as given by either settings, `base` first.
fn first_dir(base: &Option<String>, other: &Option<String>) -> (r: Option<String>)
    ensures
        r == first_set(*base, *other),
{
    match base {
        Some(this) => Some(this.clone()),
        None => match other {
            Some(that) => Some(that.clone()),
            None => None,
        },
    }
}

impl Opt {
    /// Looks for settings that contradict themselves, and describes the first found.
    pub fn check_for_basic_errors(&self, previous_options: &Option<Opt>) -> (r: Option<String>)
        ensures
            r is Some <==> has_basic_error(*self, *previous_options),
    {
        if self.horizontal && self.vertical {
            return Some("Choose either horizontal or vertical (or neither), not both.".to_owned());
        }
        if self.maxd > 0 && self.maxw > 0 {
            return Some("If using maxd, do not specify maxw as well.".to_owned());
        }
        if self.maxd > 0 && self.maxh > 0 {
            return Some("If using maxd, do not specify maxh as well.".to_owned());
        }
        let format_flag_count: usize = (if self.jpeg { 1usize } else { 0usize }) + (if self.png {
            1usize
        } else {
            0usize
        }) + (if self.gif { 1usize } else { 0usize }) + (if self.bmp { 1usize } else { 0usize })
            + (if self.webp { 1usize } else { 0usize });
        if format_flag_count > 1 {
            return Some(
                "You cannot specify more than one of image types JPEG, PNG, GIF, BMP, and WebP.".to_owned(),
            );
        }
        if self.quality == 0 || self.quality > 100 {
            return Some("The quality setting must be in the range of 1 to 100 inclusive.".to_owned());
        }
        let targeting_quality = self.quality != 100 && format_flag_count > 0;
        let defaults_support_quality = match previous_options {
            Some(options) => options.jpeg,
            None => false,
        };
        if targeting_quality && !self.jpeg && !defaults_support_quality {
            return Some("The quality setting can only be used for JPEG output.".to_owned());
        }
        None
    }

    /// Checks that a number of files to stitch was given, and that it is at least one.
    pub fn check_number_of_files_provided(&self) -> (r: Option<&'static str>)
        ensures
            r is Some <==> (self.number_of_files is None || self.number_of_files == Some(0usize)),
    {
        let number_of_files = match self.number_of_files {
            Some(num) => num,
            None => return Some("You did not provide number_of_files"),
        };
        if number_of_files == 0 {
            return Some("The number of images to stitch must be at least 1.");
        }
        None
    }

    /// Resolves `maxd` into the two limits it stands for.
    pub fn prepare_for_use(&mut self)
        ensures
            old(self).maxd > 0 ==> *final(self) == (Opt {
                maxw: old(self).maxd,
                maxh: old(self).maxd,
                ..*old(self)
            }),
            old(self).maxd == 0 ==> *final(self) == *old(self),
    {
        if self.maxd > 0 {
            self.maxw = self.maxd;
            self.maxh = self.maxd;
        }
    }

    /// The output format that a flag asks for, JPEG first, where any does.
    pub fn get_requested_image_format(&self) -> (r: Option<ImageFormat>)
        ensures
            r == (if self.jpeg {
                Some(ImageFormat::Jpeg)
            } else if self.png {
                Some(ImageFormat::Png)
            } else if self.gif {
                Some(ImageFormat::Gif)
            } else if self.bmp {
                Some(ImageFormat::Bmp)
            } else if self.webp {
                Some(ImageFormat::WebP)
            } else {
                None
            }),
    {
        if self.jpeg {
            Some(ImageFormat::Jpeg)
        } else if self.png {
            Some(ImageFormat::Png)
        } else if self.gif {
            Some(ImageFormat::Gif)
        } else if self.bmp {
            Some(ImageFormat::Bmp)
        } else if self.webp {
            Some(ImageFormat::WebP)
        } else {
            None
        }
    }

    /// A single row or column where exactly one direction is chosen, else a grid.
    pub fn get_alignment(&self) -> (r: AlignmentMode)
        ensures
            r == (if self.horizontal && !self.vertical {
                AlignmentMode::Horizontal
            } else if !self.horizontal && self.vertical {
                AlignmentMode::Vertical
            } else {
                AlignmentMode::Grid
            }),
    {
        match (self.horizontal, self.vertical) {
            (true, false) => AlignmentMode::Horizontal,
            (false, true) => AlignmentMode::Vertical,
            _ => AlignmentMode::Grid,
        }
    }

    /// Sets the options included in the other instance, where these settings leave them open.
    pub fn mix_in(self, other: &Opt) -> (r: Opt)
        ensures
            r == mixed(self, *other),
    {
        let number_of_files = match self.number_of_files {
            Some(i) => Some(i),
            None => other.number_of_files,
        };
        let take_from = match self.take_from {
            Some(t) => Some(t),
            None => other.take_from,
        };
        let order = match self.order {
            Some(o) => Some(o),
            None => other.order,
        };
        let base_has_axis = self.horizontal || self.vertical;
        let base_has_format = self.jpeg || self.png || self.gif || self.bmp || self.webp;
        let base_constrains_dimensions = self.maxd != 0 || self.maxw != 0 || self.maxh != 0;
        let input_dir = first_dir(&self.input_dir, &other.input_dir);
        let output_dir = first_dir(&self.output_dir, &other.output_dir);
        Opt {
            help: self.help,
            version: self.version,
            printdefaults: self.printdefaults,
            horizontal: self.horizontal || (other.horizontal && !base_has_axis),
            vertical: self.vertical || (other.vertical && !base_has_axis),
            maxd: if base_constrains_dimensions { self.maxd } else { other.maxd },
            maxw: if base_constrains_dimensions { self.maxw } else { other.maxw },
            maxh: if base_constrains_dimensions { self.maxh } else { other.maxh },
            reverse: self.reverse || other.reverse,
            take_from,
            jpeg: self.jpeg || (other.jpeg && !base_has_format),
            png: self.png || (other.png && !base_has_format),
            gif: self.gif || (other.gif && !base_has_format),
            bmp: self.bmp || (other.bmp && !base_has_format),
            webp: self.webp || (other.webp && !base_has_format),
            fast: self.fast || other.fast,
            quality: if self.quality != DEFAULT_QUALITY { self.quality } else { other.quality },
            order,
            input_dir,
            output_dir,
            number_of_files,
            setdefaults: self.setdefaults,
            updatedefaults: self.updatedefaults,
            cleardefaults: self.cleardefaults,
        }
    }
}

/// The order and end to take files from that the flags for ascending and descending
/// alphabetical order of earlier saved settings stand for: alphabetical where either is set,
/// taken from the end where only descending is set.
pub fn order_from_alpha_flags(ascalpha: bool, descalpha: bool) -> (r: (OrderBy, TakeFrom))
    ensures
        r.0 == (if ascalpha || descalpha {
            OrderBy::Alphabetic
        } else {
            OrderBy::Latest
        }),
        r.1 == (if descalpha && !ascalpha {
            TakeFrom::End
        } else {
            TakeFrom::Start
        }),
{
    let order = if ascalpha || descalpha {
        OrderBy::Alphabetic
    } else {
        OrderBy::Latest
    };
    let take_from = if descalpha && !ascalpha {
        TakeFrom::End
    } else {
        TakeFrom::Start
    };
    (order, take_from)
}

/// `message` with `prefix` before it.
fn prefixed(prefix: &str, message: String) -> (r: String)
    ensures
        r@ == prefix@ + message@,
{
    let mut s = String::new();
    s.append(prefix);
    s.append(message.as_str());
    s
}

/// The settings to save as defaults: those given, where they are consistent.
pub fn settings_to_save(opt: Opt) -> (r: Result<Opt, String>)
    ensures
        r is Ok <==> !has_basic_error(opt, None),
        r matches Ok(o) ==> o == opt,
{
    match opt.check_for_basic_errors(&None) {
        Some(error) => Err(prefixed("Cannot save settings. ", error)),
        None => Ok(opt),
    }
}

/// The defaults to save on an update: the settings given, consistent by themselves, with the
/// saved defaults mixed in, consistent together.
pub fn updated_defaults(opt: Opt, previous: &Opt) -> (r: Result<Opt, String>)
    ensures
        r is Ok <==> !has_basic_error(opt, None) && !has_basic_error(mixed(opt, *previous), None),
        r matches Ok(o) ==> o == mixed(opt, *previous),
{
    if let Some(error) = opt.check_for_basic_errors(&None) {
        return Err(prefixed("Cannot update settings. ", error));
    }
    let merged = opt.mix_in(previous);
    match merged.check_for_basic_errors(&None) {
        Some(error) => Err(error),
        None => Ok(merged),
    }
}

/// The settings to run with: those given, with the saved defaults mixed in where there are
/// any, consistent given those defaults.
pub fn with_saved_defaults(opt: Opt, saved: Option<Opt>) -> (r: Result<Opt, String>)
    ensures
        ({
            let merged = match saved {
                Some(p) => mixed(opt, p),
                None => opt,
            };
            &&& r is Ok <==> !has_basic_error(merged, saved)
            &&& r matches Ok(o) ==> o == merged
        }),
{
    let merged = match &saved {
        Some(p) => opt.mix_in(p),
        None => opt,
    };
    match merged.check_for_basic_errors(&saved) {
        Some(error) => Err(error),
        None => Ok(merged),
    }
}

} // verus!
