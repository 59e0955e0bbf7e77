use vstd::prelude::*;
use vstd::string::StrSliceExecFns;

verus! {

/// The image formats that can be read and written.
#[derive(PartialEq, Eq, Structural, Debug, Copy, Clone)]
pub enum ImageFormat {
    Jpeg,
    Png,
    Gif,
    Bmp,
    WebP,
}

impl ImageFormat {
    /// The file extensions of the formats that are accepted, without the dot.
    pub fn allowed_extensions() -> (r: [&'static str; 6])
        ensures
            r@.len() == 6,
            r@[0]@ == "jpg"@,
            r@[1]@ == "jpeg"@,
            r@[2]@ == "png"@,
            r@[3]@ == "gif"@,
            r@[4]@ == "bmp"@,
            r@[5]@ == "webp"@,
    {
        ["jpg", "jpeg", "png", "gif", "bmp", "webp"]
    }

    /// The extension, without the dot, under which a file of this format is written.
    pub fn get_main_extension(&self) -> (r: &'static str)
        ensures
            r@ == match *self {
                ImageFormat::Jpeg => "jpg"@,
                ImageFormat::Png => "png"@,
                ImageFormat::Gif => "gif"@,
                ImageFormat::Bmp => "bmp"@,
                ImageFormat::WebP => "webp"@,
            },
    {
        match self {
            ImageFormat::Jpeg => "jpg",
            ImageFormat::Png => "png",
            ImageFormat::Gif => "gif",
            ImageFormat::Bmp => "bmp",
            ImageFormat::WebP => "webp",
        }
    }
}

/// Known file extensions, with the dot, and the format of each.
pub fn extension_formats() -> (r: [(&'static str, ImageFormat); 6])
    ensures
        r@.len() == 6,
        r@[0].0@ == ".jpg"@ && r@[0].1 == ImageFormat::Jpeg,
        r@[1].0@ == ".jpeg"@ && r@[1].1 == ImageFormat::Jpeg,
        r@[2].0@ == ".png"@ && r@[2].1 == ImageFormat::Png,
        r@[3].0@ == ".gif"@ && r@[3].1 == ImageFormat::Gif,
        r@[4].0@ == ".bmp"@ && r@[4].1 == ImageFormat::Bmp,
        r@[5].0@ == ".webp"@ && r@[5].1 == ImageFormat::WebP,
{
    [
        (".jpg", ImageFormat::Jpeg),
        (".jpeg", ImageFormat::Jpeg),
        (".png", ImageFormat::Png),
        (".gif", ImageFormat::Gif),
        (".bmp", ImageFormat::Bmp),
        (".webp", ImageFormat::WebP),
    ]
}

/// The format that a file extension, with its dot, stands for.
pub open spec fn format_of_extension(ext: Seq<char>) -> Option<ImageFormat> {
    if ext == ".jpg"@ || ext == ".jpeg"@ {
        Some(ImageFormat::Jpeg)
    } else if ext == ".png"@ {
        Some(ImageFormat::Png)
    } else if ext == ".gif"@ {
        Some(ImageFormat::Gif)
    } else if ext == ".bmp"@ {
        Some(ImageFormat::Bmp)
    } else if ext == ".webp"@ {
        Some(ImageFormat::WebP)
    } else {
        None
    }
}

/// The position of the last dot in `s`, or -1 where there is none.
pub open spec fn last_dot(s: Seq<char>) -> int
    decreases s.len(),
{
    if s.len() == 0 {
        -1
    } else if s.last() == '.' {
        s.len() - 1
    } else {
        last_dot(s.drop_last())
    }
}

/// The format of a file named `name`, from the extension after its last dot.
pub open spec fn format_of_name(name: Seq<char>) -> Option<ImageFormat> {
    let d = last_dot(name);
    if d < 0 {
        None
    } else {
        format_of_extension(name.subrange(d, name.len() as int))
    }
}

/// Whether `s` from position `from` on reads `lit`.
pub(crate) fn tail_is(s: &str, len: usize, from: usize, lit: &str) -> (r: bool)
    requires
        len == s@.len(),
        from <= len,
    ensures
        r == (s@.subrange(from as int, len as int) == lit@),
{
    let lit_len = lit.unicode_len();
    if len - from != lit_len {
        assert(s@.subrange(from as int, len as int).len() != lit@.len());
        return false;
    }
    let mut i: usize = 0;
    while i < lit_len
        invariant
            len == s@.len(),
            from <= len,
            lit_len == lit@.len(),
            len - from == lit_len,
            0 <= i <= lit_len,
            forall|k: int| 0 <= k < i ==> s@[from + k] == lit@[k],
        decreases lit_len - i,
    {
        if s.get_char(from + i) != lit.get_char(i) {
            assert(s@.subrange(from as int, len as int)[i as int] != lit@[i as int]);
            return false;
        }
        i = i + 1;
    }
    assert(s@.subrange(from as int, len as int) =~= lit@);
    true
}

proof fn lemma_last_dot(s: Seq<char>, i: int)
    requires
        -1 <= i < s.len(),
        i == -1 || s[i] == '.',
        forall|k: int| i < k < s.len() ==> s[k] != '.',
    ensures
        last_dot(s) == i,
    decreases s.len(),
{
    if s.len() > 0 && s.last() != '.' {
        assert forall|k: int| i < k < s.drop_last().len() implies s.drop_last()[k] != '.' by {
            assert(s.drop_last()[k] == s[k]);
        }
        if i >= 0 {
            assert(s.drop_last()[i] == s[i]);
        }
        lemma_last_dot(s.drop_last(), i);
    }
}

/// Infers the format of a file from the extension of its name.
pub fn infer_format(file_name: &str) -> (r: Option<ImageFormat>)
    ensures
        r == format_of_name(file_name@),
{
    let len = file_name.unicode_len();
    let mut i: usize = len;
    while i > 0 && file_name.get_char(i - 1) != '.'
        invariant
            len == file_name@.len(),
            0 <= i <= len,
            forall|k: int| i <= k < len ==> file_name@[k] != '.',
        decreases i,
    {
        i = i - 1;
    }
    if i == 0 {
        proof {
            lemma_last_dot(file_name@, -1);
        }
        return None;
    }
    let dot = i - 1;
    proof {
        lemma_last_dot(file_name@, dot as int);
    }
    let known = extension_formats();
    let mut j: usize = 0;
    while j < 6
        invariant
            len == file_name@.len(),
            dot < len,
            last_dot(file_name@) == dot,
            known@.len() == 6,
            known@[0].0@ == ".jpg"@ && known@[0].1 == ImageFormat::Jpeg,
            known@[1].0@ == ".jpeg"@ && known@[1].1 == ImageFormat::Jpeg,
            known@[2].0@ == ".png"@ && known@[2].1 == ImageFormat::Png,
            known@[3].0@ == ".gif"@ && known@[3].1 == ImageFormat::Gif,
            known@[4].0@ == ".bmp"@ && known@[4].1 == ImageFormat::Bmp,
            known@[5].0@ == ".webp"@ && known@[5].1 == ImageFormat::WebP,
            0 <= j <= 6,
            forall|k: int| 0 <= k < j ==> file_name@.subrange(dot as int, len as int) != known@[k].0@,
        decreases 6 - j,
    {
        let (ext, fmt) = known[j];
        if tail_is(file_name, len, dot, ext) {
            return Some(fmt);
        }
        j = j + 1;
    }
    None
}

/// The format shared by all the sources, where there are any and they agree.
pub open spec fn common_format(formats: Seq<Option<ImageFormat>>) -> Option<ImageFormat> {
    if formats.len() > 0 && forall|k: int| 0 <= k < formats.len() ==> #[trigger] formats[k] == formats[0] {
        formats[0]
    } else {
        None
    }
}

/// The format of the source files, where all of them have the same known format.
pub fn common_format_in_sources(formats: &Vec<Option<ImageFormat>>) -> (r: Option<ImageFormat>)
    ensures
        r == common_format(formats@),
{
    if formats.len() == 0 {
        return None;
    }
    let first = formats[0];
    let mut i: usize = 1;
    while i < formats.len()
        invariant
            formats@.len() > 0,
            first == formats@[0],
            1 <= i <= formats@.len(),
            forall|k: int| 0 <= k < i ==> #[trigger] formats@[k] == first,
        decreases formats@.len() - i,
    {
        if formats[i] != first {
            return None;
        }
        i = i + 1;
    }
    first
}

/// The format to write: the one asked for; else the one that all sources share, which must
/// then be JPEG where a quality other than the default is asked for; else JPEG.
pub fn determine_output_format(
    requested: Option<ImageFormat>,
    common: Option<ImageFormat>,
    quality: usize,
) -> (r: Result<ImageFormat, String>)
    ensures
        requested matches Some(f) ==> r == Ok::<ImageFormat, String>(f),
        requested is None && common is None ==> r == Ok::<ImageFormat, String>(ImageFormat::Jpeg),
        requested is None ==> (common matches Some(f) ==> {
            &&& (r is Err <==> (f != ImageFormat::Jpeg && quality != 100))
            &&& (r is Ok ==> r == Ok::<ImageFormat, String>(f))
        }),
{
    match requested {
        Some(format) => Ok(format),
        None => match common {
            None => Ok(ImageFormat::Jpeg),
            Some(format) => {
                if format != ImageFormat::Jpeg && quality != 100 {
                    Err("The output format cannot use a quality setting.".to_owned())
                } else {
                    Ok(format)
                }
            },
        },
    }
}

} // verus!
