use vstd::prelude::*;
use vstd::string::StrSliceExecFns;

use crate::formats::{tail_is, ImageFormat};

verus! {

/// The format that a MIME type names.
pub open spec fn format_of_mime(m: Seq<char>) -> Option<ImageFormat> {
    if m == "image/jpeg"@ {
        Some(ImageFormat::Jpeg)
    } else if m == "image/png"@ {
        Some(ImageFormat::Png)
    } else if m == "image/gif"@ {
        Some(ImageFormat::Gif)
    } else if m == "image/bmp"@ {
        Some(ImageFormat::Bmp)
    } else if m == "image/webp"@ {
        Some(ImageFormat::WebP)
    } else {
        None
    }
}

/// The position of the first slash in `s`, or -1 where there is none.
pub open spec fn first_slash(s: Seq<char>) -> int
    decreases s.len(),
{
    if s.len() == 0 {
        -1
    } else if s[0] == '/' {
        0
    } else if first_slash(s.drop_first()) < 0 {
        -1
    } else {
        first_slash(s.drop_first()) + 1
    }
}

/// The subtype of a MIME type: what follows its first slash, where that is at least two
/// characters long.
pub open spec fn mime_subtype(m: Seq<char>) -> Option<Seq<char>> {
    let slash = first_slash(m);
    if slash < 0 || slash + 1 >= m.len() - 1 {
        None
    } else {
        Some(m.subrange(slash + 1, m.len() as int))
    }
}

proof fn lemma_first_slash(s: Seq<char>, i: int)
    requires
        0 <= i <= s.len(),
        i == s.len() || s[i] == '/',
        forall|k: int| 0 <= k < i ==> s[k] != '/',
    ensures
        first_slash(s) == if i == s.len() {
            -1
        } else {
            i
        },
    decreases s.len(),
{
    if s.len() > 0 && s[0] != '/' {
        assert forall|k: int| 0 <= k < i - 1 implies s.drop_first()[k] != '/' by {
            assert(s.drop_first()[k] == s[k + 1]);
        }
        if i < s.len() {
            assert(s.drop_first()[i - 1] == s[i]);
        }
        lemma_first_slash(s.drop_first(), i - 1);
    }
}

/// An image held in memory, with the MIME type that says how it is encoded and the time it
/// was last modified (in nanoseconds since the Unix epoch).
pub struct RawBufferLocation<'a> {
    pub buffer: &'a [u8],
    pub mime_type: String,
    pub modify_time: u128,
}

impl<'a> RawBufferLocation<'a> {
    pub fn new(buffer: &'a [u8], mime_type: String, modify_time: u128) -> (r: Self)
        ensures
            r.buffer@ == buffer@,
            r.mime_type == mime_type,
            r.modify_time == modify_time,
    {
        Self { buffer, mime_type, modify_time }
    }

    /// The subtype of the MIME type, which stands for a file extension.
    pub fn extension(&self) -> (r: Result<String, String>)
        ensures
            r is Ok <==> mime_subtype(self.mime_type@) is Some,
            r matches Ok(ext) ==> Some(ext@) == mime_subtype(self.mime_type@),
    {
        let m = self.mime_type.as_str();
        let len = m.unicode_len();
        let mut i: usize = 0;
        while i < len && m.get_char(i) != '/'
            invariant
                len == m@.len(),
                m@ == self.mime_type@,
                0 <= i <= len,
                forall|k: int| 0 <= k < i ==> m@[k] != '/',
            decreases len - i,
        {
            i = i + 1;
        }
        proof {
            lemma_first_slash(m@, i as int);
        }
        if i == len || i + 1 >= len - 1 {
            return Err("Could not parse MIME type".to_owned());
        }
        let ext = m.substring_char(i + 1, len);
        Ok(ext.to_owned())
    }

    pub fn into_properties(self) -> (r: RawBufferProperties<'a>)
        ensures
            r.buffer@ == self.buffer@,
            r.mime_type == self.mime_type,
            r.modify_time == self.modify_time,
    {
        RawBufferProperties::new(self.buffer, self.mime_type, self.modify_time)
    }
}

/// The properties of an image held in memory.
pub struct RawBufferProperties<'a> {
    pub buffer: &'a [u8],
    pub mime_type: String,
    pub modify_time: u128,
}

impl<'a> RawBufferProperties<'a> {
    pub fn new(buffer: &'a [u8], mime_type: String, modify_time: u128) -> (r: Self)
        ensures
            r.buffer@ == buffer@,
            r.mime_type == mime_type,
            r.modify_time == modify_time,
    {
        Self { buffer, mime_type, modify_time }
    }

    /// The format that the MIME type names.
    pub fn infer_format(&self) -> (r: Option<ImageFormat>)
        ensures
            r == format_of_mime(self.mime_type@),
    {
        let m = self.mime_type.as_str();
        let len = m.unicode_len();
        proof {
            reveal_strlit("image/jpeg");
            reveal_strlit("image/png");
            reveal_strlit("image/gif");
            reveal_strlit("image/bmp");
            reveal_strlit("image/webp");
        }
        assert(m@.subrange(0, len as int) =~= m@);
        if tail_is(m, len, 0, "image/jpeg") {
            Some(ImageFormat::Jpeg)
        } else if tail_is(m, len, 0, "image/png") {
            Some(ImageFormat::Png)
        } else if tail_is(m, len, 0, "image/gif") {
            Some(ImageFormat::Gif)
        } else if tail_is(m, len, 0, "image/bmp") {
            Some(ImageFormat::Bmp)
        } else if tail_is(m, len, 0, "image/webp") {
            Some(ImageFormat::WebP)
        } else {
            None
        }
    }

    /// The size of the image data in bytes.
    pub fn file_size(&self) -> (r: u64)
        ensures
            r == self.buffer@.len(),
    {
        self.buffer.len() as u64
    }
}

} // verus!
