use vstd::prelude::*;
use vstd::string::{StrSliceExecFns, StringExecFns};

verus! {

/// Whether `c` has the Unicode `White_Space` property, as `char::is_whitespace` tests.
pub open spec fn is_white_space(c: char) -> bool {
    let u = c as u32;
    ||| 0x9 <= u <= 0xD
    ||| u == 0x20 || u == 0x85 || u == 0xA0 || u == 0x1680
    ||| 0x2000 <= u <= 0x200A
    ||| u == 0x2028 || u == 0x2029 || u == 0x202F || u == 0x205F || u == 0x3000
}

/// The words of `s`: its maximal non-empty runs of characters that are not white space, in
/// order.
pub open spec fn words_of(s: Seq<char>) -> Seq<Seq<char>>
    decreases s.len(),
{
    if s.len() == 0 {
        Seq::empty()
    } else {
        let before = words_of(s.drop_last());
        let c = s.last();
        if is_white_space(c) {
            before
        } else if s.len() >= 2 && !is_white_space(s[s.len() - 2]) {
            before.update(before.len() - 1, before.last().push(c))
        } else {
            before.push(seq![c])
        }
    }
}

/// Relies on `str::split_whitespace`: the words of `s`, split at Unicode white space, in
/// order.
#[verifier::external_body]
fn split_words(s: &str) -> (r: Vec<String>)
    ensures
        r@.len() == words_of(s@).len(),
        forall|i: int| 0 <= i < r@.len() ==> #[trigger] r@[i]@ == words_of(s@)[i],
{
    s.split_whitespace().map(|w| w.to_owned()).collect()
}

/// `n` spaces.
pub open spec fn spaces(n: nat) -> Seq<char> {
    Seq::new(n, |i: int| ' ')
}

/// The lines being filled after the first `k` words: those finished, and the one being
/// filled. A word goes on the current line where it fits within `width`, followed by a space
/// where that fits too; else the line is finished and the word starts a new one after the
/// indentation.
pub open spec fn fill(words: Seq<Seq<char>>, indent: Seq<char>, width: int, k: nat) -> (
    Seq<Seq<char>>,
    Seq<char>,
)
    decreases k,
{
    if k == 0 {
        (Seq::empty(), indent)
    } else {
        let (lines, current) = fill(words, indent, width, (k - 1) as nat);
        let word = words[k - 1];
        let after = current.len() + word.len();
        if after <= width {
            if after + 1 <= width {
                (lines, current + word + seq![' '])
            } else {
                (lines, current + word)
            }
        } else {
            (lines.push(current), indent + word + seq![' '])
        }
    }
}

/// The words filled into lines of at most `width` characters (a word longer than that
/// stands alone), each after the indentation; the last line is kept unless empty.
pub open spec fn filled_lines(words: Seq<Seq<char>>, indent: Seq<char>, width: int) -> Seq<Seq<char>> {
    let (lines, current) = fill(words, indent, width, words.len());
    if current.len() > 0 {
        lines.push(current)
    } else {
        lines
    }
}

/// Fills words into lines; see `filled_lines`.
pub fn wrap_words(words: &Vec<String>, indent: &str, width: usize) -> (r: Vec<String>)
    ensures
        r@.len() == filled_lines(words@.map_values(|w: String| w@), indent@, width as int).len(),
        forall|i: int|
            0 <= i < r@.len() ==> #[trigger] r@[i]@ == filled_lines(
                words@.map_values(|w: String| w@),
                indent@,
                width as int,
            )[i],
{
    let ghost ws = words@.map_values(|w: String| w@);
    let mut lines: Vec<String> = Vec::new();
    let mut current = String::new();
    current.append(indent);
    let mut current_len: usize = indent.unicode_len();
    let mut k: usize = 0;
    while k < words.len()
        invariant
            ws == words@.map_values(|w: String| w@),
            0 <= k <= words@.len(),
            current_len == current@.len(),
            lines@.len() == fill(ws, indent@, width as int, k as nat).0.len(),
            forall|i: int|
                0 <= i < lines@.len() ==> #[trigger] lines@[i]@ == fill(ws, indent@, width as int, k as nat).0[i],
            current@ == fill(ws, indent@, width as int, k as nat).1,
        decreases words@.len() - k,
    {
        let word = words[k].as_str();
        let word_len = word.unicode_len();
        assert(word@ == ws[k as int]);
        let after: u128 = current_len as u128 + word_len as u128;
        if after <= width as u128 {
            current.append(word);
            if after + 1 <= width as u128 {
                current.append(" ");
                proof {
                    reveal_strlit(" ");
                }
            }
            current_len = current.unicode_len();
        } else {
            let ghost before = lines@;
            lines.push(current);
            current = String::new();
            current.append(indent);
            current.append(word);
            current.append(" ");
            proof {
                reveal_strlit(" ");
                assert forall|i: int| 0 <= i < lines@.len() implies #[trigger] lines@[i]@ == fill(
                    ws,
                    indent@,
                    width as int,
                    (k + 1) as nat,
                ).0[i] by {
                    if i < before.len() {
                        assert(lines@[i] == before[i]);
                    }
                }
            }
            current_len = current.unicode_len();
        }
        k = k + 1;
        assert(current@ =~= fill(ws, indent@, width as int, k as nat).1);
    }
    if current_len > 0 {
        let ghost before = lines@;
        lines.push(current);
        assert forall|i: int| 0 <= i < lines@.len() implies #[trigger] lines@[i]@ == filled_lines(
            ws,
            indent@,
            width as int,
        )[i] by {
            if i < before.len() {
                assert(lines@[i] == before[i]);
            }
        }
    }
    lines
}

/// The position of the last space among the first `n` characters of `s`, or -1 where there
/// is none.
pub open spec fn last_space_before(s: Seq<char>, n: int) -> int
    decreases n,
{
    if n <= 0 {
        -1
    } else if s[n - 1] == ' ' {
        n - 1
    } else {
        last_space_before(s, n - 1)
    }
}

/// Where the first line ends: at the last space within the first `n` characters, or after
/// them where there is none.
pub open spec fn break_at(s: Seq<char>, n: int) -> int {
    if last_space_before(s, n) < 0 {
        n
    } else {
        last_space_before(s, n)
    }
}

/// Breaks a line of text to fit `width` characters: where it is longer, the first line ends
/// at the last space within the width (or at the width where there is none), and the words
/// after it are filled into lines of `width - wrap_indent` characters, indented by
/// `wrap_indent` spaces where the width leaves room for more than 8 characters besides.
pub fn wrap_line(text: &str, width: usize, wrap_indent: usize) -> (r: Vec<String>)
    ensures
        text@.len() <= width ==> r@.len() == 1 && r@[0]@ == text@,
        text@.len() > width ==> {
            let first = break_at(text@, width as int);
            let rest = text@.subrange(first, text@.len() as int);
            let indent = if width > wrap_indent + 8 {
                spaces(wrap_indent as nat)
            } else {
                Seq::empty()
            };
            let print_width = if width >= wrap_indent {
                width - wrap_indent
            } else {
                0
            };
            &&& r@.len() == 1 + filled_lines(words_of(rest), indent, print_width).len()
            &&& r@[0]@ == text@.subrange(0, first)
            &&& forall|i: int|
                1 <= i < r@.len() ==> #[trigger] r@[i]@ == filled_lines(
                    words_of(rest),
                    indent,
                    print_width,
                )[i - 1]
        },
{
    let n = text.unicode_len();
    if n <= width {
        let mut out: Vec<String> = Vec::new();
        out.push(text.to_owned());
        return out;
    }
    let mut indentation = String::new();
    if width > wrap_indent && width - wrap_indent > 8 {
        let mut i: usize = 0;
        while i < wrap_indent
            invariant
                0 <= i <= wrap_indent,
                indentation@ == spaces(i as nat),
            decreases wrap_indent - i,
        {
            indentation.append(" ");
            proof {
                reveal_strlit(" ");
            }
            i = i + 1;
            assert(indentation@ =~= spaces(i as nat));
        }
    }
    let print_width: usize = if width >= wrap_indent {
        width - wrap_indent
    } else {
        0
    };
    // the last space within the width
    let mut j: usize = width;
    while j > 0 && text.get_char(j - 1) != ' '
        invariant
            n == text@.len(),
            width < n,
            0 <= j <= width,
            last_space_before(text@, width as int) == last_space_before(text@, j as int),
        decreases j,
    {
        j = j - 1;
    }
    let first: usize = if j == 0 {
        width
    } else {
        j - 1
    };
    assert(first == break_at(text@, width as int));
    let first_line = text.substring_char(0, first);
    let rest = text.substring_char(first, n);
    let words = split_words(rest);
    let filled = wrap_words(&words, indentation.as_str(), print_width);
    assert(words@.map_values(|w: String| w@) =~= words_of(rest@));
    let mut out: Vec<String> = Vec::new();
    out.push(first_line.to_owned());
    let mut i: usize = 0;
    while i < filled.len()
        invariant
            out@.len() == i + 1,
            out@[0]@ == first_line@,
            0 <= i <= filled@.len(),
            forall|m: int| 1 <= m < out@.len() ==> #[trigger] out@[m]@ == filled@[m - 1]@,
        decreases filled@.len() - i,
    {
        out.push(filled[i].clone());
        i = i + 1;
    }
    out
}

} // verus!
