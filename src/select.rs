use vstd::prelude::*;
use vstd::string::StrSliceExecFns;

use crate::options::{OrderBy, TakeFrom};

verus! {

/// An image file found on disk: its path, when it was last modified (in nanoseconds since
/// the Unix epoch) and its size in bytes.
#[derive(Debug, Clone)]
pub struct FileEntry {
    pub full_path: String,
    pub modified: u128,
    pub size_bytes: u64,
}

/// `a` comes no later than `b` in the lexicographic order of characters, which is the order
/// of `String`.
pub open spec fn chars_le(a: Seq<char>, b: Seq<char>) -> bool
    decreases a.len(),
{
    if a.len() == 0 {
        true
    } else if b.len() == 0 {
        false
    } else if a[0] != b[0] {
        (a[0] as u32) < (b[0] as u32)
    } else {
        chars_le(a.drop_first(), b.drop_first())
    }
}

/// `a` comes no later than `b` in the given order: by modification time, or by path.
pub open spec fn key_le(order: OrderBy, a: FileEntry, b: FileEntry) -> bool {
    match order {
        OrderBy::Latest => a.modified <= b.modified,
        OrderBy::Alphabetic => chars_le(a.full_path@, b.full_path@),
    }
}

/// The files run in the given order, or against it where `descending`.
pub open spec fn sorted_by(order: OrderBy, descending: bool, s: Seq<FileEntry>) -> bool {
    forall|i: int, j: int|
        0 <= i < j < s.len() ==> if descending {
            key_le(order, #[trigger] s[j], #[trigger] s[i])
        } else {
            key_le(order, s[i], s[j])
        }
}

/// Whether the files are taken from the top of the order: the most recent first, or the
/// last by path.
pub open spec fn takes_from_top(order: OrderBy, take_from: TakeFrom) -> bool {
    (order == OrderBy::Latest) == (take_from == TakeFrom::Start)
}

/// Whether the chosen files come out against the order: those taken from the top, unless
/// turned round to run from oldest to newest; turned round again where `reverse` asks.
pub open spec fn chosen_descending(order: OrderBy, take_from: TakeFrom, reverse: bool) -> bool {
    takes_from_top(order, take_from) != (reverse != (order == OrderBy::Latest))
}

/// Relies on `slice::sort_unstable_by_key`: the files are rearranged into nondecreasing
/// order of modification time.
#[verifier::external_body]
fn sort_by_modified(files: &mut Vec<FileEntry>)
    ensures
        final(files)@.to_multiset() == old(files)@.to_multiset(),
        sorted_by(OrderBy::Latest, false, final(files)@),
{
    files.sort_unstable_by_key(|f| f.modified)
}

/// Compares the paths of two files character by character: `Less` or `Equal` exactly where
/// the first comes no later than the second, `Greater` or `Equal` exactly where the second
/// comes no later than the first.
pub fn compare_paths(a: &FileEntry, b: &FileEntry) -> (r: core::cmp::Ordering)
    ensures
        (r == core::cmp::Ordering::Less || r == core::cmp::Ordering::Equal) <==> chars_le(
            a.full_path@,
            b.full_path@,
        ),
        (r == core::cmp::Ordering::Greater || r == core::cmp::Ordering::Equal) <==> chars_le(
            b.full_path@,
            a.full_path@,
        ),
{
    let x = a.full_path.as_str();
    let y = b.full_path.as_str();
    let xl = x.unicode_len();
    let yl = y.unicode_len();
    let mut i: usize = 0;
    assert(x@.skip(0) =~= x@ && y@.skip(0) =~= y@);
    while i < xl && i < yl && x.get_char(i) == y.get_char(i)
        invariant
            xl == x@.len(),
            yl == y@.len(),
            0 <= i <= xl,
            i <= yl,
            chars_le(x@, y@) == chars_le(x@.skip(i as int), y@.skip(i as int)),
            chars_le(y@, x@) == chars_le(y@.skip(i as int), x@.skip(i as int)),
        decreases xl - i,
    {
        assert(x@.skip(i as int).drop_first() =~= x@.skip(i + 1));
        assert(y@.skip(i as int).drop_first() =~= y@.skip(i + 1));
        i = i + 1;
    }
    if i < xl && i < yl {
        let c = x.get_char(i);
        let d = y.get_char(i);
        assert(x@.skip(i as int)[0] == c && y@.skip(i as int)[0] == d);
        if (c as u32) < (d as u32) {
            core::cmp::Ordering::Less
        } else {
            core::cmp::Ordering::Greater
        }
    } else if xl == yl {
        core::cmp::Ordering::Equal
    } else if i == xl {
        core::cmp::Ordering::Less
    } else {
        core::cmp::Ordering::Greater
    }
}

/// Relies on `slice::sort_unstable_by`, given the total order of `compare_paths`: the files
/// are rearranged into nondecreasing order of path.
#[verifier::external_body]
fn sort_by_path(files: &mut Vec<FileEntry>)
    ensures
        final(files)@.to_multiset() == old(files)@.to_multiset(),
        sorted_by(OrderBy::Alphabetic, false, final(files)@),
{
    files.sort_unstable_by(compare_paths)
}

/// The files in reverse order.
fn reversed(files: Vec<FileEntry>) -> (r: Vec<FileEntry>)
    ensures
        r@ == files@.reverse(),
{
    let mut rest = files;
    let mut out: Vec<FileEntry> = Vec::new();
    let ghost all = rest@;
    while rest.len() > 0
        invariant
            rest@ == all.subrange(0, rest@.len() as int),
            out@ == all.subrange(rest@.len() as int, all.len() as int).reverse(),
            rest@.len() <= all.len(),
        decreases rest@.len(),
    {
        let f = rest.pop().unwrap();
        out.push(f);
        assert(out@ =~= all.subrange(rest@.len() as int, all.len() as int).reverse());
        assert(rest@ =~= all.subrange(0, rest@.len() as int));
    }
    assert(out@ =~= all.reverse());
    out
}

proof fn lemma_reversed_sorted(order: OrderBy, descending: bool, s: Seq<FileEntry>)
    requires
        sorted_by(order, descending, s),
    ensures
        sorted_by(order, !descending, s.reverse()),
{
    assert forall|i: int, j: int| 0 <= i < j < s.reverse().len() implies if !descending {
        key_le(order, #[trigger] s.reverse()[j], #[trigger] s.reverse()[i])
    } else {
        key_le(order, s.reverse()[i], s.reverse()[j])
    } by {
        let n = s.len() as int;
        assert(s.reverse()[i] == s[n - 1 - i]);
        assert(s.reverse()[j] == s[n - 1 - j]);
    }
}

/// Chooses `number_of_files` files: sorts them by the order given, keeps those at the end
/// that `take_from` names, and returns them oldest to newest, or by path, unless `reverse`
/// turns them round. Fails where there are fewer files than asked for.
pub fn sort_and_truncate_by(
    files: Vec<FileEntry>,
    number_of_files: usize,
    order_by: OrderBy,
    take_from: TakeFrom,
    reverse: bool,
) -> (r: Result<Vec<FileEntry>, String>)
    ensures
        r is Err <==> files@.len() < number_of_files,
        r matches Ok(chosen) ==> {
            &&& chosen@.len() == number_of_files
            &&& sorted_by(order_by, chosen_descending(order_by, take_from, reverse), chosen@)
            &&& exists|rest: Seq<FileEntry>|
                {
                    &&& (chosen@ + rest).to_multiset() == files@.to_multiset()
                    &&& forall|i: int, j: int|
                        0 <= i < chosen@.len() && 0 <= j < rest.len() ==> if takes_from_top(
                            order_by,
                            take_from,
                        ) {
                            key_le(order_by, #[trigger] rest[j], #[trigger] chosen@[i])
                        } else {
                            key_le(order_by, chosen@[i], rest[j])
                        }
                }
        },
{
    if files.len() < number_of_files {
        return Err("Requested more files than were found".to_owned());
    }
    let mut files = files;
    let ghost original = files@;
    match order_by {
        OrderBy::Latest => sort_by_modified(&mut files),
        OrderBy::Alphabetic => sort_by_path(&mut files),
    }
    let top = match (order_by, take_from) {
        (OrderBy::Latest, TakeFrom::Start) => true,
        (OrderBy::Alphabetic, TakeFrom::End) => true,
        _ => false,
    };
    assert(top == takes_from_top(order_by, take_from));
    if top {
        proof {
            lemma_reversed_sorted(order_by, false, files@);
            files@.lemma_reverse_to_multiset();
        }
        files = reversed(files);
    }
    assert(sorted_by(order_by, top, files@));
    assert(files@.to_multiset() == original.to_multiset());
    proof {
        files@.to_multiset_ensures();
        original.to_multiset_ensures();
    }
    assert(files@.len() == original.len());
    let ghost sorted = files@;
    let ghost rest = sorted.subrange(number_of_files as int, sorted.len() as int);
    files.truncate(number_of_files);
    assert(files@ =~= sorted.subrange(0, number_of_files as int));
    assert(files@ + rest =~= sorted);
    assert(sorted_by(order_by, top, files@));
    let turn = reverse != (order_by == OrderBy::Latest);
    let ghost kept = files@;
    if turn {
        proof {
            lemma_reversed_sorted(order_by, top, files@);
            files@.lemma_reverse_to_multiset();
            vstd::seq_lib::lemma_multiset_commutative(files@, rest);
            vstd::seq_lib::lemma_multiset_commutative(files@.reverse(), rest);
        }
        files = reversed(files);
    }
    assert((files@ + rest).to_multiset() == original.to_multiset());
    assert forall|i: int, j: int| 0 <= i < files@.len() && 0 <= j < rest.len() implies if top {
        key_le(order_by, #[trigger] rest[j], #[trigger] files@[i])
    } else {
        key_le(order_by, files@[i], rest[j])
    } by {
        let k = if turn {
            kept.len() - 1 - i
        } else {
            i
        };
        assert(files@[i] == kept[k]);
        assert(kept[k] == sorted[k]);
        assert(rest[j] == sorted[number_of_files + j]);
    }
    Ok(files)
}

} // verus!
