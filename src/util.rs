use vstd::prelude::*;
use vstd::string::StringExecFns;

verus! {

pub const BYTES_KIB: u64 = 1024;

pub const BYTES_MIB: u64 = 1024 * 1024;

/// The character of a decimal digit.
pub open spec fn digit_char(d: nat) -> char {
    if d == 0 {
        '0'
    } else if d == 1 {
        '1'
    } else if d == 2 {
        '2'
    } else if d == 3 {
        '3'
    } else if d == 4 {
        '4'
    } else if d == 5 {
        '5'
    } else if d == 6 {
        '6'
    } else if d == 7 {
        '7'
    } else if d == 8 {
        '8'
    } else {
        '9'
    }
}

/// The decimal digits of `v`, most significant first, without leading zeros.
pub open spec fn decimal(v: nat) -> Seq<char>
    decreases v,
{
    if v < 10 {
        seq![digit_char(v)]
    } else {
        decimal(v / 10) + seq![digit_char(v % 10)]
    }
}

fn digit_str(d: u128) -> (r: &'static str)
    requires
        d < 10,
    ensures
        r@ == seq![digit_char(d as nat)],
{
    proof {
        reveal_strlit("0");
        reveal_strlit("1");
        reveal_strlit("2");
        reveal_strlit("3");
        reveal_strlit("4");
        reveal_strlit("5");
        reveal_strlit("6");
        reveal_strlit("7");
        reveal_strlit("8");
        reveal_strlit("9");
    }
    if d == 0 {
        "0"
    } else if d == 1 {
        "1"
    } else if d == 2 {
        "2"
    } else if d == 3 {
        "3"
    } else if d == 4 {
        "4"
    } else if d == 5 {
        "5"
    } else if d == 6 {
        "6"
    } else if d == 7 {
        "7"
    } else if d == 8 {
        "8"
    } else {
        "9"
    }
}

/// Appends the decimal digits of `v`.
fn push_decimal(s: &mut String, v: u128)
    ensures
        final(s)@ == old(s)@ + decimal(v as nat),
    decreases v,
{
    if v >= 10 {
        push_decimal(s, v / 10);
    }
    s.append(digit_str(v % 10));
    assert(final(s)@ =~= old(s)@ + decimal(v as nat)) by {
        if v >= 10 {
            assert(decimal(v as nat) == decimal((v / 10) as nat) + seq![digit_char((v % 10) as nat)]);
        }
    }
}

/// The size of a file in bytes, KiB or MiB: whole bytes under 1 KiB, KiB with one decimal
/// under 10 KiB, whole KiB under 1 MiB, MiB with one decimal under 10 MiB, else whole MiB;
/// decimals are cut, not rounded.
pub open spec fn size_string(l: nat) -> Seq<char> {
    let kib = BYTES_KIB as nat;
    let mib = BYTES_MIB as nat;
    if l < kib {
        decimal(l) + " bytes"@
    } else if l < 10 * kib {
        decimal(l / kib) + "."@ + decimal((10 * (l % kib)) / kib) + " KiB"@
    } else if l < mib {
        decimal(l / kib) + " KiB"@
    } else if l < 10 * mib {
        decimal(l / mib) + "."@ + decimal((10 * (l % mib)) / mib) + " MiB"@
    } else {
        decimal(l / mib) + " MiB"@
    }
}

/// Describes a size given in bytes, in bytes, KiB or MiB.
pub fn make_size_string(length_bytes: u64) -> (r: String)
    ensures
        r@ == size_string(length_bytes as nat),
{
    let l = length_bytes;
    let mut s = String::new();
    if l < BYTES_KIB {
        push_decimal(&mut s, l as u128);
        s.append(" bytes");
    } else if l < 10 * BYTES_KIB {
        push_decimal(&mut s, (l / BYTES_KIB) as u128);
        s.append(".");
        push_decimal(&mut s, ((10 * (l % BYTES_KIB)) / BYTES_KIB) as u128);
        s.append(" KiB");
    } else if l < BYTES_MIB {
        push_decimal(&mut s, (l / BYTES_KIB) as u128);
        s.append(" KiB");
    } else if l < 10 * BYTES_MIB {
        push_decimal(&mut s, (l / BYTES_MIB) as u128);
        s.append(".");
        push_decimal(&mut s, ((10 * (l % BYTES_MIB)) / BYTES_MIB) as u128);
        s.append(" MiB");
    } else {
        push_decimal(&mut s, (l / BYTES_MIB) as u128);
        s.append(" MiB");
    }
    assert(s@ =~= size_string(length_bytes as nat));
    s
}

/// `p / d` rounded to the nearest integer, halves to the even neighbour.
pub open spec fn round_half_even(p: nat, d: nat) -> nat {
    let q = p / d;
    let r = p % d;
    if 2 * r > d || (2 * r == d && q % 2 == 1) {
        q + 1
    } else {
        q
    }
}

/// The output size as a whole percentage of the input size, or a dash where the input
/// size is zero.
pub open spec fn ratio_string(input_size: nat, output_size: nat) -> Seq<char> {
    if input_size == 0 {
        "-"@
    } else {
        decimal(round_half_even(100 * output_size, input_size)) + "%"@
    }
}

/// Describes the output size as a percentage of the input size.
pub fn make_ratio_string(input_size: u64, output_size: u64) -> (r: String)
    ensures
        r@ == ratio_string(input_size as nat, output_size as nat),
{
    proof {
        reveal_strlit("-");
    }
    if input_size == 0 {
        return "-".to_owned();
    }
    let p: u128 = 100 * (output_size as u128);
    let d: u128 = input_size as u128;
    let q: u128 = p / d;
    let rem: u128 = p % d;
    let rounded: u128 = if 2 * rem > d || (2 * rem == d && q % 2 == 1) {
        q + 1
    } else {
        q
    };
    let mut s = String::new();
    push_decimal(&mut s, rounded);
    s.append("%");
    assert(s@ =~= ratio_string(input_size as nat, output_size as nat));
    s
}

/// How many numbered output names are tried after the plain one.
pub const OUTPUT_NAME_ATTEMPTS: usize = 1000;

/// The stem of the output file name: `stitch` first, then `stitch_1`, `stitch_2` and so on.
pub open spec fn output_stem(index: nat) -> Seq<char> {
    if index == 0 {
        "stitch"@
    } else {
        "stitch_"@ + decimal(index)
    }
}

/// The name of the output file with the given index and extension (without its dot).
pub fn output_file_name(index: usize, extension: &str) -> (r: String)
    ensures
        r@ == output_stem(index as nat) + "."@ + extension@,
{
    let mut s = String::new();
    if index == 0 {
        s.append("stitch");
    } else {
        s.append("stitch_");
        push_decimal(&mut s, index as u128);
    }
    s.append(".");
    s.append(extension);
    proof {
        reveal_strlit("stitch");
        reveal_strlit("stitch_");
    }
    assert(s@ =~= output_stem(index as nat) + "."@ + extension@);
    s
}

} // verus!
