//! Verified number rendering.
//!
//! Alert messages, peer URLs and the JSON exports all embed numbers in text.
//! The spec functions here define the exact character sequences; the
//! executable functions produce them.

use vstd::prelude::*;

use crate::fixed::VALUE_UNIT;

verus! {

/// The character of a single decimal digit.
pub open spec fn spec_digit(d: int) -> char {
    if d == 0 {
        '0'
    } else if d == 1 {
        '1'
    } else if d == 2 {
        '2'
    } else if d == 3 {
        '3'
    } else if d == 4 {
        '4'
    } else if d == 5 {
        '5'
    } else if d == 6 {
        '6'
    } else if d == 7 {
        '7'
    } else if d == 8 {
        '8'
    } else {
        '9'
    }
}

/// The decimal rendering of a non-negative integer, without leading zeros.
pub open spec fn spec_dec(n: int) -> Seq<char>
    decreases n,
{
    if n < 10 {
        seq![spec_digit(n)]
    } else {
        spec_dec(n / 10).push(spec_digit(n % 10))
    }
}

/// The decimal rendering of a signed integer.
pub open spec fn spec_dec_signed(n: int) -> Seq<char> {
    if n < 0 {
        seq!['-'] + spec_dec(-n)
    } else {
        spec_dec(n)
    }
}

/// The character of a single hexadecimal digit, lower case.
pub open spec fn spec_hex_digit(d: int) -> char {
    if d < 10 {
        spec_digit(d)
    } else if d == 10 {
        'a'
    } else if d == 11 {
        'b'
    } else if d == 12 {
        'c'
    } else if d == 13 {
        'd'
    } else if d == 14 {
        'e'
    } else {
        'f'
    }
}

/// The hexadecimal rendering of a non-negative integer, without leading zeros.
pub open spec fn spec_hex(n: int) -> Seq<char>
    decreases n,
{
    if n < 16 {
        seq![spec_hex_digit(n)]
    } else {
        spec_hex(n / 16).push(spec_hex_digit(n % 16))
    }
}

/// A single decimal digit as a string slice.
fn digit_str(d: u64) -> (s: &'static str)
    requires
        d < 10,
    ensures
        s@ == seq![spec_digit(d as int)],
{
    proof {
        reveal_strlit("0");
        reveal_strlit("1");
        reveal_strlit("2");
        reveal_strlit("3");
        reveal_strlit("4");
        reveal_strlit("5");
        reveal_strlit("6");
        reveal_strlit("7");
        reveal_strlit("8");
        reveal_strlit("9");
    }
    let s = if d == 0 {
        "0"
    } else if d == 1 {
        "1"
    } else if d == 2 {
        "2"
    } else if d == 3 {
        "3"
    } else if d == 4 {
        "4"
    } else if d == 5 {
        "5"
    } else if d == 6 {
        "6"
    } else if d == 7 {
        "7"
    } else if d == 8 {
        "8"
    } else {
        "9"
    };
    proof {
        assert(s@ =~= seq![spec_digit(d as int)]);
    }
    s
}

/// A single hexadecimal digit as a string slice.
fn hex_digit_str(d: u64) -> (s: &'static str)
    requires
        d < 16,
    ensures
        s@ == seq![spec_hex_digit(d as int)],
{
    proof {
        reveal_strlit("a");
        reveal_strlit("b");
        reveal_strlit("c");
        reveal_strlit("d");
        reveal_strlit("e");
        reveal_strlit("f");
    }
    let s = if d < 10 {
        digit_str(d)
    } else if d == 10 {
        "a"
    } else if d == 11 {
        "b"
    } else if d == 12 {
        "c"
    } else if d == 13 {
        "d"
    } else if d == 14 {
        "e"
    } else {
        "f"
    };
    proof {
        assert(s@ =~= seq![spec_hex_digit(d as int)]);
    }
    s
}

/// Renders a non-negative integer in decimal.
pub fn u64_dec(n: u64) -> (s: String)
    ensures
        s@ == spec_dec(n as int),
    decreases n,
{
    if n < 10 {
        digit_str(n).to_owned()
    } else {
        let mut s = u64_dec(n / 10);
        s.append(digit_str(n % 10));
        s
    }
}

/// Renders a non-negative integer in hexadecimal, lower case.
pub fn u64_hex(n: u64) -> (s: String)
    ensures
        s@ == spec_hex(n as int),
    decreases n,
{
    if n < 16 {
        hex_digit_str(n).to_owned()
    } else {
        let mut s = u64_hex(n / 16);
        s.append(hex_digit_str(n % 16));
        s
    }
}

/// Renders a signed integer in decimal.
pub fn i64_dec(n: i64) -> (s: String)
    ensures
        s@ == spec_dec_signed(n as int),
{
    if n < 0 {
        let m: u64 = (-(n as i128)) as u64;
        proof {
            reveal_strlit("-");
        }
        let mut s: String = "-".to_owned();
        let rest = u64_dec(m);
        s.append(rest.as_str());
        proof {
            assert(s@ =~= seq!['-'] + spec_dec(m as int));
        }
        s
    } else {
        u64_dec(n as u64)
    }
}

/// The whole-unit part of a fixed-point metric value, truncated toward zero.
pub open spec fn spec_whole_units(v: int) -> int {
    if v < 0 {
        -((-v) / (VALUE_UNIT as int))
    } else {
        v / (VALUE_UNIT as int)
    }
}

/// The rendering of a fixed-point metric value with one decimal place,
/// truncated toward zero: sign, whole units, a point, one tenths digit.
pub open spec fn spec_fixed_one_decimal(v: int) -> Seq<char> {
    let m = if v < 0 {
        -v
    } else {
        v
    };
    let sign: Seq<char> = if v < 0 {
        seq!['-']
    } else {
        Seq::empty()
    };
    sign + spec_dec(m / (VALUE_UNIT as int)) + seq!['.', spec_digit((m % (VALUE_UNIT as int)) / (
    VALUE_UNIT as int / 10))]
}

/// Renders a fixed-point metric value with one decimal place.
pub fn fixed_one_decimal(v: i64) -> (s: String)
    ensures
        s@ == spec_fixed_one_decimal(v as int),
{
    let m: u64 = if v < 0 {
        (-(v as i128)) as u64
    } else {
        v as u64
    };
    let mut s: String = if v < 0 {
        proof {
            reveal_strlit("-");
        }
        let t: String = "-".to_owned();
        proof {
            assert(t@ =~= seq!['-']);
        }
        t
    } else {
        let t = String::new();
        proof {
            assert(t@ =~= Seq::<char>::empty());
        }
        t
    };
    let whole = u64_dec(m / (VALUE_UNIT as u64));
    s.append(whole.as_str());
    proof {
        reveal_strlit(".");
    }
    s.append(".");
    let tenth: u64 = (m % (VALUE_UNIT as u64)) / (VALUE_UNIT as u64 / 10);
    s.append(digit_str(tenth));
    proof {
        assert(s@ =~= spec_fixed_one_decimal(v as int));
    }
    s
}

/// Renders the whole-unit part of a fixed-point metric value, truncated
/// toward zero; counts carried as metric values are printed this way.
pub fn fixed_whole_units(v: i64) -> (s: String)
    ensures
        s@ == spec_dec_signed(spec_whole_units(v as int)),
{
    if v < 0 {
        let m: u64 = ((-(v as i128)) as u64) / (VALUE_UNIT as u64);
        if m == 0 {
            proof {
                reveal_strlit("0");
                assert("0"@ =~= spec_dec_signed(spec_whole_units(v as int)));
            }
            "0".to_owned()
        } else {
            proof {
                reveal_strlit("-");
            }
            let mut s: String = "-".to_owned();
            s.append(u64_dec(m).as_str());
            proof {
                assert(s@ =~= seq!['-'] + spec_dec(m as int));
            }
            s
        }
    } else {
        u64_dec((v as u64) / (VALUE_UNIT as u64))
    }
}

/// One kibibyte, in bytes.
pub const KB: u64 = 1024;

/// One mebibyte, in bytes.
pub const MB: u64 = 1024 * 1024;

/// One gibibyte, in bytes.
pub const GB: u64 = 1024 * 1024 * 1024;

/// One tebibyte, in bytes.
pub const TB: u64 = 1024 * 1024 * 1024 * 1024;

/// A byte count scaled by `unit` into hundredths, rounded half up.
pub open spec fn spec_scaled_hundredths(bytes: int, unit: int) -> int {
    (200 * bytes + unit) / (2 * unit)
}

/// A count of hundredths rendered with two decimal places.
pub open spec fn spec_two_decimals(q: int) -> Seq<char> {
    spec_dec(q / 100) + seq!['.', spec_digit((q % 100) / 10), spec_digit(q % 10)]
}

/// A byte count as text: scaled into the largest unit it fills, with two
/// decimal places rounded half up, or as plain bytes below one kibibyte.
pub open spec fn spec_format_bytes(bytes: int) -> Seq<char> {
    if bytes >= TB {
        spec_two_decimals(spec_scaled_hundredths(bytes, TB as int)) + " TB"@
    } else if bytes >= GB {
        spec_two_decimals(spec_scaled_hundredths(bytes, GB as int)) + " GB"@
    } else if bytes >= MB {
        spec_two_decimals(spec_scaled_hundredths(bytes, MB as int)) + " MB"@
    } else if bytes >= KB {
        spec_two_decimals(spec_scaled_hundredths(bytes, KB as int)) + " KB"@
    } else {
        spec_dec(bytes) + " B"@
    }
}

/// Like `spec_format_bytes`, but never scaling beyond gibibytes.
pub open spec fn spec_format_bytes_gb(bytes: int) -> Seq<char> {
    if bytes >= GB {
        spec_two_decimals(spec_scaled_hundredths(bytes, GB as int)) + " GB"@
    } else if bytes >= MB {
        spec_two_decimals(spec_scaled_hundredths(bytes, MB as int)) + " MB"@
    } else if bytes >= KB {
        spec_two_decimals(spec_scaled_hundredths(bytes, KB as int)) + " KB"@
    } else {
        spec_dec(bytes) + " B"@
    }
}

/// Renders `bytes` scaled by `unit` with two decimals and the unit name.
fn scaled_two_decimals(bytes: u64, unit: u64, suffix: &'static str) -> (s: String)
    requires
        1024 <= unit,
    ensures
        s@ == spec_two_decimals(spec_scaled_hundredths(bytes as int, unit as int)) + suffix@,
{
    let wide: u128 = (200 * bytes as u128 + unit as u128) / (2 * unit as u128);
    proof {
        let x = 200 * bytes as int + unit as int;
        let d = 2 * unit as int;
        assert(wide as int == x / d);
        vstd::arithmetic::div_mod::lemma_div_is_ordered_by_denominator(x, 2048, d);
        let bound: int = 201 * 0xffff_ffff_ffff_ffff_u64 as int;
        vstd::arithmetic::div_mod::lemma_div_is_ordered(x, bound, 2048);
        assert(wide as int <= bound / 2048);
        vstd::arithmetic::div_mod::lemma_div_pos_is_pos(x, d);
    }
    let q: u64 = wide as u64;
    let mut s = u64_dec(q / 100);
    proof {
        reveal_strlit(".");
    }
    s.append(".");
    s.append(digit_str((q % 100) / 10));
    s.append(digit_str(q % 10));
    s.append(suffix);
    proof {
        assert(q == spec_scaled_hundredths(bytes as int, unit as int));
        assert(s@ =~= spec_two_decimals(spec_scaled_hundredths(bytes as int, unit as int))
            + suffix@);
    }
    s
}

/// Renders a byte count for people, scaling up to tebibytes.
pub fn format_bytes(bytes: u64) -> (s: String)
    ensures
        s@ == spec_format_bytes(bytes as int),
{
    if bytes >= TB {
        scaled_two_decimals(bytes, TB, " TB")
    } else if bytes >= GB {
        scaled_two_decimals(bytes, GB, " GB")
    } else if bytes >= MB {
        scaled_two_decimals(bytes, MB, " MB")
    } else if bytes >= KB {
        scaled_two_decimals(bytes, KB, " KB")
    } else {
        let mut s = u64_dec(bytes);
        s.append(" B");
        proof {
            assert(s@ =~= spec_format_bytes(bytes as int));
        }
        s
    }
}

/// Renders a byte count for people, scaling up to gibibytes.
pub fn format_bytes_gb(bytes: u64) -> (s: String)
    ensures
        s@ == spec_format_bytes_gb(bytes as int),
{
    if bytes >= GB {
        scaled_two_decimals(bytes, GB, " GB")
    } else if bytes >= MB {
        scaled_two_decimals(bytes, MB, " MB")
    } else if bytes >= KB {
        scaled_two_decimals(bytes, KB, " KB")
    } else {
        let mut s = u64_dec(bytes);
        s.append(" B");
        proof {
            assert(s@ =~= spec_format_bytes_gb(bytes as int));
        }
        s
    }
}

} // verus!
