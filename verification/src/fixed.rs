//! Fixed-point metric values.
//!
//! A metric value (a CPU load percentage, a temperature, a fan speed, a
//! voltage) is an `i64` holding the measured quantity scaled by
//! [`VALUE_UNIT`], i.e. with four decimal places. `80.5` percent is stored as
//! `805000`. Keeping values as scaled integers makes every threshold
//! comparison exact and lets contracts speak about them directly.

use vstd::prelude::*;

verus! {

/// How many fixed-point units make one whole metric unit.
pub const VALUE_UNIT: i64 = 10000;

/// Tolerance used by the equality and inequality operators of `Custom`
/// conditions: one thousandth of a metric unit.
pub const CUSTOM_EPSILON: i64 = 10;

/// Absolute difference of two values, as a mathematical integer.
pub open spec fn spec_abs_diff(a: int, b: int) -> int {
    if a >= b {
        a - b
    } else {
        b - a
    }
}

/// Whether two metric values agree up to the `Custom`-condition tolerance.
pub open spec fn spec_within_epsilon(a: int, b: int) -> bool {
    spec_abs_diff(a, b) < CUSTOM_EPSILON
}

/// Compares two metric values up to the `Custom`-condition tolerance.
pub fn within_epsilon(a: i64, b: i64) -> (r: bool)
    ensures
        r == spec_within_epsilon(a as int, b as int),
{
    let d: i128 = a as i128 - b as i128;
    let m: i128 = if d < 0 {
        -d
    } else {
        d
    };
    m < CUSTOM_EPSILON as i128
}

/// Turns a whole number of metric units into a fixed-point value.
pub fn from_units(n: i32) -> (r: i64)
    ensures
        r == n * VALUE_UNIT,
{
    n as i64 * VALUE_UNIT
}

/// The share `used` takes of `total`, as a fixed-point percentage between
/// zero and one hundred, truncated.
pub fn percent_of(used: u64, total: u64) -> (r: i64)
    requires
        total > 0,
        used <= total,
    ensures
        r == (used * 100 * VALUE_UNIT) / (total as int),
        0 <= r <= 100 * VALUE_UNIT,
{
    let q: u128 = (used as u128 * 1_000_000) / (total as u128);
    proof {
        vstd::arithmetic::mul::lemma_mul_inequality(used as int, total as int, 1_000_000);
        vstd::arithmetic::div_mod::lemma_div_is_ordered(
            used as int * 1_000_000,
            total as int * 1_000_000,
            total as int,
        );
        vstd::arithmetic::div_mod::lemma_div_multiples_vanish(1_000_000, total as int);
        vstd::arithmetic::mul::lemma_mul_is_commutative(total as int, 1_000_000);
        vstd::arithmetic::mul::lemma_mul_is_commutative(used as int, 1_000_000);
        vstd::arithmetic::div_mod::lemma_div_pos_is_pos(used as int * 1_000_000, total as int);
    }
    q as i64
}

/// Integer division truncated toward zero, for a positive divisor.
pub open spec fn spec_div_trunc(a: int, b: int) -> int {
    if a >= 0 {
        a / b
    } else {
        -((-a) / b)
    }
}

/// Divides a sum of at most `count` values of machine-word size by
/// `count`, truncating toward zero.
pub fn div_trunc_sum(sum: i128, count: usize) -> (r: i64)
    requires
        count >= 1,
        -(count as int * 0x8000_0000_0000_0000) <= sum as int,
        sum as int <= count as int * 0x7fff_ffff_ffff_ffff,
    ensures
        r as int == spec_div_trunc(sum as int, count as int),
{
    let q: u128 = if sum >= 0 {
        (sum as u128) / (count as u128)
    } else {
        ((-sum) as u128) / (count as u128)
    };
    if sum >= 0 {
        proof {
            let s_int = sum as int;
            let c_int = count as int;
            assert(q == s_int / c_int);
            vstd::arithmetic::div_mod::lemma_fundamental_div_mod(s_int, c_int);
            vstd::arithmetic::div_mod::lemma_mod_bound(s_int, c_int);
            assert(c_int * (s_int / c_int) <= s_int);
            assert(q <= 0x7fff_ffff_ffff_ffff_u128) by {
                if (q as int) >= 0x8000_0000_0000_0000 {
                    vstd::arithmetic::mul::lemma_mul_inequality(
                        0x8000_0000_0000_0000,
                        q as int,
                        c_int,
                    );
                    assert(0x8000_0000_0000_0000 * c_int <= (q as int) * c_int);
                    vstd::arithmetic::mul::lemma_mul_is_commutative(q as int, c_int);
                    assert((q as int) * c_int <= s_int);
                    assert(c_int * 0x8000_0000_0000_0000 == c_int * 0x7fff_ffff_ffff_ffff + c_int);
                    vstd::arithmetic::mul::lemma_mul_is_commutative(0x8000_0000_0000_0000, c_int);
                    assert(false);
                }
            }
        }
        q as i64
    } else {
        proof {
            let m_int = (-sum) as int;
            let c_int = count as int;
            assert(q == m_int / c_int);
            vstd::arithmetic::div_mod::lemma_fundamental_div_mod(m_int, c_int);
            vstd::arithmetic::div_mod::lemma_mod_bound(m_int, c_int);
            assert(c_int * (m_int / c_int) <= m_int);
            assert(q <= 0x8000_0000_0000_0000_u128) by {
                if (q as int) >= 0x8000_0000_0000_0001 {
                    vstd::arithmetic::mul::lemma_mul_inequality(
                        0x8000_0000_0000_0001,
                        q as int,
                        c_int,
                    );
                    assert(0x8000_0000_0000_0001 * c_int <= (q as int) * c_int);
                    vstd::arithmetic::mul::lemma_mul_is_commutative(q as int, c_int);
                    assert((q as int) * c_int <= m_int);
                    assert(c_int * 0x8000_0000_0000_0001 == c_int * 0x8000_0000_0000_0000 + c_int);
                    vstd::arithmetic::mul::lemma_mul_is_commutative(0x8000_0000_0000_0001, c_int);
                    assert(false);
                }
            }
        }
        let neg: i128 = -(q as i128);
        neg as i64
    }
}

/// Addition of byte counts, capped at the largest machine word.
pub open spec fn spec_sat_add_u64(a: int, b: int) -> int {
    if a + b > 0xffff_ffff_ffff_ffff {
        0xffff_ffff_ffff_ffff as int
    } else {
        a + b
    }
}

/// The summed space of a set of disks, from (total, available) byte
/// counts: per disk the available bytes count against its total (never
/// below zero), and both sums saturate at the largest machine word.
pub open spec fn spec_disk_totals(disks: Seq<(u64, u64)>) -> (int, int)
    decreases disks.len(),
{
    if disks.len() == 0 {
        (0, 0)
    } else {
        let p = spec_disk_totals(disks.drop_last());
        let d = disks.last();
        let used = if d.0 >= d.1 {
            d.0 - d.1
        } else {
            0
        };
        (spec_sat_add_u64(p.0, d.0 as int), spec_sat_add_u64(p.1, used))
    }
}

/// The overall usage percentage of a set of disks, as a fixed-point value;
/// zero when there is no space at all.
pub open spec fn spec_disk_usage_percent(disks: Seq<(u64, u64)>) -> int {
    let totals = spec_disk_totals(disks);
    if totals.0 == 0 {
        0
    } else {
        (totals.1 * 100 * VALUE_UNIT) / totals.0
    }
}

/// How the two saturated sums relate: the used bytes never outgrow the
/// total bytes.
proof fn lemma_disk_totals_ordered(disks: Seq<(u64, u64)>)
    ensures
        0 <= spec_disk_totals(disks).1 <= spec_disk_totals(disks).0
            <= 0xffff_ffff_ffff_ffff as int,
    decreases disks.len(),
{
    if disks.len() > 0 {
        lemma_disk_totals_ordered(disks.drop_last());
    }
}

/// Computes the overall usage percentage over (total, available) byte
/// counts of a machine's disks.
pub fn disk_usage_percent(disks: &Vec<(u64, u64)>) -> (r: i64)
    ensures
        r == spec_disk_usage_percent(disks@),
        0 <= r <= 100 * VALUE_UNIT,
{
    let mut total: u64 = 0;
    let mut used: u64 = 0;
    let mut i: usize = 0;
    proof {
        assert(disks@.take(0) =~= Seq::<(u64, u64)>::empty());
    }
    while i < disks.len()
        invariant
            i <= disks@.len(),
            spec_disk_totals(disks@.take(i as int)) == (total as int, used as int),
            used <= total,
        decreases disks@.len() - i,
    {
        proof {
            assert(disks@.take(i + 1).drop_last() =~= disks@.take(i as int));
            assert(disks@.take(i + 1).last() == disks@[i as int]);
        }
        let (t, avail) = disks[i];
        let u: u64 = if t >= avail {
            t - avail
        } else {
            0
        };
        total = if total as u128 + t as u128 > u64::MAX as u128 {
            u64::MAX
        } else {
            total + t
        };
        used = if used as u128 + u as u128 > u64::MAX as u128 {
            u64::MAX
        } else {
            used + u
        };
        proof {
            assert(used <= total);
        }
        i = i + 1;
    }
    proof {
        assert(disks@.take(disks@.len() as int) =~= disks@);
    }
    if total == 0 {
        return 0;
    }
    let q: u128 = used as u128 * 1_000_000 / total as u128;
    proof {
        vstd::arithmetic::mul::lemma_mul_inequality(used as int, total as int, 1_000_000);
        vstd::arithmetic::div_mod::lemma_div_is_ordered(
            used as int * 1_000_000,
            total as int * 1_000_000,
            total as int,
        );
        vstd::arithmetic::div_mod::lemma_div_multiples_vanish(1_000_000, total as int);
        vstd::arithmetic::mul::lemma_mul_is_commutative(total as int, 1_000_000);
        vstd::arithmetic::mul::lemma_mul_is_commutative(used as int, 1_000_000);
        vstd::arithmetic::div_mod::lemma_div_pos_is_pos(used as int * 1_000_000, total as int);
    }
    q as i64
}

} // verus!
