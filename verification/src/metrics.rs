//! Percentages in fixed point.

use vstd::prelude::*;

verus! {

/// The share `used / total` in tenths of a percent, rounded to the nearest
/// tenth with halves rounded up; zero where `total` is zero.
pub open spec fn percent_x10(used: nat, total: nat) -> nat {
    if total == 0 {
        0
    } else {
        (2000 * used + total) / (2 * total)
    }
}

/// The largest value that a sample can hold.
pub open spec fn sample_max() -> nat {
    u64::MAX as nat
}

/// `value` as a sample: itself where it fits, the largest sample where it
/// does not.
pub open spec fn as_sample(value: nat) -> u64 {
    if value > sample_max() {
        u64::MAX
    } else {
        value as u64
    }
}

/// Computes the share `used / total` in tenths of a percent.
///
/// A zero `total` gives zero: nothing is ever divided by zero. Where `used`
/// is so far above `total` that the share does not fit, the largest sample
/// is returned.
pub fn percent(used: u64, total: u64) -> (tenths: u64)
    ensures
        tenths == as_sample(percent_x10(used as nat, total as nat)),
        total == 0 ==> tenths == 0,
        used <= total ==> tenths == percent_x10(used as nat, total as nat) && tenths <= 1000,
{
    if total == 0 {
        0
    } else {
        let used_wide: u128 = used as u128;
        let total_wide: u128 = total as u128;
        let tenths: u128 = (2000 * used_wide + total_wide) / (2 * total_wide);
        proof {
            lemma_percent_is_nearest_tenth(used as nat, total as nat);
        }
        if tenths > 0xffff_ffff_ffff_ffff {
            u64::MAX
        } else {
            tenths as u64
        }
    }
}

/// A percentage in thousandths of a percent, in its nearest tenth of a
/// percent, with halves rounded up.
pub open spec fn tenths_of_milli(milli: nat) -> nat {
    (milli + 50) / 100
}

/// Rounds a percentage in thousandths of a percent to tenths of a percent,
/// halves up.
pub fn round_to_tenths(milli: u64) -> (tenths: u64)
    ensures
        tenths == tenths_of_milli(milli as nat),
{
    if milli % 100 >= 50 {
        milli / 100 + 1
    } else {
        milli / 100
    }
}

/// `percent_x10` is the nearest tenth of a percent to the exact share: twice
/// its distance from `1000 * used / total` is at most one, halves going up.
/// A part of the whole is at most 1000 tenths, the whole is 1000, nothing
/// is 0.
pub proof fn lemma_percent_is_nearest_tenth(used: nat, total: nat)
    requires
        total > 0,
    ensures
        2 * percent_x10(used, total) * total <= 2000 * used + total,
        2000 * used + total < 2 * (percent_x10(used, total) + 1) * total,
        used <= total ==> percent_x10(used, total) <= 1000,
        used == total ==> percent_x10(used, total) == 1000,
        used == 0 ==> percent_x10(used, total) == 0,
{
    let n = (2000 * used + total) as int;
    let d = (2 * total) as int;
    let q = n / d;
    assert(q == percent_x10(used, total));
    vstd::arithmetic::div_mod::lemma_fundamental_div_mod(n, d);
    vstd::arithmetic::div_mod::lemma_mod_bound(n, d);
    assert(n == d * q + n % d);
    assert(d * q == 2 * q * total) by (nonlinear_arith)
        requires
            d == 2 * total,
    ;
    assert(2 * (q + 1) * total == d * q + d) by (nonlinear_arith)
        requires
            d == 2 * total,
    ;
    if used <= total {
        if q >= 1001 {
            assert(2 * q * total >= 2002 * total) by (nonlinear_arith)
                requires
                    q >= 1001,
                    total > 0,
            ;
        }
    }
    if used == total {
        if q <= 999 {
            assert(2 * (q + 1) * total <= 2000 * total) by (nonlinear_arith)
                requires
                    q <= 999,
                    q >= 0,
                    total > 0,
            ;
        }
    }
    if used == 0 {
        if q >= 1 {
            assert(2 * q * total >= 2 * total) by (nonlinear_arith)
                requires
                    q >= 1,
                    total > 0,
            ;
        }
    }
}

/// The share, in tenths of a percent, from which a gauge is red.
pub const RED_FROM_X10: u64 = 900;

/// The share, in tenths of a percent, from which a gauge is yellow.
pub const YELLOW_FROM_X10: u64 = 750;

/// The colour of a gauge.
#[derive(Clone, Copy, Debug, PartialEq, Eq, Structural)]
pub enum GaugeColor {
    Green,
    Yellow,
    Red,
}

/// The colour of the gauge of a share: red from 90 percent, yellow from 75
/// percent, green below.
pub fn color_for_pct(pct_x10: u64) -> (color: GaugeColor)
    ensures
        color == if pct_x10 >= RED_FROM_X10 {
            GaugeColor::Red
        } else if pct_x10 >= YELLOW_FROM_X10 {
            GaugeColor::Yellow
        } else {
            GaugeColor::Green
        },
{
    if pct_x10 >= RED_FROM_X10 {
        GaugeColor::Red
    } else if pct_x10 >= YELLOW_FROM_X10 {
        GaugeColor::Yellow
    } else {
        GaugeColor::Green
    }
}

/// How far a gauge is filled, in thousandths: the share, but no more than
/// the whole.
pub fn gauge_fill(pct_x10: u64) -> (fill: u16)
    ensures
        fill == if pct_x10 > 1000 {
            1000
        } else {
            pct_x10 as int
        },
{
    if pct_x10 > 1000 {
        1000
    } else {
        pct_x10 as u16
    }
}

} // verus!
