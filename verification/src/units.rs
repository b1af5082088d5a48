//! Byte counts in words: `1536` is `1.50 KiB`.
//!
//! A count of at least one KiB is shown in the largest unit that it reaches,
//! with two decimals. The count is first taken as the nearest number with 53
//! significant bits, the precision of a double, ties to the even one; the
//! quotient by the unit is then rounded to hundredths, ties to the even
//! hundredth.

use crate::text::{decimal, push_decimal, push_two_digits, two_digits};
use vstd::prelude::*;
use vstd::string::*;

verus! {

/// The bytes of one KiB.
pub const KIB: u64 = 1024;

/// The bytes of one MiB.
pub const MIB: u64 = 1_048_576;

/// The bytes of one GiB.
pub const GIB: u64 = 1_073_741_824;

/// The bytes of one TiB.
pub const TIB: u64 = 1_099_511_627_776;

/// The first count that 53 bits do not hold.
pub const EXACT_LIMIT: u64 = 9_007_199_254_740_992;

/// `numerator / unit` as the nearest whole number, a tie going to the even
/// one.
pub open spec fn nearest_even(numerator: nat, unit: nat) -> nat {
    let q = numerator / unit;
    let r = numerator % unit;
    if 2 * r > unit || (2 * r == unit && q % 2 == 1) {
        q + 1
    } else {
        q
    }
}

/// The distance between neighbouring numbers of 53 significant bits at the
/// size of `n`.
pub open spec fn spacing(n: nat) -> nat
    decreases n,
{
    if n < EXACT_LIMIT {
        1
    } else {
        2 * spacing(n / 2)
    }
}

/// The number of 53 significant bits nearest to `n`, a tie going to the one
/// with an even last bit.
pub open spec fn in_53_bits(n: nat) -> nat {
    nearest_even(n, spacing(n)) * spacing(n)
}

/// `value / unit` in hundredths, rounded to the nearest hundredth, a tie
/// going to the even one.
pub open spec fn hundredths(value: nat, unit: nat) -> nat {
    nearest_even(value * 100, unit)
}

/// `h` hundredths as text with two decimals, followed by `suffix`.
pub open spec fn scaled_text(h: nat, suffix: Seq<char>) -> Seq<char> {
    decimal(h / 100) + seq!['.'] + two_digits(h % 100) + suffix
}

/// The text for a count of `bytes` bytes.
pub open spec fn bytes_text(bytes: nat) -> Seq<char> {
    if bytes >= TIB {
        scaled_text(hundredths(in_53_bits(bytes), TIB as nat), " TiB"@)
    } else if bytes >= GIB {
        scaled_text(hundredths(bytes, GIB as nat), " GiB"@)
    } else if bytes >= MIB {
        scaled_text(hundredths(bytes, MIB as nat), " MiB"@)
    } else if bytes >= KIB {
        scaled_text(hundredths(bytes, KIB as nat), " KiB"@)
    } else {
        decimal(bytes) + " B"@
    }
}

/// A count below `EXACT_LIMIT` is its own nearest number of 53 bits.
pub proof fn lemma_small_counts_are_exact(n: nat)
    requires
        n < EXACT_LIMIT,
    ensures
        in_53_bits(n) == n,
{
    assert(spacing(n) == 1);
    assert(n / 1 == n && n % 1 == 0);
}

/// The spacing is a positive power of two, at most 2048 for a count of 64
/// bits, and the count is below `EXACT_LIMIT` spacings.
proof fn lemma_spacing_bounds(n: nat)
    ensures
        spacing(n) >= 1,
        n < spacing(n) * EXACT_LIMIT,
        n <= u64::MAX ==> spacing(n) <= 2048,
    decreases n,
{
    if n >= EXACT_LIMIT {
        lemma_spacing_bounds(n / 2);
        if n <= u64::MAX {
            lemma_spacing_cases(n);
        }
    }
}

/// The spacing of a count of 64 bits, by the size of the count.
proof fn lemma_spacing_cases(n: nat)
    requires
        n <= u64::MAX,
    ensures
        n < EXACT_LIMIT ==> spacing(n) == 1,
        EXACT_LIMIT <= n < 2 * EXACT_LIMIT ==> spacing(n) == 2,
        2 * EXACT_LIMIT <= n < 4 * EXACT_LIMIT ==> spacing(n) == 4,
        4 * EXACT_LIMIT <= n < 8 * EXACT_LIMIT ==> spacing(n) == 8,
        8 * EXACT_LIMIT <= n < 16 * EXACT_LIMIT ==> spacing(n) == 16,
        16 * EXACT_LIMIT <= n < 32 * EXACT_LIMIT ==> spacing(n) == 32,
        32 * EXACT_LIMIT <= n < 64 * EXACT_LIMIT ==> spacing(n) == 64,
        64 * EXACT_LIMIT <= n < 128 * EXACT_LIMIT ==> spacing(n) == 128,
        128 * EXACT_LIMIT <= n < 256 * EXACT_LIMIT ==> spacing(n) == 256,
        256 * EXACT_LIMIT <= n < 512 * EXACT_LIMIT ==> spacing(n) == 512,
        512 * EXACT_LIMIT <= n < 1024 * EXACT_LIMIT ==> spacing(n) == 1024,
        1024 * EXACT_LIMIT <= n ==> spacing(n) == 2048,
{
    reveal_with_fuel(spacing, 13);
}

/// Rounds `numerator / unit` to the nearest whole number, a tie going to
/// the even one.
fn round_nearest_even(numerator: u128, unit: u128) -> (rounded: u128)
    requires
        0 < unit <= TIB,
        numerator <= 0xffff_ffff_ffff_ffff_ffff,
    ensures
        rounded == nearest_even(numerator as nat, unit as nat),
        rounded <= numerator + 1,
{
    let q: u128 = numerator / unit;
    let r: u128 = numerator % unit;
    assert(q <= numerator) by (nonlinear_arith)
        requires
            q == numerator / unit,
            unit > 0,
    ;
    if 2 * r > unit || (2 * r == unit && q % 2 == 1) {
        q + 1
    } else {
        q
    }
}

/// The number of 53 significant bits nearest to `bytes`.
fn nearest_in_53_bits(bytes: u64) -> (nearest: u128)
    ensures
        nearest == in_53_bits(bytes as nat),
        nearest <= 0x1_0000_0000_0000_0000,
{
    let mut unit: u128 = 1;
    let mut rest: u64 = bytes;
    proof {
        lemma_spacing_bounds(bytes as nat);
    }
    while rest >= EXACT_LIMIT
        invariant
            1 <= unit <= 2048,
            spacing(bytes as nat) == unit * spacing(rest as nat),
            spacing(bytes as nat) <= 2048,
            spacing(rest as nat) >= 1,
        decreases rest,
    {
        proof {
            lemma_spacing_bounds((rest / 2) as nat);
            assert(unit * (2 * spacing((rest / 2) as nat)) == (unit * 2) * spacing(
                (rest / 2) as nat,
            )) by (nonlinear_arith);
            assert(unit * 2 <= 2048) by (nonlinear_arith)
                requires
                    (unit * 2) * spacing((rest / 2) as nat) <= 2048,
                    spacing((rest / 2) as nat) >= 1,
                    unit >= 1,
            ;
        }
        rest = rest / 2;
        unit = unit * 2;
    }
    assert(spacing(rest as nat) == 1);
    assert(unit == spacing(bytes as nat)) by (nonlinear_arith)
        requires
            spacing(bytes as nat) == unit * spacing(rest as nat),
            spacing(rest as nat) == 1,
    ;
    let whole: u128 = round_nearest_even(bytes as u128, unit);
    proof {
        let n = bytes as nat;
        let q = n / (unit as nat);
        assert(q * unit <= n) by (nonlinear_arith)
            requires
                q == n / (unit as nat),
                unit > 0,
        ;
        assert(whole <= q + 1);
        assert(whole * unit <= q * unit + unit) by (nonlinear_arith)
            requires
                whole <= q + 1,
                unit >= 1,
        ;
        // A count rounds up to a multiple of the spacing, and two to the 64th
        // is a multiple of every spacing.
        lemma_spacing_cases(n);
        lemma_rounding_stays_in_range(n, unit as nat, whole as nat);
    }
    whole * unit
}

/// Rounding a count of 64 bits to a multiple of a power of two up to 2048
/// does not pass two to the 64th.
proof fn lemma_rounding_stays_in_range(n: nat, unit: nat, whole: nat)
    requires
        n <= u64::MAX,
        unit == 1 || unit == 2 || unit == 4 || unit == 8 || unit == 16 || unit == 32 || unit == 64
            || unit == 128 || unit == 256 || unit == 512 || unit == 1024 || unit == 2048,
        whole <= n / unit + 1,
        whole == nearest_even(n, unit),
    ensures
        whole * unit <= 0x1_0000_0000_0000_0000,
{
    let q = n / unit;
    let limit: nat = 0x1_0000_0000_0000_0000;
    let cells = limit / unit;
    assert(cells * unit == limit);
    assert(q < cells) by (nonlinear_arith)
        requires
            q == n / unit,
            n < limit,
            cells * unit == limit,
            unit > 0,
    {
        assert(q * unit <= n);
        if q >= cells {
            assert(q * unit >= cells * unit);
        }
    }
    assert(whole * unit <= cells * unit) by (nonlinear_arith)
        requires
            whole <= q + 1,
            q < cells,
            unit > 0,
    ;
}

/// Appends `value / unit` with two decimals and `suffix` to `out`.
fn push_scaled(out: &mut String, value: u128, unit: u64, suffix: &str)
    requires
        0 < unit <= TIB,
        value <= 0x1_0000_0000_0000_0000,
    ensures
        final(out)@ == old(out)@ + scaled_text(
            hundredths(value as nat, unit as nat),
            suffix@,
        ),
{
    proof {
        reveal_strlit(".");
    }
    let h: u128 = round_nearest_even(value * 100, unit as u128);
    push_decimal(out, h / 100);
    out.append(".");
    push_two_digits(out, (h % 100) as u64);
    out.append(suffix);
    assert(final(out)@ =~= old(out)@ + scaled_text(hundredths(value as nat, unit as nat), suffix@));
}

/// A count of bytes in words, in the largest binary unit that it reaches.
pub fn format_bytes(bytes: u64) -> (text: String)
    ensures
        text@ == bytes_text(bytes as nat),
{
    let mut text = String::new();
    if bytes >= TIB {
        let value = nearest_in_53_bits(bytes);
        push_scaled(&mut text, value, TIB, " TiB");
    } else if bytes >= GIB {
        push_scaled(&mut text, bytes as u128, GIB, " GiB");
    } else if bytes >= MIB {
        push_scaled(&mut text, bytes as u128, MIB, " MiB");
    } else if bytes >= KIB {
        push_scaled(&mut text, bytes as u128, KIB, " KiB");
    } else {
        push_decimal(&mut text, bytes as u128);
        text.append(" B");
    }
    assert(text@ =~= bytes_text(bytes as nat));
    text
}

} // verus!
