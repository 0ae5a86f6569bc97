//! Sizes and durations for humans.
//!
//! Both are printed with one decimal of the double-precision quotient, so the
//! two roundings that happen on the way, to the nearest double and to the
//! nearest tenth, are spelled out here on integers. Ties go to the even
//! neighbour in both.

use vstd::prelude::*;
use vstd::string::*;

use crate::text::{decimal, decimal_text};

verus! {

/// `numerator / denominator` rounded to the nearest integer, ties to even.
pub open spec fn half_even(numerator: nat, denominator: nat) -> nat
    recommends
        denominator > 0,
{
    let quotient = numerator / denominator;
    let rest = numerator % denominator;
    if 2 * rest > denominator || (2 * rest == denominator && quotient % 2 == 1) {
        quotient + 1
    } else {
        quotient
    }
}

/// The distance between two neighbouring doubles at `n`, for an integer that
/// a double does not hold exactly, and one for the others.
pub open spec fn double_spacing(n: nat) -> nat
    decreases n,
{
    if n < 0x20_0000_0000_0000 {
        1
    } else {
        2 * double_spacing(n / 2)
    }
}

/// The double that is nearest to the integer `n`.
pub open spec fn nearest_double(n: nat) -> nat {
    half_even(n, double_spacing(n)) * double_spacing(n)
}

/// A number of tenths, written with one decimal.
pub open spec fn one_decimal(tenths: nat) -> Seq<char> {
    decimal(tenths / 10) + "."@ + decimal(tenths % 10)
}

/// The unit in which `bytes` is printed: its size and its name.
pub open spec fn size_unit(bytes: nat) -> (nat, Seq<char>) {
    if bytes < 0x400 {
        (1, "B"@)
    } else if bytes < 0x10_0000 {
        (0x400, "KB"@)
    } else if bytes < 0x4000_0000 {
        (0x10_0000, "MB"@)
    } else if bytes < 0x100_0000_0000 {
        (0x4000_0000, "GB"@)
    } else {
        (0x100_0000_0000, "TB"@)
    }
}

/// A byte count for humans.
pub open spec fn size_text(bytes: nat) -> Seq<char> {
    let (unit, name) = size_unit(bytes);
    if unit == 1 {
        decimal(bytes) + " "@ + name
    } else {
        one_decimal(half_even(10 * nearest_double(bytes), unit)) + " "@ + name
    }
}

/// The power of two by which the quotient of `milliseconds` and a thousand
/// has to be multiplied to have as many bits as a double holds.
pub open spec fn seconds_scale(milliseconds: nat) -> nat {
    if milliseconds < 2_000 {
        0x10_0000_0000_0000
    } else if milliseconds < 4_000 {
        0x8_0000_0000_0000
    } else if milliseconds < 8_000 {
        0x4_0000_0000_0000
    } else if milliseconds < 16_000 {
        0x2_0000_0000_0000
    } else if milliseconds < 32_000 {
        0x1_0000_0000_0000
    } else {
        0x8000_0000_0000
    }
}

/// The tenths of a second nearest to the double nearest to the duration.
pub open spec fn tenths_of_seconds(milliseconds: nat) -> nat {
    let scale = seconds_scale(milliseconds);
    half_even(10 * half_even(milliseconds * scale, 1_000), scale)
}

/// A duration for humans: milliseconds below a second, seconds with one
/// decimal below a minute, minutes and seconds from there on.
pub open spec fn duration_text(milliseconds: nat) -> Seq<char> {
    if milliseconds < 1_000 {
        decimal(milliseconds) + "ms"@
    } else if milliseconds < 60_000 {
        one_decimal(tenths_of_seconds(milliseconds)) + "s"@
    } else {
        decimal(milliseconds / 60_000) + "m "@ + decimal(milliseconds / 1_000 % 60) + "s"@
    }
}

fn rounded_quotient(numerator: u128, denominator: u128) -> (rounded: u128)
    requires
        0 < denominator < 0x8000_0000_0000_0000_0000_0000_0000_0000,
        numerator < 0x8000_0000_0000_0000_0000_0000_0000_0000,
    ensures
        rounded == half_even(numerator as nat, denominator as nat),
        rounded <= numerator / denominator + 1,
{
    let quotient: u128 = numerator / denominator;
    let rest: u128 = numerator % denominator;
    proof {
        assert(quotient <= numerator) by (nonlinear_arith)
            requires
                quotient == numerator / denominator,
                denominator > 0,
        ;
    }
    if 2 * rest > denominator || (2 * rest == denominator && quotient % 2 == 1) {
        quotient + 1
    } else {
        quotient
    }
}

fn spacing(n: u64) -> (distance: u64)
    ensures
        distance == double_spacing(n as nat),
        1 <= distance,
        n < 0x20_0000_0000_0000 ==> distance == 1,
        n >= 0x20_0000_0000_0000 ==> distance <= n / 0x8_0000_0000_0000,
    decreases n,
{
    if n < 0x20_0000_0000_0000 {
        1
    } else {
        let half: u64 = spacing(n / 2);
        2 * half
    }
}

fn one_decimal_text(tenths: u128) -> (text: String)
    ensures
        text@ == one_decimal(tenths as nat),
{
    let mut text = decimal_text(tenths / 10);
    text.append(".");
    let tenth = decimal_text(tenths % 10);
    text.append(&tenth);
    text
}

/// Formats a byte count for humans (`1536` gives `"1.5 KB"`).
pub fn human_size(bytes: u64) -> (text: String)
    ensures
        text@ == size_text(bytes as nat),
{
    if bytes < 1024 {
        let mut text = decimal_text(bytes as u128);
        text.append(" ");
        text.append("B");
        return text;
    }
    let (unit, name): (u128, &str) = if bytes < 0x10_0000 {
        (0x400, "KB")
    } else if bytes < 0x4000_0000 {
        (0x10_0000, "MB")
    } else if bytes < 0x100_0000_0000 {
        (0x4000_0000, "GB")
    } else {
        (0x100_0000_0000, "TB")
    };
    let distance: u128 = spacing(bytes) as u128;
    let rounded: u128 = rounded_quotient(bytes as u128, distance);
    proof {
        assert(rounded * distance <= bytes + distance) by (nonlinear_arith)
            requires
                rounded <= bytes as int / distance as int + 1,
                0 < distance,
                0 <= bytes,
        ;
    }
    let tenths: u128 = rounded_quotient(10 * (rounded * distance), unit);
    let mut text = one_decimal_text(tenths);
    text.append(" ");
    text.append(name);
    text
}

/// Formats a duration for humans (`90_500` gives `"1m 30s"`).
pub fn format_duration_ms(duration_ms: u64) -> (text: String)
    ensures
        text@ == duration_text(duration_ms as nat),
{
    if duration_ms < 1_000 {
        let mut text = decimal_text(duration_ms as u128);
        text.append("ms");
        return text;
    }
    if duration_ms < 60_000 {
        let scale: u128 = if duration_ms < 2_000 {
            0x10_0000_0000_0000
        } else if duration_ms < 4_000 {
            0x8_0000_0000_0000
        } else if duration_ms < 8_000 {
            0x4_0000_0000_0000
        } else if duration_ms < 16_000 {
            0x2_0000_0000_0000
        } else if duration_ms < 32_000 {
            0x1_0000_0000_0000
        } else {
            0x8000_0000_0000
        };
        proof {
            assert(duration_ms * scale <= 60_000 * 0x10_0000_0000_0000) by (nonlinear_arith)
                requires
                    duration_ms < 60_000,
                    scale <= 0x10_0000_0000_0000,
            ;
        }
        let seconds: u128 = rounded_quotient(duration_ms as u128 * scale, 1_000);
        let tenths: u128 = rounded_quotient(10 * seconds, scale);
        let mut text = one_decimal_text(tenths);
        text.append("s");
        return text;
    }
    let total_seconds: u64 = duration_ms / 1_000;
    let minutes: u64 = total_seconds / 60;
    let seconds: u64 = total_seconds % 60;
    let mut text = decimal_text(minutes as u128);
    text.append("m ");
    let seconds_text = decimal_text(seconds as u128);
    text.append(&seconds_text);
    text.append("s");
    text
}

/// Rounding misses by at most a half, and by a half only towards an even
/// neighbour.
pub proof fn law_rounding_is_to_the_nearest(numerator: nat, denominator: nat)
    requires
        denominator > 0,
    ensures
        ({
            let rounded = half_even(numerator, denominator);
            let miss = rounded * denominator - numerator;
            &&& -denominator <= 2 * miss <= denominator
            &&& (2 * miss == denominator || 2 * miss == -denominator) ==> rounded % 2 == 0
        }),
{
    let quotient = numerator / denominator;
    let rest = numerator % denominator;
    assert(numerator == quotient * denominator + rest && 0 <= rest < denominator) by (nonlinear_arith)
        requires
            denominator > 0,
            quotient == numerator / denominator,
            rest == numerator % denominator,
    ;
    assert((quotient + 1) * denominator == quotient * denominator + denominator) by (nonlinear_arith);
}

/// A size that a double holds exactly is shown to within half a tenth of its
/// unit.
pub proof fn law_sizes_are_close(bytes: nat)
    requires
        0x400 <= bytes < 0x20_0000_0000_0000,
    ensures
        ({
            let unit = size_unit(bytes).0;
            let tenths = half_even(10 * bytes, unit);
            &&& size_text(bytes) == one_decimal(tenths) + " "@ + size_unit(bytes).1
            &&& -unit <= 2 * (tenths * unit - 10 * bytes) <= unit
        }),
{
    assert(double_spacing(bytes) == 1);
    assert(half_even(bytes, 1) == bytes);
    assert(nearest_double(bytes) == bytes);
    law_rounding_is_to_the_nearest(10 * bytes, size_unit(bytes).0);
}

/// A size is shown in the largest unit, of a thousand and twenty-four of the one
/// before, that is not larger than it: bytes as they are, anything else with one
/// decimal, to within half a tenth, up to where a double is no longer exact.
pub proof fn law_sizes_are_shown_in_their_unit(bytes: nat)
    ensures
        bytes < 1_024 ==> size_text(bytes) == decimal(bytes) + " "@ + "B"@,
        1_024 <= bytes < 0x20_0000_0000_0000 ==> exists|tenths: nat|
            {
                let unit: nat = if bytes < 1_048_576 {
                    1_024
                } else if bytes < 1_073_741_824 {
                    1_048_576
                } else if bytes < 1_099_511_627_776 {
                    1_073_741_824
                } else {
                    1_099_511_627_776
                };
                let name = if bytes < 1_048_576 {
                    "KB"@
                } else if bytes < 1_073_741_824 {
                    "MB"@
                } else if bytes < 1_099_511_627_776 {
                    "GB"@
                } else {
                    "TB"@
                };
                &&& size_text(bytes) == #[trigger] decimal(tenths / 10) + "."@ + decimal(
                    tenths % 10,
                ) + " "@ + name
                &&& -unit <= 2 * (tenths * unit - 10 * bytes) <= unit
            },
{
    if 1_024 <= bytes < 0x20_0000_0000_0000 {
        law_sizes_are_close(bytes);
        let tenths = half_even(10 * bytes, size_unit(bytes).0);
        assert(size_text(bytes) == decimal(tenths / 10) + "."@ + decimal(tenths % 10) + " "@
            + size_unit(bytes).1);
    }
}

/// The double nearest to an integer is never further away than half of the
/// distance between two neighbouring doubles, and that distance is the smallest
/// power of two with which the integer takes no more than fifty-three bits.
pub proof fn law_the_nearest_double_is_near(n: nat)
    ensures
        n < 0x20_0000_0000_0000 ==> nearest_double(n) == n,
        double_spacing(n) > 0,
        n >= 0x20_0000_0000_0000 ==> 0x10_0000_0000_0000 * double_spacing(n) <= n
            < 0x20_0000_0000_0000 * double_spacing(n),
        -(double_spacing(n) as int) <= 2 * (nearest_double(n) - n) <= double_spacing(n),
        n >= 0x20_0000_0000_0000 ==> double_spacing(n) == 2 * double_spacing(n / 2),
{
    lemma_double_spacing(n);
    law_rounding_is_to_the_nearest(n, double_spacing(n));
    if n < 0x20_0000_0000_0000 {
        assert(half_even(n, 1) == n);
    }
}

proof fn lemma_double_spacing(n: nat)
    ensures
        double_spacing(n) > 0,
        n >= 0x20_0000_0000_0000 ==> 0x10_0000_0000_0000 * double_spacing(n) <= n
            < 0x20_0000_0000_0000 * double_spacing(n),
    decreases n,
{
    if n >= 0x20_0000_0000_0000 {
        lemma_double_spacing(n / 2);
        if n / 2 < 0x20_0000_0000_0000 {
            assert(double_spacing(n / 2) == 1);
        }
    }
}

/// A size that a double does not hold exactly is shown in terabytes, to within
/// half a tenth of the nearest double.
pub proof fn law_huge_sizes_are_in_terabytes(bytes: nat)
    requires
        0x20_0000_0000_0000 <= bytes,
    ensures
        exists|tenths: nat|
            {
                &&& size_text(bytes) == #[trigger] decimal(tenths / 10) + "."@ + decimal(
                    tenths % 10,
                ) + " TB"@
                &&& -1_099_511_627_776 <= 2 * (tenths * 1_099_511_627_776 - 10 * nearest_double(
                    bytes,
                )) <= 1_099_511_627_776
            },
{
    let tenths = half_even(10 * nearest_double(bytes), 1_099_511_627_776);
    law_rounding_is_to_the_nearest(10 * nearest_double(bytes), 1_099_511_627_776);
    reveal_strlit(" ");
    reveal_strlit("TB");
    reveal_strlit(" TB");
    assert(" "@ + "TB"@ =~= " TB"@);
    let number = decimal(tenths / 10) + "."@ + decimal(tenths % 10);
    assert(number + " "@ + "TB"@ =~= number + " TB"@);
}

/// A duration below a second is shown in milliseconds, below a minute in seconds
/// to within half a tenth, and from there on in whole minutes and seconds.
pub proof fn law_durations_are_shown_in_their_unit(milliseconds: nat)
    ensures
        milliseconds < 1_000 ==> duration_text(milliseconds) == decimal(milliseconds) + "ms"@,
        1_000 <= milliseconds < 60_000 ==> exists|tenths: nat|
            {
                &&& duration_text(milliseconds) == #[trigger] decimal(tenths / 10) + "."@ + decimal(
                    tenths % 10,
                ) + "s"@
                &&& -50 <= 100 * tenths - milliseconds <= 50
            },
        60_000 <= milliseconds ==> exists|minutes: nat, seconds: nat|
            {
                &&& duration_text(milliseconds) == #[trigger] decimal(minutes) + "m "@
                    + #[trigger] decimal(seconds) + "s"@
                &&& seconds < 60
                &&& 1_000 * (60 * minutes + seconds) <= milliseconds < 1_000 * (60 * minutes
                    + seconds + 1)
            },
{
    if 1_000 <= milliseconds < 60_000 {
        let scale = seconds_scale(milliseconds);
        let seconds = half_even(milliseconds * scale, 1_000);
        let tenths = half_even(10 * seconds, scale);
        law_rounding_is_to_the_nearest(milliseconds * scale, 1_000);
        law_rounding_is_to_the_nearest(10 * seconds, scale);
        assert(-50 <= 100 * tenths - milliseconds <= 50) by (nonlinear_arith)
            requires
                scale >= 0x8000_0000_0000,
                -1_000 <= 2 * (seconds * 1_000 - milliseconds * scale) <= 1_000,
                -scale <= 2 * (tenths * scale - 10 * seconds) <= scale,
        ;
        assert(duration_text(milliseconds) == decimal(tenths / 10) + "."@ + decimal(tenths % 10)
            + "s"@);
    }
    if 60_000 <= milliseconds {
        let minutes = milliseconds / 60_000;
        let seconds = milliseconds / 1_000 % 60;
        assert(duration_text(milliseconds) == decimal(minutes) + "m "@ + decimal(seconds) + "s"@);
        assert(1_000 * (60 * minutes + seconds) <= milliseconds < 1_000 * (60 * minutes + seconds
            + 1));
    }
}

/// The tenths of a duration in seconds are those nearest to the double nearest to
/// the seconds: a mantissa of fifty-three bits over a power of two. Of two that are
/// as near, the even one is taken, both times.
pub proof fn law_seconds_go_by_the_nearest_double(milliseconds: nat)
    requires
        1_000 <= milliseconds < 60_000,
    ensures
        ({
            let scale = seconds_scale(milliseconds);
            let mantissa = half_even(milliseconds * scale, 1_000);
            let tenths = tenths_of_seconds(milliseconds);
            let miss = 1_000 * mantissa - milliseconds * scale;
            let rest = tenths * scale - 10 * mantissa;
            &&& scale == 0x8000_0000_0000 || scale == 0x1_0000_0000_0000 || scale
                == 0x2_0000_0000_0000 || scale == 0x4_0000_0000_0000 || scale
                == 0x8_0000_0000_0000 || scale == 0x10_0000_0000_0000
            &&& 0x10_0000_0000_0000 <= mantissa <= 0x20_0000_0000_0000
            &&& -500 <= miss <= 500
            &&& miss == 500 || miss == -500 ==> mantissa % 2 == 0
            &&& -scale <= 2 * rest <= scale
            &&& 2 * rest == scale || 2 * rest == -scale ==> tenths % 2 == 0
            &&& duration_text(milliseconds) == decimal(tenths / 10) + "."@ + decimal(tenths % 10)
                + "s"@
        }),
{
    let scale = seconds_scale(milliseconds);
    let mantissa = half_even(milliseconds * scale, 1_000);
    law_rounding_is_to_the_nearest(milliseconds * scale, 1_000);
    law_rounding_is_to_the_nearest(10 * mantissa, scale);
    let tenths = tenths_of_seconds(milliseconds);
    assert(tenths == half_even(10 * mantissa, scale));
    if milliseconds < 2_000 {
        assert(milliseconds * scale == milliseconds * 0x10_0000_0000_0000);
        assert(tenths * scale == tenths * 0x10_0000_0000_0000);
    } else if milliseconds < 4_000 {
        assert(milliseconds * scale == milliseconds * 0x8_0000_0000_0000);
        assert(tenths * scale == tenths * 0x8_0000_0000_0000);
    } else if milliseconds < 8_000 {
        assert(milliseconds * scale == milliseconds * 0x4_0000_0000_0000);
        assert(tenths * scale == tenths * 0x4_0000_0000_0000);
    } else if milliseconds < 16_000 {
        assert(milliseconds * scale == milliseconds * 0x2_0000_0000_0000);
        assert(tenths * scale == tenths * 0x2_0000_0000_0000);
    } else if milliseconds < 32_000 {
        assert(milliseconds * scale == milliseconds * 0x1_0000_0000_0000);
        assert(tenths * scale == tenths * 0x1_0000_0000_0000);
    } else {
        assert(milliseconds * scale == milliseconds * 0x8000_0000_0000);
        assert(tenths * scale == tenths * 0x8000_0000_0000);
    }
}

} // verus!
