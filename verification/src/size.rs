//! Human-readable sizes.
//!
//! A size is shown in the largest unit in which it is at least one, with one
//! decimal. The number shown is the size rounded to a double-precision number
//! first, as far as it has more than 53 significant bits, and then to one
//! decimal; both times to the nearest value, and to the even one of two
//! equally near values. All of it is done in integers.

use crate::text::{decimal, decimal_string, digit_char};
use vstd::arithmetic::div_mod::lemma_fundamental_div_mod;
use vstd::arithmetic::power::{lemma_pow0, pow};
use vstd::prelude::*;
use vstd::string::StringExecFns;

verus! {

/// The first number with more than 53 significant bits' worth of magnitude:
/// from here on not every integer is a double-precision number.
pub const EXACT_LIMIT: u64 = 9_007_199_254_740_992;

/// `n / d` rounded to the nearest integer, ties to the even one.
pub open spec fn round_half_even(n: nat, d: nat) -> nat
    recommends
        d > 0,
{
    let q = n / d;
    let r = n % d;
    if 2 * r < d || (2 * r == d && q % 2 == 0) {
        q
    } else {
        q + 1
    }
}

/// Distance between neighbouring double-precision numbers at `n`.
pub open spec fn spacing(n: nat) -> nat
    decreases n,
{
    if n < EXACT_LIMIT {
        1
    } else {
        2 * spacing(n / 2)
    }
}

/// The double-precision number nearest to `n`.
pub open spec fn nearest_double(n: nat) -> nat {
    round_half_even(n, spacing(n)) * spacing(n)
}

/// The unit in which a size of `v` bytes is shown: 0 for bytes, 1 for kilobytes
/// and so on, up to 4 for terabytes.
pub open spec fn unit_of(v: nat) -> int {
    if v < 0x400 {
        0
    } else if v < 0x10_0000 {
        1
    } else if v < 0x4000_0000 {
        2
    } else if v < 0x100_0000_0000 {
        3
    } else {
        4
    }
}

/// Bytes in a unit.
pub open spec fn unit_bytes(unit: int) -> nat {
    if unit == 0 {
        1
    } else if unit == 1 {
        0x400
    } else if unit == 2 {
        0x10_0000
    } else if unit == 3 {
        0x4000_0000
    } else {
        0x100_0000_0000
    }
}

/// Name of a unit.
pub open spec fn unit_name(unit: int) -> Seq<char> {
    if unit == 0 {
        "B"@
    } else if unit == 1 {
        "KB"@
    } else if unit == 2 {
        "MB"@
    } else if unit == 3 {
        "GB"@
    } else {
        "TB"@
    }
}

/// A size in bytes as it is shown.
pub open spec fn size_text(n: nat) -> Seq<char> {
    let v = nearest_double(n);
    let unit = unit_of(v);
    if unit == 0 {
        decimal(n) + " "@ + unit_name(0)
    } else {
        let tenths = round_half_even(v * 10, unit_bytes(unit));
        decimal(tenths / 10) + "."@ + seq![digit_char(tenths % 10)] + " "@ + unit_name(unit)
    }
}

/// Neighbouring doubles are at most `n / 2^52` apart.
proof fn lemma_spacing(n: nat)
    ensures
        spacing(n) >= 1,
        n >= EXACT_LIMIT ==> spacing(n) * 4_503_599_627_370_496 <= n,
    decreases n,
{
    if n >= EXACT_LIMIT {
        lemma_spacing(n / 2);
        if n / 2 < EXACT_LIMIT {
            assert(spacing(n / 2) == 1);
        }
    }
}

/// The distance between neighbouring doubles at `n`.
fn spacing_at(n: u64) -> (r: u64)
    ensures
        r == spacing(n as nat),
        1 <= r,
        n >= EXACT_LIMIT ==> r * 4_503_599_627_370_496 <= n,
{
    let mut rest: u64 = n;
    let mut r: u64 = 1;
    proof {
        lemma_spacing(n as nat);
    }
    while rest >= EXACT_LIMIT
        invariant
            spacing(n as nat) == r * spacing(rest as nat),
            1 <= r,
            r * rest <= n,
        decreases rest,
    {
        proof {
            lemma_spacing((rest / 2) as nat);
            assert(r * (2 * spacing((rest / 2) as nat)) == (r * 2) * spacing((rest / 2) as nat))
                by (nonlinear_arith);
            assert((r * 2) * (rest / 2) <= r * rest) by (nonlinear_arith);
            assert(r * 2 <= n) by (nonlinear_arith)
                requires
                    r * rest <= n,
                    rest >= 9_007_199_254_740_992u64,
                    r >= 1,
            ;
        }
        r = r * 2;
        rest = rest / 2;
    }
    assert(r * spacing(rest as nat) == r) by (nonlinear_arith)
        requires
            spacing(rest as nat) == 1,
    ;
    r
}

/// `n / d` rounded to the nearest integer, ties to the even one.
fn divide_half_even(n: u128, d: u128) -> (r: u128)
    requires
        0 < d <= 0x100_0000_0000,
        n < 0x1_0000_0000_0000_0000_0000,
    ensures
        r == round_half_even(n as nat, d as nat),
{
    let q: u128 = n / d;
    let rest: u128 = n % d;
    if 2 * rest < d || (2 * rest == d && q % 2 == 0) {
        q
    } else {
        q + 1
    }
}

/// The double-precision number nearest to `n`.
fn double_at(n: u64) -> (r: u128)
    ensures
        r == nearest_double(n as nat),
        r <= 2 * n,
{
    let s: u128 = spacing_at(n) as u128;
    assert(s <= 4096);
    let q: u128 = divide_half_even(n as u128, s);
    proof {
        let k = n as int / s as int;
        assert(k * s <= n && q <= k + 1 && q * s <= 2 * n) by (nonlinear_arith)
            requires
                k == n as int / s as int,
                q == k || q == k + 1,
                s >= 1,
                s <= n || (s == 1 && q == k),
        ;
    }
    q * s
}

/// A size in bytes as it is shown: in the largest unit in which it is at least
/// one, with one decimal unless the unit is the byte.
pub fn fmt_size(n: u64) -> (r: String)
    ensures
        r@ == size_text(n as nat),
{
    let v: u128 = double_at(n);
    let (unit, name): (u128, &str) = if v < 0x400 {
        (1, "B")
    } else if v < 0x10_0000 {
        (0x400, "KB")
    } else if v < 0x4000_0000 {
        (0x10_0000, "MB")
    } else if v < 0x100_0000_0000 {
        (0x4000_0000, "GB")
    } else {
        (0x100_0000_0000, "TB")
    };
    if unit == 1 {
        let mut out: String = decimal_string(n);
        out.append(" ");
        out.append(name);
        out
    } else {
        let tenths: u64 = divide_half_even(v * 10, unit) as u64;
        let mut out: String = decimal_string(tenths / 10);
        out.append(".");
        out.push((48u8 + (tenths % 10) as u8) as char);
        out.append(" ");
        out.append(name);
        out
    }
}

/// Whether `t` is the integer nearest to `n / d`, the even one of two.
pub open spec fn is_nearest(n: int, d: int, t: int) -> bool {
    &&& 2 * (n - t * d) <= d
    &&& 2 * (t * d - n) <= d
    &&& 2 * (n - t * d) == d || 2 * (t * d - n) == d ==> t % 2 == 0
}

/// Rounding gives the nearest integer, the even one of two.
pub proof fn law_rounding(n: nat, d: nat)
    requires
        d > 0,
    ensures
        is_nearest(n as int, d as int, round_half_even(n, d) as int),
{
    let q = (n / d) as int;
    let r = (n % d) as int;
    let e = d as int;
    lemma_fundamental_div_mod(n as int, e);
    assert(n - q * e == r && n - (q + 1) * e == r - e) by (nonlinear_arith)
        requires
            n == e * q + r,
    ;
}

/// Up to 53 bits every number is a double-precision number. Beyond, they are a
/// power of two apart, so that there are 52 further bits below the first.
pub proof fn law_double_precision(n: nat)
    ensures
        n < 0x20_0000_0000_0000 ==> nearest_double(n) == n,
        n >= 0x20_0000_0000_0000 ==> 0x10_0000_0000_0000 * spacing(n) <= n
            < 0x20_0000_0000_0000 * spacing(n),
        exists|e: nat| spacing(n) == #[trigger] pow(2, e),
        is_nearest(n as int, spacing(n) as int, round_half_even(n, spacing(n)) as int),
        nearest_double(n) == round_half_even(n, spacing(n)) * spacing(n),
    decreases n,
{
    lemma_spacing(n);
    law_rounding(n, spacing(n));
    if n < EXACT_LIMIT {
        lemma_pow0(2);
        assert(spacing(n) == pow(2, 0));
        assert(n / 1 == n && n % 1 == 0);
    } else {
        law_double_precision(n / 2);
        let e = choose|e: nat| spacing(n / 2) == #[trigger] pow(2, e);
        reveal(pow);
        assert(pow(2, e + 1) == 2 * pow(2, e));
        assert(spacing(n) == pow(2, e + 1));
    }
}

/// A size as it is shown. Below a kilobyte it is the number of bytes. From there on
/// it is a number of tenths of the largest unit in which it is at least one, the
/// nearest one to the size as a double-precision number.
pub proof fn law_size_text(n: nat)
    ensures
        ({
            let v = nearest_double(n);
            &&& v < 0x400 ==> size_text(n) == decimal(n) + " B"@
            &&& 0x400 <= v < 0x10_0000 ==> shows_tenths(size_text(n), v, 0x400, " KB"@)
            &&& 0x10_0000 <= v < 0x4000_0000 ==> shows_tenths(size_text(n), v, 0x10_0000, " MB"@)
            &&& 0x4000_0000 <= v < 0x100_0000_0000 ==> shows_tenths(
                size_text(n),
                v,
                0x4000_0000,
                " GB"@,
            )
            &&& 0x100_0000_0000 <= v ==> shows_tenths(size_text(n), v, 0x100_0000_0000, " TB"@)
        }),
{
    reveal_strlit(" ");
    reveal_strlit("B");
    reveal_strlit("KB");
    reveal_strlit("MB");
    reveal_strlit("GB");
    reveal_strlit("TB");
    reveal_strlit(" B");
    reveal_strlit(" KB");
    reveal_strlit(" MB");
    reveal_strlit(" GB");
    reveal_strlit(" TB");
    assert(" "@ + "B"@ == " B"@);
    assert(" "@ + "KB"@ == " KB"@);
    assert(" "@ + "MB"@ == " MB"@);
    assert(" "@ + "GB"@ == " GB"@);
    assert(" "@ + "TB"@ == " TB"@);
    let v = nearest_double(n);
    let unit = unit_of(v);
    let d = unit_bytes(unit);
    if unit == 0 {
        assert(decimal(n) + " "@ + "B"@ == decimal(n) + " B"@);
    } else {
        let t = round_half_even(v * 10, d);
        law_rounding(v * 10, d);
        let name = unit_name(unit);
        let head = decimal(t / 10) + "."@ + seq![digit_char(t % 10)];
        assert(head + " "@ + name == head + (" "@ + name));
        assert(is_nearest(10 * v as int, d as int, t as int));
    }
}

/// Whether a text shows `v` in units of `d`, with one decimal.
pub open spec fn shows_tenths(text: Seq<char>, v: nat, d: int, name: Seq<char>) -> bool {
    exists|t: nat|
        {
            &&& #[trigger] is_nearest(10 * v as int, d, t as int)
            &&& text == decimal(t / 10) + "."@ + seq![(48 + t % 10) as char] + name
        }
}

} // verus!
