//! Sizes and times as the window shows them.
use crate::text;
use vstd::prelude::*;
use vstd::string::StringExecFns;

verus! {

/// The quotient rounded to the nearest integer, ties to the even one.
pub open spec fn half_even(num: nat, den: nat) -> nat {
    let q = num / den;
    let r = num % den;
    if 2 * r < den {
        q
    } else if 2 * r > den {
        q + 1
    } else {
        q + q % 2
    }
}

/// The distance between neighbouring double-precision numbers at `n`, where it is
/// at least `s`.
pub open spec fn spacing(n: nat, s: nat) -> nat
    decreases n - s,
{
    if n < s * 0x20_0000_0000_0000 || s == 0 {
        s
    } else {
        spacing(n, 2 * s)
    }
}

/// The double-precision number nearest to `n`.
pub open spec fn nearest_double(n: nat) -> nat {
    spacing(n, 1) * half_even(n, spacing(n, 1))
}

/// The unit in which a size is shown: its number of bytes, and its name.
pub open spec fn size_unit(x: nat) -> (nat, Seq<char>) {
    if x < 1024 {
        (1, "B"@)
    } else if x < 0x10_0000 {
        (1024, "KB"@)
    } else if x < 0x4000_0000 {
        (0x10_0000, "MB"@)
    } else if x < 0x100_0000_0000 {
        (0x4000_0000, "GB"@)
    } else {
        (0x100_0000_0000, "TB"@)
    }
}

/// Two decimal digits.
pub open spec fn two_digits(n: nat) -> Seq<char> {
    seq![text::digit_char(n / 10), text::digit_char(n % 10)]
}

/// A number of hundredths with two decimal places.
pub open spec fn hundredths_text(h: nat) -> Seq<char> {
    (text::decimal(h / 100) + "."@) + two_digits(h % 100)
}

/// A size in bytes as the window shows it: whole bytes below a kilobyte, and
/// otherwise two decimal places in the largest unit that fits, as a
/// double-precision quotient rounds.
pub open spec fn size_text(bytes: nat) -> Seq<char> {
    let x = nearest_double(bytes);
    let (unit, name) = size_unit(x);
    if unit == 1 {
        (text::decimal(bytes) + " "@) + name
    } else {
        (hundredths_text(half_even(x * 100, unit)) + " "@) + name
    }
}

fn round_half_even(num: u128, den: u128) -> (r: u128)
    requires
        0 < den <= 0x100_0000_0000,
        num <= 0x1000_0000_0000_0000_0000,
    ensures
        r == half_even(num as nat, den as nat),
        r <= num / den + 1,
{
    let q: u128 = num / den;
    let r: u128 = num % den;
    proof {
        assert(q <= num) by (nonlinear_arith)
            requires
                q == num / den,
                den > 0,
        ;
    }
    if 2 * r < den {
        q
    } else if 2 * r > den {
        q + 1
    } else {
        q + q % 2
    }
}

/// The double-precision number nearest to `n`.
fn to_double(n: u64) -> (r: u128)
    ensures
        r == nearest_double(n as nat),
        r <= 0x2_0000_0000_0000_0000,
        n < 0x20_0000_0000_0000 ==> r == n,
{
    let mut s: u128 = 1;
    while n as u128 >= s * 0x20_0000_0000_0000
        invariant
            s == 1 || s == 2 || s == 4 || s == 8 || s == 16 || s == 32 || s == 64 || s == 128 || s
                == 256 || s == 512 || s == 1024 || s == 2048,
            spacing(n as nat, 1) == spacing(n as nat, s as nat),
            s == 1 || n as u128 >= 0x20_0000_0000_0000,
        decreases 2048 - s,
    {
        s = s * 2;
    }
    assert(spacing(n as nat, s as nat) == s as nat);
    let q = round_half_even(n as u128, s);
    proof {
        assert(q * s <= n + s) by (nonlinear_arith)
            requires
                q <= n as u128 / s + 1,
                s > 0,
        ;
        assert(s == 1 ==> half_even(n as nat, 1) == n);
        assert(q * s == s * q) by (nonlinear_arith);
    }
    s * q
}

/// A size in bytes as the window shows it.
pub fn format_bytes(bytes: usize) -> (r: String)
    ensures
        r@ == size_text(bytes as nat),
{
    let x = to_double(bytes as u64);
    if x < 1024 {
        let mut out = text::usize_text(bytes);
        out.append(" ");
        out.append("B");
        return out;
    }
    let (unit, name): (u128, &str) = if x < 0x10_0000 {
        (1024, "KB")
    } else if x < 0x4000_0000 {
        (0x10_0000, "MB")
    } else if x < 0x100_0000_0000 {
        (0x4000_0000, "GB")
    } else {
        (0x100_0000_0000, "TB")
    };
    let h = round_half_even(x * 100, unit);
    let whole: u128 = h / 100;
    proof {
        assert((x * 100) / 1024 <= x);
        assert((x * 100) / (unit as int) <= (x * 100) / 1024) by (nonlinear_arith)
            requires
                unit >= 1024,
        ;
        assert(whole <= u64::MAX);
    }
    let mut out = text::decimal_text(whole as u64);
    out.append(".");
    push_two_digits(&mut out, (h % 100) as u64);
    out.append(" ");
    out.append(name);
    out
}

fn push_two_digits(out: &mut String, n: u64)
    requires
        n < 100,
    ensures
        final(out)@ == old(out)@ + two_digits(n as nat),
{
    out.push(text::digit_of(n / 10));
    out.push(text::digit_of(n % 10));
    assert(out@ =~= old(out)@ + two_digits(n as nat));
}

/// A number with at least two digits.
pub open spec fn padded(n: nat) -> Seq<char> {
    if n < 10 {
        "0"@ + text::decimal(n)
    } else {
        text::decimal(n)
    }
}

/// A time in seconds as minutes and seconds.
pub open spec fn clock(secs: nat) -> Seq<char> {
    (padded(secs / 60) + ":"@) + padded(secs % 60)
}

fn padded_text(n: u64) -> (r: String)
    ensures
        r@ == padded(n as nat),
{
    if n < 10 {
        let mut out = "0".to_owned();
        out.append(text::decimal_text(n).as_str());
        out
    } else {
        text::decimal_text(n)
    }
}

/// A time in seconds as minutes and seconds.
pub fn clock_text(secs: u64) -> (r: String)
    ensures
        r@ == clock(secs as nat),
{
    let mut out = padded_text(secs / 60);
    out.append(":");
    out.append(padded_text(secs % 60).as_str());
    out
}

} // verus!
