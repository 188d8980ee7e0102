//! What holds of texts, numbers, sizes and times.
use crate::base64;
use crate::display;
use crate::heading_laws;
use crate::heading_laws::digit_char;
use crate::text;
use vstd::prelude::*;

verus! {

// ---------------------------------------------------------------- texts

/// A text is within another where that is the text with something before and after.
pub proof fn a_text_within_a_text(s: Seq<char>, p: Seq<char>)
    ensures
        text::contains_text(s, p) <==> exists|a: Seq<char>, b: Seq<char>|
            s == #[trigger] (a + p + b),
{
    if text::contains_text(s, p) {
        let i = choose|i: int| 0 <= i <= s.len() && #[trigger] text::starts_with(s.skip(i), p);
        let a = s.take(i);
        let b = s.skip(i).skip(p.len() as int);
        assert(s.skip(i).take(p.len() as int) == p);
        assert forall|k: int| 0 <= k < p.len() implies s[i + k] == p[k] by {
            assert(s.skip(i).take(p.len() as int)[k] == s[i + k]);
        }
        assert(s =~= a + p + b);
    }
    if exists|a: Seq<char>, b: Seq<char>| s == #[trigger] (a + p + b) {
        let (a, b) = choose|a: Seq<char>, b: Seq<char>| s == #[trigger] (a + p + b);
        let i = a.len() as int;
        assert(s.skip(i).take(p.len() as int) =~= p);
        assert(text::starts_with(s.skip(i), p));
    }
}

// ---------------------------------------------------------------- numbers

/// The text is digits, at least one.
pub open spec fn is_numeral(d: Seq<char>) -> bool {
    d.len() > 0 && forall|i: int| 0 <= i < d.len() ==> digit_char(#[trigger] d[i])
}

proof fn lemma_numeral(d: Seq<char>)
    ensures
        is_numeral(d) <==> text::all_digits(d),
{
    assert forall|i: int| 0 <= i < d.len() implies (digit_char(#[trigger] d[i])
        <==> text::ascii_digit(d[i])) by {
        heading_laws::the_classes_of_characters(d[i]);
    }
}

/// A numeral is read digit by digit: each further digit counts one, and those before
/// it ten times as much.
pub proof fn a_numeral_is_read_digit_by_digit(d: Seq<char>, v: nat)
    requires
        v < 10,
    ensures
        text::digits_value(Seq::<char>::empty()) == 0,
        text::digits_value(d.push("0123456789"@[v as int])) == 10 * text::digits_value(d) + v,
{
    reveal_strlit("0123456789");
    let c = "0123456789"@[v as int];
    assert(c as nat == 48 + v);
    assert(d.push(c).drop_last() =~= d);
}

/// The numeral of a number is digits that stand for it, without a zero in front of
/// others.
pub proof fn the_numeral_of_a_number(n: nat)
    ensures
        is_numeral(text::decimal(n)),
        text::digits_value(text::decimal(n)) == n,
        text::decimal(n).len() > 1 ==> text::decimal(n)[0] != '0',
        text::integer(n as int) == text::decimal(n),
        n > 0 ==> text::integer(-(n as int)) == "-"@ + text::decimal(n),
    decreases n,
{
    text::lemma_decimal(n);
    lemma_numeral(text::decimal(n));
    reveal_strlit("-");
    assert(seq!['-'] =~= "-"@);
    if n >= 10 {
        the_numeral_of_a_number(n / 10);
        assert(text::decimal(n)[0] == text::decimal(n / 10)[0]);
        let m = n / 10;
        if m < 10 {
            assert(text::decimal(m)[0] == text::digit_char(m));
            assert(text::digit_char(m) as int == 48 + m);
        } else {
            text::lemma_decimal(m / 10);
            assert(text::decimal(m).len() > 1);
        }
    }
}

/// A number with a sign is read where it fits 64 bits; a text that is none is not.
pub proof fn numbers_are_read_with_their_sign(d: Seq<char>, s: Seq<char>)
    ensures
        is_numeral(d) && text::digits_value(d) <= i64::MAX ==> text::i64_value(d) == Some(
            text::digits_value(d) as i64,
        ) && text::i64_value("+"@ + d) == Some(text::digits_value(d) as i64) && text::i64_value(
            "-"@ + d,
        ) == Some((-(text::digits_value(d) as int)) as i64),
        is_numeral(d) && text::digits_value(d) > i64::MAX ==> text::i64_value(d) is None
            && text::i64_value("+"@ + d) is None,
        is_numeral(d) && text::digits_value(d) > 0x8000_0000_0000_0000 ==> text::i64_value("-"@ + d) is None,
        is_numeral(d) && text::digits_value(d) == 0x8000_0000_0000_0000 ==> text::i64_value("-"@ + d)
            == Some(i64::MIN),
        (!is_numeral(s) && !(s.len() > 0 && (s[0] == '-' || s[0] == '+') && is_numeral(s.skip(1))))
            ==> text::i64_value(s) is None,
{
    lemma_numeral(d);
    lemma_numeral(s);
    lemma_numeral(s.skip(1));
    reveal_strlit("+");
    reveal_strlit("-");
    assert(("+"@ + d).skip(1) =~= d);
    assert(("-"@ + d).skip(1) =~= d);
    if is_numeral(d) {
        assert(text::ascii_digit(d[0]));
    }
}

// ---------------------------------------------------------------- sizes and times

/// The name of the unit of so many bytes.
pub open spec fn unit_name(unit: nat) -> Seq<char> {
    if unit == 1024 {
        "KB"@
    } else if unit == 1048576 {
        "MB"@
    } else if unit == 1073741824 {
        "GB"@
    } else {
        "TB"@
    }
}

/// A number of hundredths, with a point before the last two digits.
pub open spec fn with_point(h: nat) -> Seq<char> {
    text::decimal(h / 100) + "."@ + (if h % 100 < 10 {
        "0"@ + text::decimal(h % 100)
    } else {
        text::decimal(h % 100)
    })
}

/// A size is shown in bytes below a kilobyte, and otherwise in hundredths of the
/// largest unit that it reaches, rounded to the nearest and half-way to the even one; a
/// size that no double-precision number is exactly counts as the nearest one that is.
pub proof fn a_size_is_shown_in_its_unit(bytes: nat)
    ensures
        ({
            let x = display::nearest_double(bytes);
            &&& x < 1024 ==> display::size_text(bytes) == text::decimal(bytes) + " B"@
            &&& x >= 1024 ==> exists|unit: nat, h: nat|
                #![trigger with_point(h), unit_name(unit)]
                {
                    &&& unit == 1024 || unit == 1048576 || unit == 1073741824 || unit
                        == 1099511627776
                    &&& unit <= x
                    &&& unit < 1099511627776 ==> x < 1024 * unit
                    &&& 200 * x <= 2 * h * unit + unit
                    &&& 2 * h * unit <= 200 * x + unit
                    &&& 2 * h * unit == 200 * x + unit || 2 * h * unit + unit == 200 * x ==> h % 2
                        == 0
                    &&& display::size_text(bytes) == with_point(h) + " "@ + unit_name(unit)
                }
        }),
{
    let x = display::nearest_double(bytes);
    reveal_strlit(" B");
    reveal_strlit(" ");
    reveal_strlit("B");
    if x < 1024 {
        assert((text::decimal(bytes) + " "@) + "B"@ =~= text::decimal(bytes) + " B"@);
    } else {
        let (unit, name) = display::size_unit(x);
        let h = display::half_even(x * 100, unit);
        lemma_half(x * 100, unit);
        lemma_point(h);
        assert(name == unit_name(unit));
        assert(2 * h * unit == 2 * (h * unit)) by (nonlinear_arith);
        assert(display::size_text(bytes) == with_point(h) + " "@ + unit_name(unit));
    }
}

/// A number below 2^53 is a double-precision number. A larger one counts as the nearest:
/// a multiple of the distance between the doubles there, at most half of it away, and
/// half-way an even multiple.
pub proof fn the_nearest_double(n: nat)
    ensures
        n < 0x20_0000_0000_0000 ==> display::nearest_double(n) == n,
        exists|s: nat, m: nat|
            #![trigger display::half_even(m, s)]
            {
                &&& s > 0
                &&& n < s * 0x20_0000_0000_0000
                &&& s == 1 || n >= s * 0x10_0000_0000_0000
                &&& display::nearest_double(n) == s * display::half_even(m, s)
                &&& 2 * n <= 2 * display::nearest_double(n) + s
                &&& 2 * display::nearest_double(n) <= 2 * n + s
                &&& 2 * display::nearest_double(n) == 2 * n + s || 2 * display::nearest_double(n) + s
                    == 2 * n ==> display::half_even(m, s) % 2 == 0
            },
{
    let s = display::spacing(n, 1);
    lemma_spacing(n, 1);
    lemma_half(n, s);
    let h = display::half_even(n, s);
    assert(h * s == s * h) by (nonlinear_arith);
    if n < 0x20_0000_0000_0000 {
        lemma_exact(n);
    }
}

proof fn lemma_spacing(n: nat, s: nat)
    requires
        s > 0,
        s == 1 || n >= s * 0x10_0000_0000_0000,
    ensures
        ({
            let r = display::spacing(n, s);
            r > 0 && n < r * 0x20_0000_0000_0000 && (r == 1 || n >= r * 0x10_0000_0000_0000)
        }),
    decreases n - s,
{
    if n >= s * 0x20_0000_0000_0000 {
        lemma_spacing(n, 2 * s);
    }
}

proof fn lemma_exact(n: nat)
    requires
        n < 0x20_0000_0000_0000,
    ensures
        display::nearest_double(n) == n,
{
    assert(display::spacing(n, 1) == 1);
    assert(display::half_even(n, 1) == n);
}

proof fn lemma_half(num: nat, den: nat)
    requires
        den > 0,
    ensures
        2 * num <= 2 * (display::half_even(num, den) * den) + den,
        2 * (display::half_even(num, den) * den) <= 2 * num + den,
        2 * (display::half_even(num, den) * den) == 2 * num + den || 2 * (display::half_even(
            num,
            den,
        ) * den) + den == 2 * num ==> display::half_even(num, den) % 2 == 0,
{
    let q = num / den;
    let r = num % den;
    assert(num == q * den + r && 0 <= r < den) by (nonlinear_arith)
        requires
            den > 0,
            q == num / den,
            r == num % den,
    ;
    assert((q + 1) * den == q * den + den) by (nonlinear_arith);
    assert((q + q % 2) * den == q * den || (q + q % 2) * den == q * den + den) by {
        if q % 2 == 0 {
            assert(q + q % 2 == q);
        } else {
            assert(q + q % 2 == q + 1);
        }
    }
}

proof fn lemma_point(h: nat)
    ensures
        display::hundredths_text(h) == with_point(h),
{
    let r = h % 100;
    reveal_strlit("0");
    reveal_strlit(".");
    if r < 10 {
        assert(display::two_digits(r) =~= "0"@ + text::decimal(r));
    } else {
        assert(r / 10 < 10);
        assert(text::decimal(r / 10) == seq![text::digit_char(r / 10)]);
        assert(display::two_digits(r) =~= text::decimal(r));
    }
    assert(display::hundredths_text(h) =~= with_point(h));
}

/// A time is shown as minutes and seconds, two digits each at least.
pub proof fn a_time_is_minutes_and_seconds(minutes: nat, seconds: nat)
    requires
        seconds < 60,
    ensures
        display::clock(60 * minutes + seconds) == (if minutes < 10 {
            "0"@ + text::decimal(minutes)
        } else {
            text::decimal(minutes)
        }) + ":"@ + (if seconds < 10 {
            "0"@ + text::decimal(seconds)
        } else {
            text::decimal(seconds)
        }),
{
    assert((60 * minutes + seconds) / 60 == minutes);
    assert((60 * minutes + seconds) % 60 == seconds);
}

// ---------------------------------------------------------------- base64

/// The characters of base64, in the order of their values.
pub open spec fn base64_chars() -> Seq<char> {
    "ABCDEFGHIJKLMNOPQRSTUVWXYZabcdefghijklmnopqrstuvwxyz0123456789+/"@
}

proof fn lemma_base64_char(v: int)
    requires
        0 <= v < 64,
    ensures
        base64::sextet(v) == base64_chars()[v],
{
    reveal_strlit("ABCDEFGHIJKLMNOPQRSTUVWXYZabcdefghijklmnopqrstuvwxyz0123456789+/");
    let cs = base64_chars();
    assert(cs.len() == 64);
    if v < 26 {
        assert(cs[v] as int == 65 + v);
    } else if v < 52 {
        assert(cs[v] as int == 97 + (v - 26));
    } else if v < 62 {
        assert(cs[v] as int == 48 + (v - 52));
    }
}

/// Three bytes become four characters, each for six bits, from the highest on; one or
/// two bytes at the end are filled up with zero bits and `=`.
pub proof fn base64_takes_six_bits_at_a_time(front: Seq<u8>, a: u8, b: u8, c: u8)
    requires
        front.len() % 3 == 0,
    ensures
        ({
            let cs = base64_chars();
            let t = a * 65536 + b * 256 + c;
            base64::encoded(front + seq![a, b, c]) == base64::encoded(front) + seq![
                cs[t / 262144],
                cs[t / 4096 % 64],
                cs[t / 64 % 64],
                cs[t % 64],
            ]
        }),
        ({
            let cs = base64_chars();
            let t = a * 65536 + b * 256;
            base64::encoded(front + seq![a, b]) == base64::encoded(front) + seq![
                cs[t / 262144],
                cs[t / 4096 % 64],
                cs[t / 64 % 64],
                '=',
            ]
        }),
        ({
            let cs = base64_chars();
            let t = a * 65536;
            base64::encoded(front + seq![a]) == base64::encoded(front) + seq![
                cs[t / 262144],
                cs[t / 4096 % 64],
                '=',
                '=',
            ]
        }),
        base64::encoded(Seq::<u8>::empty()).len() == 0,
    decreases front.len(),
{
    if front.len() == 0 {
        let t = a * 65536 + b * 256 + c;
        let u = a * 65536 + b * 256;
        let w = a * 65536;
        lemma_base64_char(t / 262144);
        lemma_base64_char(t / 4096 % 64);
        lemma_base64_char(t / 64 % 64);
        lemma_base64_char(t % 64);
        lemma_base64_char(u / 262144);
        lemma_base64_char(u / 4096 % 64);
        lemma_base64_char(u / 64 % 64);
        lemma_base64_char(w / 262144);
        lemma_base64_char(w / 4096 % 64);
        assert(front + seq![a, b, c] =~= seq![a, b, c]);
        assert(front + seq![a, b] =~= seq![a, b]);
        assert(front + seq![a] =~= seq![a]);
        assert(seq![a, b, c].skip(3) =~= Seq::<u8>::empty());
        assert(base64::encoded(seq![a, b, c]) =~= base64::encoded(front) + base64::quad(a, b, c, 3));
        assert(base64::encoded(seq![a, b]) =~= base64::encoded(front) + base64::quad(a, b, 0, 2));
        assert(base64::encoded(seq![a]) =~= base64::encoded(front) + base64::quad(a, 0, 0, 1));
    } else {
        let rest = front.skip(3);
        base64_takes_six_bits_at_a_time(rest, a, b, c);
        lemma_base64_rest(front, seq![a, b, c]);
        lemma_base64_rest(front, seq![a, b]);
        lemma_base64_rest(front, seq![a]);
        lemma_base64_rest(front, Seq::<u8>::empty());
        assert(front + Seq::<u8>::empty() =~= front);
        assert(rest + Seq::<u8>::empty() =~= rest);
        let q = base64::quad(front[0], front[1], front[2], 3);
        assert(base64::encoded(front) == q + base64::encoded(rest));
        let cs = base64_chars();
        let t = a * 65536 + b * 256 + c;
        let u = a * 65536 + b * 256;
        let w = a * 65536;
        let x3 = seq![cs[t / 262144], cs[t / 4096 % 64], cs[t / 64 % 64], cs[t % 64]];
        let x2 = seq![cs[u / 262144], cs[u / 4096 % 64], cs[u / 64 % 64], '='];
        let x1 = seq![cs[w / 262144], cs[w / 4096 % 64], '=', '='];
        assert(q + (base64::encoded(rest) + x3) =~= (q + base64::encoded(rest)) + x3);
        assert(q + (base64::encoded(rest) + x2) =~= (q + base64::encoded(rest)) + x2);
        assert(q + (base64::encoded(rest) + x1) =~= (q + base64::encoded(rest)) + x1);
    }
}

proof fn lemma_base64_rest(front: Seq<u8>, back: Seq<u8>)
    requires
        front.len() >= 3,
    ensures
        base64::encoded(front + back) == base64::quad(front[0], front[1], front[2], 3)
            + base64::encoded(front.skip(3) + back),
{
    let all = front + back;
    assert(all.skip(3) =~= front.skip(3) + back);
    assert(all[0] == front[0] && all[1] == front[1] && all[2] == front[2]);
}

} // verus!
