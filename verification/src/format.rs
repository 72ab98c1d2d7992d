use vstd::prelude::*;
use vstd::string::StringSliceAdditionalSpecFns;
use crate::text::{dec, dec_int, push_char, push_decimal, push_signed_decimal, push_str};

verus! {

/// A duration of `s` whole seconds as the dashboard prints it: seconds below
/// a minute, minutes below an hour, hours and minutes below a day, then days
/// and hours.
pub open spec fn duration_text(s: int) -> Seq<char> {
    if s < 60 {
        dec_int(s) + seq!['s']
    } else {
        let m = s / 60;
        if m < 60 {
            dec(m as nat) + seq!['m']
        } else {
            let h = m / 60;
            let rm = m % 60;
            if h < 24 {
                if rm > 0 {
                    dec(h as nat) + seq!['h', ' '] + dec(rm as nat) + seq!['m']
                } else {
                    dec(h as nat) + seq!['h']
                }
            } else {
                dec((h / 24) as nat) + seq!['d', ' '] + dec((h % 24) as nat) + seq!['h']
            }
        }
    }
}

/// A duration of at least a day is printed as its whole days `d` and the
/// hours `h` left over (fewer than a day): `d * 24 + h` is the number of
/// whole hours in it.
pub proof fn lemma_duration_days(s: int, d: nat, h: nat)
    requires
        d >= 1,
        h < 24,
        d * 24 + h == s / 3600,
    ensures
        s >= 86400,
        duration_text(s) == dec(d) + seq!['d', ' '] + dec(h) + seq!['h'],
{
    let m = s / 60;
    let hh = m / 60;
    assert(hh == s / 3600);
    assert(hh / 24 == d && hh % 24 == h);
}

/// A duration of at least an hour and under a day is printed as its whole
/// hours `h` and, when there are any, the minutes `rm` left over (fewer than
/// an hour): `h * 60 + rm` is the number of whole minutes in it.
pub proof fn lemma_duration_hours(s: int, h: nat, rm: nat)
    requires
        1 <= h < 24,
        rm < 60,
        h * 60 + rm == s / 60,
    ensures
        3600 <= s < 86400,
        duration_text(s) == if rm > 0 {
            dec(h) + seq!['h', ' '] + dec(rm) + seq!['m']
        } else {
            dec(h) + seq!['h']
        },
{
    let m = s / 60;
    assert(m / 60 == h && m % 60 == rm);
}

/// A duration under a minute is printed as its seconds, and one of at least
/// a minute and under an hour as its whole minutes `m`.
pub proof fn lemma_duration_short(s: int, m: nat)
    ensures
        s < 60 ==> duration_text(s) == dec_int(s) + seq!['s'],
        1 <= m < 60 && m == s / 60 ==> 60 <= s < 3600 && duration_text(s) == dec(m) + seq!['m'],
{
}

/// Formats a duration of `s` whole seconds.
pub fn fmt_duration_secs(s: i64) -> (r: String)
    ensures
        r@ == duration_text(s as int),
{
    let mut out = String::new();
    if s < 60 {
        push_signed_decimal(&mut out, s);
        push_char(&mut out, 's');
        return out;
    }
    let m = (s / 60) as u64;
    if m < 60 {
        push_decimal(&mut out, m);
        push_char(&mut out, 'm');
        return out;
    }
    let h = m / 60;
    let rm = m % 60;
    if h < 24 {
        push_decimal(&mut out, h);
        push_char(&mut out, 'h');
        if rm > 0 {
            push_char(&mut out, ' ');
            push_decimal(&mut out, rm);
            push_char(&mut out, 'm');
        }
    } else {
        push_decimal(&mut out, h / 24);
        push_char(&mut out, 'd');
        push_char(&mut out, ' ');
        push_decimal(&mut out, h % 24);
        push_char(&mut out, 'h');
    }
    out
}

/// `num / den` rounded to the nearest integer, ties to the even one.
pub open spec fn round_half_even(num: int, den: int) -> int {
    let q = num / den;
    let r = num % den;
    if 2 * r > den || (2 * r == den && q % 2 == 1) {
        q + 1
    } else {
        q
    }
}

/// Two to the power `n`.
pub open spec fn p2(n: nat) -> nat
    decreases n,
{
    if n == 0 {
        1
    } else {
        2 * p2((n - 1) as nat)
    }
}

/// Number of binary digits of `n` (zero for zero).
pub open spec fn bitlen(n: nat) -> nat
    decreases n,
{
    if n == 0 {
        0
    } else {
        1 + bitlen(n / 2)
    }
}

/// The integer that `ms as f64` holds: `ms` rounded to 53 significant bits,
/// ties to even.
pub open spec fn f64_of(ms: nat) -> nat {
    if bitlen(ms) <= 53 {
        ms
    } else {
        let s = (bitlen(ms) - 53) as nat;
        (round_half_even(ms as int, p2(s) as int) * p2(s)) as nat
    }
}

/// Tenths of a second, as the nearest `f64` to `m / 1000` (for `m` at least
/// 1000), rounded to one decimal with ties to even: the `f64` is
/// `n * 2^-t` with a 53-bit `n`.
pub open spec fn tenths_of(m: nat) -> int {
    let l = bitlen(m / 1000) - 1;
    if l <= 52 {
        let t = (52 - l) as nat;
        let n = round_half_even((m * p2(t)) as int, 1000);
        round_half_even(10 * n, p2(t) as int)
    } else {
        let u = (l - 52) as nat;
        10 * p2(u) * round_half_even(m as int, (1000 * p2(u)) as int)
    }
}

/// A response time as the dashboard prints it: whole milliseconds below one
/// second, otherwise `ms as f64 / 1000.0` in seconds with one decimal.
pub open spec fn ms_text(ms: int) -> Seq<char> {
    if ms >= 1000 {
        let tenths = tenths_of(f64_of(ms as nat));
        dec((tenths / 10) as nat) + seq!['.'] + seq![crate::text::digit_char(tenths % 10)]
            + seq!['s']
    } else {
        dec(ms as nat) + seq!['m', 's']
    }
}

proof fn lemma_p2_pos(n: nat)
    ensures
        p2(n) >= 1,
    decreases n,
{
    if n > 0 {
        lemma_p2_pos((n - 1) as nat);
    }
}

proof fn lemma_p2_mono(a: nat, b: nat)
    requires
        a <= b,
    ensures
        p2(a) <= p2(b),
    decreases b,
{
    lemma_p2_pos(b);
    if a < b {
        lemma_p2_mono(a, (b - 1) as nat);
    }
}

/// A number has at most `k` bits exactly when it is below `2^k`.
proof fn lemma_bitlen_bound(n: nat, k: nat)
    ensures
        bitlen(n) <= k <==> n < p2(k),
    decreases n,
{
    if n == 0 {
        lemma_p2_pos(k);
    } else if k == 0 {
    } else {
        lemma_bitlen_bound(n / 2, (k - 1) as nat);
    }
}

proof fn lemma_p2_add(a: nat, b: nat)
    ensures
        p2(a + b) == p2(a) * p2(b),
    decreases a,
{
    if a > 0 {
        let x = p2((a - 1) as nat);
        let y = p2(b);
        lemma_p2_add((a - 1) as nat, b);
        assert(p2(a + b) == 2 * p2((a - 1 + b) as nat));
        assert(p2(a) == 2 * x);
        assert(2 * (x * y) == (2 * x) * y) by (nonlinear_arith);
        assert(p2((a - 1 + b) as nat) == x * y);
        assert(p2(a + b) == 2 * (x * y));
        assert(p2(a) * p2(b) == (2 * x) * y);
    } else {
        assert(p2(a) == 1);
        assert(a + b == b);
    }
}

proof fn lemma_p2_values()
    ensures
        p2(11) == 2048,
        p2(53) == 0x20_0000_0000_0000,
        p2(64) == 0x1_0000_0000_0000_0000,
{
    reveal_with_fuel(p2, 12);
    assert(p2(2) == 4);
    assert(p2(10) == 1024);
    assert(p2(11) == 2048);
    lemma_p2_add(10, 10);
    assert(p2(20) == 0x10_0000);
    lemma_p2_add(20, 20);
    assert(p2(40) == 0x100_0000_0000);
    lemma_p2_add(40, 11);
    assert(p2(51) == 0x8_0000_0000_0000);
    lemma_p2_add(51, 2);
    assert(p2(53) == 0x20_0000_0000_0000);
    lemma_p2_add(40, 20);
    assert(p2(60) == 0x1000_0000_0000_0000);
    lemma_p2_add(60, 2);
    assert(p2(62) == 0x4000_0000_0000_0000);
    lemma_p2_add(62, 2);
    assert(p2(64) == 0x1_0000_0000_0000_0000);
}

/// `2^n` as a 128-bit integer.
fn pow2_u128(n: u32) -> (r: u128)
    requires
        n <= 64,
    ensures
        r as nat == p2(n as nat),
{
    let mut r: u128 = 1;
    let mut i: u32 = 0;
    while i < n
        invariant
            i <= n <= 64,
            r as nat == p2(i as nat),
        decreases n - i,
    {
        proof {
            lemma_p2_mono(i as nat + 1, 64);
            lemma_p2_values();
        }
        r = r * 2;
        i = i + 1;
    }
    r
}

/// The number of bits of `n`.
fn bitlen_u64(n: u64) -> (r: u32)
    ensures
        r as nat == bitlen(n as nat),
        r <= 64,
{
    let mut x = n;
    let mut b: u32 = 0;
    proof {
        lemma_bitlen_bound(n as nat, 64);
        lemma_p2_values();
    }
    while x > 0
        invariant
            bitlen(n as nat) == b + bitlen(x as nat),
            bitlen(n as nat) <= 64,
        decreases x,
    {
        x = x / 2;
        b = b + 1;
    }
    b
}

fn round_half_even_u128(num: u128, den: u128) -> (r: u128)
    requires
        0 < den,
        num < 0x4000_0000_0000_0000_0000_0000_0000_0000,
    ensures
        r as int == round_half_even(num as int, den as int),
{
    let q = num / den;
    let rem = num % den;
    proof {
        assert(q as int * den as int + rem as int == num as int) by (nonlinear_arith)
            requires
                q == num / den,
                rem == num % den,
                den > 0,
        ;
        assert(q as int <= num as int) by (nonlinear_arith)
            requires
                q as int * den as int <= num as int,
                den >= 1,
                q >= 0,
        ;
    }
    if rem > den - rem || (rem == den - rem && q % 2 == 1) {
        q + 1
    } else {
        q
    }
}

/// Formats a response time given in milliseconds.
pub fn fmt_ms(ms: u64) -> (r: String)
    ensures
        r@ == ms_text(ms as int),
{
    let mut out = String::new();
    if ms < 1000 {
        push_decimal(&mut out, ms);
        push_char(&mut out, 'm');
        push_char(&mut out, 's');
        return out;
    }
    // The value of `ms as f64`.
    let b = bitlen_u64(ms);
    proof {
        lemma_p2_values();
        lemma_bitlen_bound(ms as nat, 64);
    }
    let m: u128 = if b <= 53 {
        ms as u128
    } else {
        let p = pow2_u128(b - 53);
        proof {
            lemma_p2_mono((b - 53) as nat, 11);
            lemma_p2_pos((b - 53) as nat);
        }
        let n = round_half_even_u128(ms as u128, p);
        proof {
            assert(n as int * p as int <= ms as int + p as int) by (nonlinear_arith)
                requires
                    n as int == round_half_even(ms as int, p as int),
                    p >= 1,
            ;
        }
        n * p
    };
    assert(m as nat == f64_of(ms as nat));
    assert(m >= 1000) by {
        if b > 53 {
            lemma_bitlen_bound(ms as nat, 53);
            lemma_round_keeps_large(ms as nat, (b - 53) as nat);
        }
    }
    let q1: u64 = (m / 1000) as u64;
    let lb = bitlen_u64(q1);
    proof {
        lemma_bitlen_bound(q1 as nat, lb as nat);
        lemma_bitlen_bound(q1 as nat, (lb - 1) as nat);
        lemma_bitlen_bound(q1 as nat, 55);
        lemma_p2_add(53, 2);
        reveal_with_fuel(p2, 3);
    }
    let l = lb - 1;
    let tenths: u128 = if l <= 52 {
        let t = 52 - l;
        let pt = pow2_u128(t);
        proof {
            lemma_p2_pos(t as nat);
            lemma_p2_add(l as nat + 1, t as nat);
            assert(l as nat + 1 + t as nat == 53);
            assert(m < 1000 * p2(lb as nat)) by (nonlinear_arith)
                requires
                    q1 == m / 1000,
                    (q1 as nat) < p2(lb as nat),
            ;
            assert(m * pt < 1000 * p2(53)) by (nonlinear_arith)
                requires
                    m < 1000 * p2(lb as nat),
                    pt == p2(t as nat),
                    pt >= 1,
                    p2(53) == p2(lb as nat) * p2(t as nat),
            ;
        }
        let n = round_half_even_u128(m * pt, 1000);
        proof {
            assert(n as int <= p2(53)) by (nonlinear_arith)
                requires
                    n as int == round_half_even((m * pt) as int, 1000),
                    m * pt < 1000 * p2(53),
            ;
            lemma_p2_pos(t as nat);
        }
        let tt = round_half_even_u128(10 * n, pt);
        proof {
            assert(tt as int * pt as int <= 10 * n as int + pt as int) by (nonlinear_arith)
                requires
                    tt as int == round_half_even((10 * n) as int, pt as int),
                    pt >= 1,
            ;
            assert(tt as int <= 10 * n as int + 1) by (nonlinear_arith)
                requires
                    tt as int * pt as int <= 10 * n as int + pt as int,
                    pt >= 1,
                    tt >= 0,
            ;
        }
        tt
    } else {
        let pu = pow2_u128(l - 52);
        proof {
            lemma_p2_mono((l - 52) as nat, 2);
            lemma_p2_pos((l - 52) as nat);
            reveal_with_fuel(p2, 3);
        }
        let nq = round_half_even_u128(m, 1000 * pu);
        proof {
            assert(nq as int * (1000 * pu) as int <= m as int + (1000 * pu) as int) by (nonlinear_arith)
                requires
                    nq as int == round_half_even(m as int, (1000 * pu) as int),
                    pu >= 1,
            ;
            assert(pu as int * nq as int <= 0x200_0000_0000_0000) by (nonlinear_arith)
                requires
                    nq as int * (1000 * pu) as int <= m as int + (1000 * pu) as int,
                    1 <= pu <= 4,
                    m < 0x1_0000_0000_0000_0800,
            ;
            assert(10 * (pu as int * nq as int) == 10 * pu as int * nq as int) by (nonlinear_arith);
        }
        10 * (pu * nq)
    };
    assert(tenths as int == tenths_of(f64_of(ms as nat)));
    assert(tenths / 10 < 0x1_0000_0000_0000_0000);
    push_decimal(&mut out, (tenths / 10) as u64);
    push_char(&mut out, '.');
    push_char(&mut out, crate::text::digit((tenths % 10) as u64));
    push_char(&mut out, 's');
    out
}

/// Rounding a number of at least 54 bits to fewer bits keeps it large.
proof fn lemma_round_keeps_large(ms: nat, s: nat)
    requires
        ms >= p2(53),
        1 <= s <= 11,
    ensures
        round_half_even(ms as int, p2(s) as int) * p2(s) >= 1000,
{
    lemma_p2_values();
    lemma_p2_mono(s, 11);
    lemma_p2_pos(s);
    let q = (ms as int) / (p2(s) as int);
    assert(round_half_even(ms as int, p2(s) as int) >= q);
    assert(q * p2(s) >= ms - p2(s)) by (nonlinear_arith)
        requires
            q == (ms as int) / (p2(s) as int),
            p2(s) >= 1,
    ;
    assert(round_half_even(ms as int, p2(s) as int) * p2(s) >= q * p2(s)) by (nonlinear_arith)
        requires
            round_half_even(ms as int, p2(s) as int) >= q,
            p2(s) >= 1,
    ;
}

/// The label under a day bar of the downtime history: `u32::MAX` marks a day
/// without data.
pub open spec fn downtime_label_text(mins: int) -> Seq<char> {
    if mins == u32::MAX {
        "No data"@
    } else if mins == 0 {
        "No downtime"@
    } else if mins >= 60 {
        dec((mins / 60) as nat) + seq!['h', ' '] + dec((mins % 60) as nat) + "m downtime"@
    } else {
        dec(mins as nat) + " min downtime"@
    }
}

/// A day with downtime is described by its minutes below an hour, and
/// otherwise by its whole hours `h` and the minutes `rm` left over (fewer
/// than an hour), with `h * 60 + rm` the minutes of downtime.
pub proof fn lemma_downtime_label_parts(mins: int, h: nat, rm: nat)
    requires
        mins != u32::MAX,
    ensures
        mins == 0 ==> downtime_label_text(mins) == "No downtime"@,
        1 <= mins < 60 ==> downtime_label_text(mins) == dec(mins as nat) + " min downtime"@,
        h >= 1 && rm < 60 && h * 60 + rm == mins ==> downtime_label_text(mins) == dec(h) + seq![
            'h',
            ' ',
        ] + dec(rm) + "m downtime"@,
{
}

/// A response time under a second is printed as its whole milliseconds.
pub proof fn lemma_ms_text_below_second(ms: int)
    requires
        0 <= ms < 1000,
    ensures
        ms_text(ms) == dec(ms as nat) + seq!['m', 's'],
{
}

/// Describes the downtime of one day.
pub fn downtime_label(mins: u32) -> (r: String)
    ensures
        r@ == downtime_label_text(mins as int),
{
    if mins == u32::MAX {
        return String::from_str("No data");
    }
    if mins == 0 {
        return String::from_str("No downtime");
    }
    let mut out = String::new();
    if mins >= 60 {
        push_decimal(&mut out, (mins / 60) as u64);
        push_char(&mut out, 'h');
        push_char(&mut out, ' ');
        push_decimal(&mut out, (mins % 60) as u64);
        push_str(&mut out, "m downtime");
    } else {
        push_decimal(&mut out, mins as u64);
        push_str(&mut out, " min downtime");
    }
    out
}

/// How long ago something happened, given the age `diff` in whole seconds
/// and its RFC 3339 timestamp `iso`: seconds, minutes or hours ago below a
/// day, otherwise the date part (the first ten bytes) of the timestamp.
pub fn fmt_relative_secs(diff: i64, iso: &str) -> (r: String)
    requires
        diff >= 86400 ==> vstd::utf8::is_char_boundary(iso.spec_bytes(), 10),
    ensures
        diff < 60 ==> r@ == dec_int(diff as int) + seq!['s', ' ', 'a', 'g', 'o'],
        60 <= diff < 3600 ==> r@ == dec((diff / 60) as nat) + seq!['m', ' ', 'a', 'g', 'o'],
        3600 <= diff < 86400 ==> r@ == dec((diff / 3600) as nat) + seq!['h', ' ', 'a', 'g', 'o'],
        diff >= 86400 ==> vstd::utf8::encode_utf8(r@) == iso.spec_bytes().subrange(0, 10),
{
    let mut out = String::new();
    if diff < 60 {
        push_signed_decimal(&mut out, diff);
        push_char(&mut out, 's');
    } else if diff < 3600 {
        push_decimal(&mut out, (diff / 60) as u64);
        push_char(&mut out, 'm');
    } else if diff < 86400 {
        push_decimal(&mut out, (diff / 3600) as u64);
        push_char(&mut out, 'h');
    } else {
        let (date, _) = iso.split_at(10);
        return date.to_owned();
    }
    push_char(&mut out, ' ');
    push_char(&mut out, 'a');
    push_char(&mut out, 'g');
    push_char(&mut out, 'o');
    out
}

} // verus!
