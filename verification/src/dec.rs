//! Exact decimal numbers in millionths.
//!
//! Script parameters such as mix levels, decay factors and panning are
//! decimal literals. The engine keeps them as integers scaled by one
//! million, so that parsing and comparison are exact; the application
//! converts to its sample format at the audio boundary.

use crate::num::{all_digits, digit_of, digits_val, is_digit, parse_uint_chars, uint_body, uint_ok};
use crate::text::find_char_spec;
use vstd::prelude::*;

verus! {

/// A signed decimal number counted in millionths.
#[derive(Clone, Copy, Debug, PartialEq, Eq, Structural)]
pub struct Dec {
    /// The value times one million.
    pub micro: i64,
}

impl Dec {
    /// The decimal that counts `micro` millionths.
    pub fn from_micro(micro: i64) -> (r: Dec)
        ensures
            r.micro == micro,
    {
        Dec { micro }
    }

    /// The decimal zero.
    pub fn zero() -> (r: Dec)
        ensures
            r.micro == 0,
    {
        Dec { micro: 0 }
    }

    /// The decimal for a small whole number.
    pub fn from_int(n: u32) -> (r: Dec)
        ensures
            r.micro == n * 1_000_000,
    {
        Dec { micro: (n as i64) * 1_000_000 }
    }
}

/// Ten to the power `k` (one for `k <= 0`).
pub open spec fn pow10(k: int) -> int
    decreases k,
{
    if k <= 0 {
        1
    } else {
        10 * pow10(k - 1)
    }
}

pub proof fn lemma_pow10_vals()
    ensures
        pow10(0) == 1,
        pow10(1) == 10,
        pow10(2) == 100,
        pow10(3) == 1_000,
        pow10(4) == 10_000,
        pow10(5) == 100_000,
        pow10(6) == 1_000_000,
{
    assert(pow10(0) == 1);
    assert(pow10(1) == 10);
    assert(pow10(2) == 100);
    assert(pow10(3) == 1_000);
    assert(pow10(4) == 10_000);
    assert(pow10(5) == 100_000);
    assert(pow10(6) == 1_000_000);
}

pub proof fn lemma_pow10_pos(a: int)
    ensures
        pow10(a) >= 1,
    decreases a,
{
    if a > 0 {
        lemma_pow10_pos(a - 1);
    }
}

pub proof fn lemma_pow10_le(a: int, b: int)
    requires
        a <= b,
    ensures
        1 <= pow10(a) <= pow10(b),
    decreases b,
{
    lemma_pow10_pos(a);
    if b > 0 && a < b {
        lemma_pow10_le(a, b - 1);
    }
}

pub proof fn lemma_pow10_add(a: int, b: int)
    requires
        a >= 0,
        b >= 0,
    ensures
        pow10(a) * pow10(b) == pow10(a + b),
    decreases a,
{
    if a == 0 {
    } else {
        lemma_pow10_add(a - 1, b);
        assert(pow10(a) * pow10(b) == 10 * (pow10(a - 1) * pow10(b))) by (nonlinear_arith)
            requires
                pow10(a) == 10 * pow10(a - 1),
        ;
    }
}

/// The digits of a decimal literal: an optional sign is dropped.
pub open spec fn dec_body(s: Seq<char>) -> Seq<char> {
    if s.len() > 0 && (s[0] == '-' || s[0] == '+') {
        s.subrange(1, s.len() as int)
    } else {
        s
    }
}

/// Whether the literal is negative.
pub open spec fn dec_neg(s: Seq<char>) -> bool {
    s.len() > 0 && s[0] == '-'
}

/// The digits before the decimal point.
pub open spec fn dec_int_part(s: Seq<char>) -> Seq<char> {
    let b = dec_body(s);
    b.subrange(0, find_char_spec(b, '.', 0))
}

/// The digits after the decimal point, empty when there is no point.
pub open spec fn dec_frac_part(s: Seq<char>) -> Seq<char> {
    let b = dec_body(s);
    let dot = find_char_spec(b, '.', 0);
    if dot >= b.len() {
        Seq::empty()
    } else {
        b.subrange(dot + 1, b.len() as int)
    }
}

/// The number of fraction digits that count: at most six.
pub open spec fn frac_keep(fr: Seq<char>) -> int {
    if fr.len() <= 6 {
        fr.len() as int
    } else {
        6
    }
}

/// The millionths named by the fraction digits; digits beyond the sixth
/// are dropped.
pub open spec fn frac_micro(fr: Seq<char>) -> int {
    digits_val(fr.subrange(0, frac_keep(fr))) * pow10(6 - frac_keep(fr))
}

/// The largest whole part a `Dec` can carry.
pub open spec fn dec_int_max() -> int {
    9_223_372_036_853
}

/// Whether `s` is a plain decimal literal that fits a `Dec`: an optional
/// sign, digits, and at most one point, with at least one digit in all.
pub open spec fn dec_ok(s: Seq<char>) -> bool {
    &&& all_digits(dec_int_part(s))
    &&& all_digits(dec_frac_part(s))
    &&& dec_int_part(s).len() + dec_frac_part(s).len() >= 1
    &&& digits_val(dec_int_part(s)) <= dec_int_max()
}

/// The millionths that the literal `s` names.
pub open spec fn dec_micro_val(s: Seq<char>) -> int {
    let mag = digits_val(dec_int_part(s)) * 1_000_000 + frac_micro(dec_frac_part(s));
    if dec_neg(s) {
        -mag
    } else {
        mag
    }
}

fn pow10_of(k: usize) -> (r: u64)
    requires
        k <= 6,
    ensures
        r == pow10(k as int),
{
    proof {
        lemma_pow10_vals();
    }
    match k {
        0 => 1,
        1 => 10,
        2 => 100,
        3 => 1_000,
        4 => 10_000,
        5 => 100_000,
        _ => 1_000_000,
    }
}

/// Reads a decimal literal, and rejects anything that is not one or whose
/// whole part does not fit.
pub fn parse_dec_chars(v: &Vec<char>) -> (r: Option<Dec>)
    ensures
        match r {
            Some(d) => dec_ok(v@) && d.micro == dec_micro_val(v@),
            None => !dec_ok(v@),
        },
{
    let n: usize = v.len();
    let neg: bool = n > 0 && v[0] == '-';
    let start: usize = if n > 0 && (v[0] == '-' || v[0] == '+') {
        1
    } else {
        0
    };
    let ghost body = dec_body(v@);
    proof {
        assert(body =~= v@.subrange(start as int, n as int));
    }
    let dot = crate::text::find_char(v, '.', start);
    proof {
        assert(forall|j: int| 0 <= j < dot - start ==> body[j] == v@[start + j] && body[j] != '.');
        if dot < n {
            assert(body[dot - start] == v@[dot as int]);
        }
        crate::text::lemma_find_char_at(body, '.', 0, dot - start);
        assert(dec_int_part(v@) =~= v@.subrange(start as int, dot as int));
        if dot < n {
            assert(dec_frac_part(v@) =~= v@.subrange(dot + 1, n as int));
        } else {
            assert(dec_frac_part(v@) =~= Seq::<char>::empty());
        }
    }
    let ip = crate::text::copy_range(v, start, dot);
    if ip.len() > 0 && ip[0] == '+' {
        proof {
            assert(!is_digit(dec_int_part(v@)[0]));
        }
        return None;
    }
    let ival: u64 = if ip.len() == 0 {
        proof {
            assert(dec_int_part(v@) =~= Seq::<char>::empty());
        }
        0
    } else {
        proof {
            assert(uint_body(ip@) == ip@);
        }
        match parse_uint_chars(&ip, 9_223_372_036_853) {
            Some(x) => x,
            None => {
                return None;
            },
        }
    };
    // Read the fraction digits, keeping the first six.
    let ghost fp = dec_frac_part(v@);
    let mut facc: u64 = 0;
    let mut cnt: usize = 0;
    if dot < n {
        let fstart: usize = dot + 1;
        let mut j: usize = fstart;
        while j < n
            invariant
                fstart <= j <= n,
                n == v@.len(),
                fp == dec_frac_part(v@),
                fp == v@.subrange(fstart as int, n as int),
                all_digits(fp.subrange(0, j - fstart)),
                cnt == frac_keep(fp.subrange(0, j - fstart)),
                facc == digits_val(fp.subrange(0, cnt as int)),
                cnt <= 6,
                facc < pow10(cnt as int),
            decreases n - j,
        {
            let ghost k = j - fstart;
            match digit_of(v[j]) {
                None => {
                    proof {
                        assert(fp[k] == v@[j as int]);
                        assert(!is_digit(fp[k]));
                    }
                    return None;
                },
                Some(d) => {
                    if cnt < 6 {
                        proof {
                            lemma_pow10_le(cnt + 1, 6);
                            lemma_pow10_vals();
                            assert(pow10(cnt + 1) == 10 * pow10(cnt as int));
                            let cur = fp.subrange(0, cnt + 1);
                            assert(cur.subrange(0, cur.len() - 1) =~= fp.subrange(0, cnt as int));
                            assert(cur[cur.len() - 1] == fp[cnt as int]);
                            assert(fp[k] == v@[j as int]);
                            assert(k == cnt);
                        }
                        facc = facc * 10 + d;
                        cnt = cnt + 1;
                    }
                    j = j + 1;
                    proof {
                        assert(fp[k] == v@[j - 1]);
                        let cur = fp.subrange(0, k + 1);
                        assert(forall|t: int| 0 <= t < k ==> cur[t] == fp.subrange(0, k)[t]);
                        assert(all_digits(cur));
                        assert(cnt == frac_keep(cur));
                    }
                },
            }
        }
        proof {
            assert(fp.subrange(0, n - fstart) =~= fp);
            assert(fp.subrange(0, fp.len() as int) =~= fp);
        }
    } else {
        proof {
            assert(fp.subrange(0, 0) =~= fp);
        }
    }
    proof {
        assert(all_digits(fp));
        assert(cnt == frac_keep(fp));
        assert(facc == digits_val(fp.subrange(0, cnt as int)));
    }
    if ip.len() == 0 && cnt == 0 {
        // No digit on either side of the point: not a number.
        proof {
            assert(fp.len() == 0);
            assert(dec_int_part(v@).len() + dec_frac_part(v@).len() < 1);
        }
        return None;
    }
    proof {
        lemma_pow10_add(cnt as int, 6 - cnt);
        lemma_pow10_vals();
        lemma_pow10_le(6 - cnt, 6);
        lemma_mul_bound(facc as int, pow10(cnt as int), pow10(6 - cnt));
    }
    let scale: u64 = pow10_of(6 - cnt);
    let fmicro: u64 = facc * scale;
    proof {
        assert(fp.subrange(0, frac_keep(fp)) =~= fp.subrange(0, cnt as int));
        assert(fmicro == frac_micro(fp));
        assert(fmicro <= 1_000_000);
    }
    let mag: u64 = ival * 1_000_000 + fmicro;
    let m: i64 = mag as i64;
    if neg {
        Some(Dec { micro: -m })
    } else {
        Some(Dec { micro: m })
    }
}

proof fn lemma_mul_bound(x: int, xb: int, y: int)
    requires
        0 <= x < xb,
        0 <= y,
        xb * y <= 1_000_000,
    ensures
        x * y <= 1_000_000 - y,
{
    assert(x * y <= (xb - 1) * y) by (nonlinear_arith)
        requires
            x <= xb - 1,
            0 <= y,
    ;
    assert((xb - 1) * y == xb * y - y) by (nonlinear_arith);
}

} // verus!
