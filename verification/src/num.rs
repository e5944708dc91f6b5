//! Decimal reading and writing of integers.

use vstd::prelude::*;

verus! {

/// The value of a decimal digit character, or `-1`.
pub open spec fn digit_val(c: char) -> int {
    if c == '0' {
        0
    } else if c == '1' {
        1
    } else if c == '2' {
        2
    } else if c == '3' {
        3
    } else if c == '4' {
        4
    } else if c == '5' {
        5
    } else if c == '6' {
        6
    } else if c == '7' {
        7
    } else if c == '8' {
        8
    } else if c == '9' {
        9
    } else {
        -1
    }
}

pub open spec fn is_digit(c: char) -> bool {
    digit_val(c) >= 0
}

/// The digit character for a value below ten.
pub open spec fn digit_char(d: int) -> char {
    if d == 0 {
        '0'
    } else if d == 1 {
        '1'
    } else if d == 2 {
        '2'
    } else if d == 3 {
        '3'
    } else if d == 4 {
        '4'
    } else if d == 5 {
        '5'
    } else if d == 6 {
        '6'
    } else if d == 7 {
        '7'
    } else if d == 8 {
        '8'
    } else {
        '9'
    }
}

/// Whether every character of `s` is a decimal digit.
pub open spec fn all_digits(s: Seq<char>) -> bool {
    forall|i: int| 0 <= i < s.len() ==> is_digit(s[i])
}

/// The number that the digit string `s` names in base ten.
pub open spec fn digits_val(s: Seq<char>) -> int
    decreases s.len(),
{
    if s.len() == 0 {
        0
    } else {
        digits_val(s.subrange(0, s.len() - 1)) * 10 + digit_val(s[s.len() - 1])
    }
}

pub proof fn lemma_digits_val_nonneg(s: Seq<char>)
    requires
        all_digits(s),
    ensures
        digits_val(s) >= 0,
    decreases s.len(),
{
    if s.len() > 0 {
        let pre = s.subrange(0, s.len() - 1);
        assert(all_digits(pre));
        lemma_digits_val_nonneg(pre);
    }
}

/// A longer digit string names at least as large a number.
pub proof fn lemma_digits_val_prefix(s: Seq<char>, k: int)
    requires
        all_digits(s),
        0 <= k <= s.len(),
    ensures
        digits_val(s.subrange(0, k)) <= digits_val(s),
    decreases s.len() - k,
{
    if k == s.len() {
        assert(s.subrange(0, k) =~= s);
    } else {
        lemma_digits_val_prefix(s, k + 1);
        let a = s.subrange(0, k);
        let b = s.subrange(0, k + 1);
        assert(b.subrange(0, b.len() - 1) =~= a);
        assert(all_digits(a));
        lemma_digits_val_nonneg(a);
        assert(digits_val(b) == digits_val(a) * 10 + digit_val(s[k]));
    }
}

/// The body of an unsigned number: an optional leading plus sign is dropped.
pub open spec fn uint_body(s: Seq<char>) -> Seq<char> {
    if s.len() > 0 && s[0] == '+' {
        s.subrange(1, s.len() as int)
    } else {
        s
    }
}

/// Whether `s` names an unsigned number of at most `max`.
pub open spec fn uint_ok(s: Seq<char>, max: int) -> bool {
    &&& uint_body(s).len() >= 1
    &&& all_digits(uint_body(s))
    &&& digits_val(uint_body(s)) <= max
}

/// The digit value of a digit character, if it is one.
pub fn digit_of(c: char) -> (r: Option<u64>)
    ensures
        match r {
            Some(d) => digit_val(c) == d && d <= 9,
            None => !is_digit(c),
        },
{
    match c {
        '0' => Some(0),
        '1' => Some(1),
        '2' => Some(2),
        '3' => Some(3),
        '4' => Some(4),
        '5' => Some(5),
        '6' => Some(6),
        '7' => Some(7),
        '8' => Some(8),
        '9' => Some(9),
        _ => None,
    }
}

/// Reads an unsigned decimal number of at most `max`, with an optional
/// leading plus sign, and rejects anything else.
pub fn parse_uint_chars(v: &Vec<char>, max: u64) -> (r: Option<u64>)
    requires
        max >= 9,
    ensures
        match r {
            Some(x) => uint_ok(v@, max as int) && x == digits_val(uint_body(v@)) && x <= max,
            None => !uint_ok(v@, max as int),
        },
{
    let n: usize = v.len();
    let start: usize = if n > 0 && v[0] == '+' {
        1
    } else {
        0
    };
    let ghost body = uint_body(v@);
    proof {
        assert(body =~= v@.subrange(start as int, n as int));
    }
    if n == start {
        return None;
    }
    let mut acc: u64 = 0;
    let mut i: usize = start;
    while i < n
        invariant
            start <= i <= n,
            n == v@.len(),
            max >= 9,
            body == uint_body(v@),
            body == v@.subrange(start as int, n as int),
            all_digits(v@.subrange(start as int, i as int)),
            acc == digits_val(v@.subrange(start as int, i as int)),
            acc <= max,
        decreases n - i,
    {
        let ghost pre = v@.subrange(start as int, i as int);
        match digit_of(v[i]) {
            None => {
                proof {
                    assert(body[i - start] == v@[i as int]);
                    assert(!is_digit(body[i - start]));
                }
                return None;
            },
            Some(d) => {
                if acc > (max - d) / 10 {
                    proof {
                        assert(body.subrange(0, i - start + 1) =~= pre.push(v@[i as int]));
                        assert(pre.push(v@[i as int]).subrange(0, pre.len() as int) =~= pre);
                        assert(digits_val(body.subrange(0, i - start + 1)) == acc * 10 + d);
                        assert(acc * 10 + d > max) by {
                            let q = ((max - d) / 10) as int;
                            assert(max - d == 10 * q + (max - d) % 10);
                        }
                        if all_digits(body) {
                            lemma_digits_val_prefix(body, i - start + 1);
                            assert(digits_val(body) > max);
                        }
                    }
                    return None;
                }
                proof {
                    let q = ((max - d) / 10) as int;
                    assert(max - d == 10 * q + (max - d) % 10);
                    assert(acc * 10 + d <= max);
                }
                acc = acc * 10 + d;
                i = i + 1;
                proof {
                    let cur = v@.subrange(start as int, i as int);
                    assert(cur.subrange(0, cur.len() - 1) =~= pre);
                    assert(forall|j: int| 0 <= j < cur.len() ==> cur[j] == v@[start + j]);
                }
            },
        }
    }
    proof {
        assert(v@.subrange(start as int, i as int) =~= body);
    }
    Some(acc)
}

/// The digits of `n` in base ten, most significant first.
pub open spec fn nat_digits(n: int) -> Seq<char>
    decreases n,
{
    if n < 10 {
        seq![digit_char(n)]
    } else {
        nat_digits(n / 10).push(digit_char(n % 10))
    }
}

/// The decimal spelling of an integer: a minus sign for negative values,
/// then the digits.
pub open spec fn int_digits(n: int) -> Seq<char> {
    if n < 0 {
        seq!['-'] + nat_digits(-n)
    } else {
        nat_digits(n)
    }
}

fn digit_char_of(d: u64) -> (r: char)
    requires
        d < 10,
    ensures
        r == digit_char(d as int),
{
    match d {
        0 => '0',
        1 => '1',
        2 => '2',
        3 => '3',
        4 => '4',
        5 => '5',
        6 => '6',
        7 => '7',
        8 => '8',
        _ => '9',
    }
}

/// The decimal digits of `n`, most significant first.
pub fn u64_to_chars(n: u64) -> (r: Vec<char>)
    ensures
        r@ == nat_digits(n as int),
    decreases n,
{
    if n < 10 {
        let mut v: Vec<char> = Vec::new();
        v.push(digit_char_of(n));
        proof {
            assert(v@ =~= nat_digits(n as int));
        }
        v
    } else {
        let mut v = u64_to_chars(n / 10);
        v.push(digit_char_of(n % 10));
        v
    }
}

/// The decimal spelling of `n`, with a minus sign where `n` is negative.
pub fn i64_to_chars(n: i64) -> (r: Vec<char>)
    ensures
        r@ == int_digits(n as int),
{
    if n < 0 {
        let m: u64 = (-(n as i128)) as u64;
        let mut v: Vec<char> = Vec::new();
        v.push('-');
        let digits = u64_to_chars(m);
        crate::text::append_chars(&mut v, &digits);
        proof {
            assert(seq!['-'] =~= Seq::<char>::empty().push('-'));
            assert(v@ =~= seq!['-'] + nat_digits(m as int));
        }
        v
    } else {
        u64_to_chars(n as u64)
    }
}

/// Whether `s` names a signed 32-bit number, as `i32` reads one.
pub open spec fn i32_ok(s: Seq<char>) -> bool {
    if s.len() > 0 && s[0] == '-' {
        uint_ok(s.subrange(0, s.len() as int).skip(1), 0x8000_0000)
    } else {
        uint_ok(s, 0x7fff_ffff)
    }
}

/// The signed number that `s` names.
pub open spec fn i32_val(s: Seq<char>) -> int {
    if s.len() > 0 && s[0] == '-' {
        -digits_val(uint_body(s.skip(1)))
    } else {
        digits_val(uint_body(s))
    }
}

/// Reads a signed 32-bit decimal number, rejecting anything else.
pub fn parse_i32_chars(v: &Vec<char>) -> (r: Option<i32>)
    ensures
        match r {
            Some(x) => i32_ok(v@) && x == i32_val(v@),
            None => !i32_ok(v@),
        },
{
    if v.len() > 0 && v[0] == '-' {
        let rest = crate::text::copy_range(v, 1, v.len());
        proof {
            assert(rest@ =~= v@.skip(1));
            assert(v@.subrange(0, v@.len() as int) =~= v@);
        }
        match parse_uint_chars(&rest, 0x8000_0000) {
            Some(x) => Some((-(x as i64)) as i32),
            None => None,
        }
    } else {
        match parse_uint_chars(v, 0x7fff_ffff) {
            Some(x) => Some(x as i32),
            None => None,
        }
    }
}

} // verus!
