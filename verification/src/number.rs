//! Decimal numbers in text: reading a 32-bit integer and writing an index.

use vstd::prelude::*;

verus! {

pub open spec fn is_digit(c: char) -> bool {
    0x30 <= c as u32 <= 0x39
}

pub open spec fn all_digits(d: Seq<char>) -> bool {
    forall|i: int| 0 <= i < d.len() ==> is_digit(#[trigger] d[i])
}

/// The number that the decimal digits `d` write.
pub open spec fn digits_value(d: Seq<char>) -> int
    decreases d.len(),
{
    if d.len() == 0 {
        0
    } else {
        10 * digits_value(d.drop_last()) + (d.last() as u32 - 0x30)
    }
}

/// The length of the sign in front of `w`: 1 for `+` or `-`, else 0.
pub open spec fn sign_len(w: Seq<char>) -> int {
    if w.len() > 0 && (w[0] == '-' || w[0] == '+') {
        1
    } else {
        0
    }
}

/// The 32-bit integer that `w` writes: an optional sign, `+` or `-`, then one
/// or more decimal digits, and nothing else. `None` where `w` has another
/// shape or the number does not fit.
pub open spec fn parse_i32(w: Seq<char>) -> Option<int> {
    let negative = w.len() > 0 && w[0] == '-';
    let digits = w.skip(sign_len(w));
    let value = if negative {
        -digits_value(digits)
    } else {
        digits_value(digits)
    };
    if digits.len() > 0 && all_digits(digits) && -0x8000_0000 <= value <= 0x7fff_ffff {
        Some(value)
    } else {
        None
    }
}

pub open spec fn digit_char(d: int) -> char {
    if d == 0 {
        '0'
    } else if d == 1 {
        '1'
    } else if d == 2 {
        '2'
    } else if d == 3 {
        '3'
    } else if d == 4 {
        '4'
    } else if d == 5 {
        '5'
    } else if d == 6 {
        '6'
    } else if d == 7 {
        '7'
    } else if d == 8 {
        '8'
    } else {
        '9'
    }
}

/// The decimal digits of `n`, without leading zeros.
pub open spec fn decimal(n: nat) -> Seq<char>
    decreases n,
{
    if n < 10 {
        seq![digit_char(n as int)]
    } else {
        decimal(n / 10).push(digit_char((n % 10) as int))
    }
}

/// The 32-bit integer that `w` writes, if it writes one.
pub fn read_i32(w: &Vec<char>) -> (r: Option<i32>)
    ensures
        match r {
            Some(n) => parse_i32(w@) == Some(n as int),
            None => parse_i32(w@) is None,
        },
{
    let n = w.len();
    let negative = n > 0 && w[0] == '-';
    let start: usize = if n > 0 && (w[0] == '-' || w[0] == '+') {
        1
    } else {
        0
    };
    let ghost digits = w@.skip(start as int);
    if start == n {
        return None;
    }
    let mut value: i64 = 0;
    let mut overflow = false;
    let mut i: usize = start;
    assert(digits.take(0) == Seq::<char>::empty());
    while i < n
        invariant
            start <= i <= n,
            n == w.len(),
            start == sign_len(w@),
            digits == w@.skip(start as int),
            all_digits(digits.take(i - start)),
            0 <= value <= 0x8000_0000,
            !overflow ==> value == digits_value(digits.take(i - start)),
            overflow ==> digits_value(digits.take(i - start)) > 0x8000_0000,
        decreases n - i,
    {
        let c = w[i];
        let u: u32 = c as u32;
        let ghost seen = digits.take(i - start);
        let ghost next = digits.take(i - start + 1);
        assert(next.drop_last() == seen);
        assert(next.last() == c);
        if !(0x30 <= u && u <= 0x39) {
            assert(!is_digit(digits[i - start]));
            return None;
        }
        let d: i64 = (u - 0x30) as i64;
        if !overflow {
            let grown: i64 = value * 10 + d;
            if grown > 0x8000_0000 {
                overflow = true;
            } else {
                value = grown;
            }
        }
        i += 1;
    }
    assert(digits.take(n - start) == digits);
    if overflow {
        None
    } else if negative {
        Some((-value) as i32)
    } else if value > 0x7fff_ffff {
        None
    } else {
        Some(value as i32)
    }
}

/// The character that writes the digit `d`.
pub fn digit_of(d: usize) -> (c: char)
    requires
        d < 10,
    ensures
        c == digit_char(d as int),
{
    if d == 0 {
        '0'
    } else if d == 1 {
        '1'
    } else if d == 2 {
        '2'
    } else if d == 3 {
        '3'
    } else if d == 4 {
        '4'
    } else if d == 5 {
        '5'
    } else if d == 6 {
        '6'
    } else if d == 7 {
        '7'
    } else if d == 8 {
        '8'
    } else {
        '9'
    }
}

/// The decimal digits of `n`.
pub fn write_decimal(n: usize) -> (r: Vec<char>)
    ensures
        r@ == decimal(n as nat),
    decreases n,
{
    if n < 10 {
        let mut out: Vec<char> = Vec::new();
        out.push(digit_of(n));
        out
    } else {
        let mut out = write_decimal(n / 10);
        out.push(digit_of(n % 10));
        out
    }
}

} // verus!
