//! Numbers in writing: decimal and two-digit hexadecimal output, and the
//! reading of unsigned numbers in a radix up to sixteen.

use vstd::prelude::*;

use crate::text::chars_of;

verus! {

/// The digit for a value below sixteen, in lower case.
pub open spec fn digit(d: nat) -> char {
    if d < 10 {
        ('0' as u32 + d) as char
    } else {
        ('a' as u32 + (d - 10)) as char
    }
}

/// The digit for a value below sixteen, in lower case.
pub fn digit_char(d: u32) -> (r: char)
    requires
        d < 16,
    ensures
        r == digit(d as nat),
{
    if d < 10 {
        (48u8 + d as u8) as char
    } else {
        (87u8 + d as u8) as char
    }
}

/// A natural number in decimal notation, without leading zeros.
pub open spec fn decimal(n: nat) -> Seq<char>
    decreases n,
{
    if n < 10 {
        seq![digit(n)]
    } else {
        decimal(n / 10).push(digit(n % 10))
    }
}

/// Different numbers have different decimal notations.
pub proof fn decimal_differs(m: nat, n: nat)
    requires
        decimal(m) == decimal(n),
    ensures
        m == n,
    decreases m,
{
    decimal_len(m);
    decimal_len(n);
    if m >= 10 && n >= 10 {
        assert(decimal(m).drop_last() =~= decimal(m / 10));
        assert(decimal(n).drop_last() =~= decimal(n / 10));
        decimal_differs(m / 10, n / 10);
        assert(decimal(m).last() == digit(m % 10));
        assert(decimal(n).last() == digit(n % 10));
    } else if m < 10 && n < 10 {
        assert(decimal(m)[0] == digit(m));
        assert(decimal(n)[0] == digit(n));
    }
}

proof fn decimal_len(n: nat)
    ensures
        decimal(n).len() > 0,
        n >= 10 <==> decimal(n).len() > 1,
    decreases n,
{
    if n >= 10 {
        decimal_len(n / 10);
    }
}

/// `n` in decimal notation.
pub fn decimal_string(n: u64) -> (r: String)
    ensures
        r@ == decimal(n as nat),
    decreases n,
{
    let mut out = if n < 10 {
        String::new()
    } else {
        decimal_string(n / 10)
    };
    let d: u32 = (n % 10) as u32;
    out.push(digit_char(d));
    assert(out@ =~= decimal(n as nat));
    out
}

/// An integer in decimal notation, with a minus sign if it is negative.
pub open spec fn signed_decimal(n: int) -> Seq<char> {
    if n < 0 {
        seq!['-'] + decimal((-n) as nat)
    } else {
        decimal(n as nat)
    }
}

/// `n` in decimal notation.
pub fn signed_decimal_string(n: i32) -> (r: String)
    ensures
        r@ == signed_decimal(n as int),
{
    if n < 0 {
        let size: i64 = -(n as i64);
        let mut out = String::new();
        out.push('-');
        out.append(decimal_string(size as u64).as_str());
        assert(out@ =~= signed_decimal(n as int));
        out
    } else {
        decimal_string(n as u64)
    }
}

/// The value of a digit in a radix up to sixteen, if it is one there.
pub open spec fn digit_value(c: char, radix: nat) -> Option<nat> {
    let p = c as u32;
    let v: int = if '0' as u32 <= p <= '9' as u32 {
        p - '0' as u32
    } else if 'a' as u32 <= p <= 'z' as u32 {
        p - 'a' as u32 + 10
    } else if 'A' as u32 <= p <= 'Z' as u32 {
        p - 'A' as u32 + 10
    } else {
        radix as int
    };
    if v < radix {
        Some(v as nat)
    } else {
        None
    }
}

/// The value of a digit in a radix up to sixteen, if it is one there.
fn value_of_digit(c: char, radix: u64) -> (r: Option<u64>)
    requires
        2 <= radix <= 16,
    ensures
        match r {
            Some(v) => digit_value(c, radix as nat) == Some(v as nat) && v < radix,
            None => digit_value(c, radix as nat) is None,
        },
{
    let p: u32 = c as u32;
    let v: u64 = if 48 <= p && p <= 57 {
        (p - 48) as u64
    } else if 97 <= p && p <= 122 {
        (p - 97 + 10) as u64
    } else if 65 <= p && p <= 90 {
        (p - 65 + 10) as u64
    } else {
        radix
    };
    if v < radix {
        Some(v)
    } else {
        None
    }
}

/// The value of a string of digits; nothing if a character is no digit.
pub open spec fn digits_value(s: Seq<char>, radix: nat) -> Option<nat>
    decreases s.len(),
{
    if s.len() == 0 {
        Some(0)
    } else {
        match (digits_value(s.drop_last(), radix), digit_value(s.last(), radix)) {
            (Some(v), Some(d)) => Some(v * radix + d),
            _ => None,
        }
    }
}

/// The unsigned number that `s` writes: digits with at most a plus sign before
/// them, of a value up to `max`.
pub open spec fn parsed(s: Seq<char>, radix: nat, max: nat) -> Option<nat> {
    let digits = if s.len() > 0 && s[0] == '+' {
        s.skip(1)
    } else {
        s
    };
    match digits_value(digits, radix) {
        Some(v) => if digits.len() > 0 && v <= max {
            Some(v)
        } else {
            None
        },
        None => None,
    }
}

proof fn digits_value_fails_on(s: Seq<char>, radix: nat, n: int)
    requires
        0 <= n <= s.len(),
        digits_value(s.take(n), radix) is None,
    ensures
        digits_value(s, radix) is None,
    decreases s.len() - n,
{
    if n < s.len() {
        assert(s.take(n + 1).drop_last() =~= s.take(n));
        digits_value_fails_on(s, radix, n + 1);
    } else {
        assert(s.take(n) =~= s);
    }
}

/// Reads an unsigned number of at most `max` in the given radix.
pub fn parse_unsigned(s: &str, radix: u64, max: u64) -> (r: Option<u64>)
    requires
        2 <= radix <= 16,
    ensures
        match r {
            Some(v) => parsed(s@, radix as nat, max as nat) == Some(v as nat),
            None => parsed(s@, radix as nat, max as nat) is None,
        },
{
    let chars = chars_of(s);
    let from: usize = if chars.len() > 0 && chars[0] == '+' {
        1
    } else {
        0
    };
    let ghost digits = s@.skip(from as int);
    assert(s@.skip(0) =~= s@);
    if chars.len() == from {
        return None;
    }
    let mut value: u64 = 0;
    let mut over: bool = false;
    let mut i: usize = from;
    while i < chars.len()
        invariant
            2 <= radix <= 16,
            chars@ == s@,
            from <= i <= chars@.len(),
            digits == s@.skip(from as int),
            digits == (if s@.len() > 0 && s@[0] == '+' { s@.skip(1) } else { s@ }),
            digits_value(digits.take(i - from), radix as nat) is Some,
            over == (digits_value(digits.take(i - from), radix as nat)->0 > max),
            !over ==> value == digits_value(digits.take(i - from), radix as nat)->0,
        decreases chars@.len() - i,
    {
        assert(digits.take(i - from + 1).drop_last() =~= digits.take(i - from));
        assert(digits.take(i - from + 1).last() == chars@[i as int]);
        let ghost before = digits_value(digits.take(i - from), radix as nat)->0;
        match value_of_digit(chars[i], radix) {
            None => {
                proof {
                    digits_value_fails_on(digits, radix as nat, i - from + 1);
                }
                return None;
            },
            Some(d) => {
                assert(before * radix >= before) by (nonlinear_arith)
                    requires
                        radix >= 2,
                ;
                if !over {
                    let wide: u128 = value as u128;
                    assert(wide * radix <= 0xffff_ffff_ffff_ffff * 16) by (nonlinear_arith)
                        requires
                            wide <= 0xffff_ffff_ffff_ffff,
                            radix <= 16,
                    ;
                    let next: u128 = wide * (radix as u128) + d as u128;
                    if next > max as u128 {
                        over = true;
                    } else {
                        value = next as u64;
                    }
                }
            },
        }
        i += 1;
    }
    assert(digits.take(i - from) =~= digits);
    if over {
        None
    } else {
        Some(value)
    }
}

} // verus!
