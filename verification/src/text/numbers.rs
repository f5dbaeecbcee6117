//! Numbers as text.
use vstd::prelude::*;
use vstd::slice::slice_subrange;

verus! {

/// The value of a digit in any radix up to sixteen.
pub open spec fn digit_value(c: char) -> int {
    if '0' <= c <= '9' {
        c as int - '0' as int
    } else if 'a' <= c <= 'f' {
        c as int - 'a' as int + 10
    } else if 'A' <= c <= 'F' {
        c as int - 'A' as int + 10
    } else {
        99
    }
}

/// Every character of `s` is a digit of the radix.
pub open spec fn all_digits(s: Seq<char>, radix: int) -> bool {
    forall|i: int| 0 <= i < s.len() ==> digit_value(#[trigger] s[i]) < radix
}

/// The number that the digits `s` write down.
pub open spec fn digits_value(s: Seq<char>, radix: int) -> int
    decreases s.len(),
{
    if s.len() == 0 {
        0
    } else {
        digits_value(s.drop_last(), radix) * radix + digit_value(s.last())
    }
}

/// The digits of a number that may be written with a plus sign.
pub open spec fn unsigned_digits(s: Seq<char>) -> Seq<char> {
    if s.len() > 1 && s[0] == '+' {
        s.skip(1)
    } else {
        s
    }
}

/// The number that `s` writes down, where `s` is nothing but an optional plus sign
/// and at least one digit, and the number is at most `max`.
pub open spec fn number(s: Seq<char>, radix: int, max: int) -> Option<int> {
    let d = unsigned_digits(s);
    if d.len() > 0 && all_digits(d, radix) && digits_value(d, radix) <= max {
        Some(digits_value(d, radix))
    } else {
        None
    }
}

/// Digits write down no negative number, and no number below that of a prefix.
pub proof fn digits_value_grows(s: Seq<char>, radix: int, n: int)
    requires
        1 <= radix,
        0 <= n <= s.len(),
    ensures
        0 <= digits_value(s.take(n), radix) <= digits_value(s, radix),
    decreases s.len(),
{
    if s.len() == 0 {
        assert(s.take(n) =~= s);
    } else if n == s.len() {
        assert(s.take(n) =~= s);
        digits_value_grows(s.drop_last(), radix, 0);
        assert(s.drop_last().take(0) =~= Seq::empty());
        let v = digits_value(s.drop_last(), radix);
        assert(v * radix >= 0) by (nonlinear_arith)
            requires
                v >= 0,
                radix >= 1,
        ;
    } else {
        digits_value_grows(s.drop_last(), radix, n);
        assert(s.drop_last().take(n) =~= s.take(n));
        let v = digits_value(s.drop_last(), radix);
        assert(v * radix >= v) by (nonlinear_arith)
            requires
                v >= 0,
                radix >= 1,
        ;
    }
}

/// The value of a digit.
pub fn digit(c: char) -> (r: u8)
    ensures
        r == digit_value(c),
{
    if '0' <= c && c <= '9' {
        c as u8 - 48
    } else if 'a' <= c && c <= 'f' {
        c as u8 - 97 + 10
    } else if 'A' <= c && c <= 'F' {
        c as u8 - 65 + 10
    } else {
        99
    }
}

/// The number that `s` writes down in the radix, at most `max`.
pub fn parse_number(s: &[char], radix: u8, max: u64) -> (r: Option<u64>)
    requires
        2 <= radix <= 16,
    ensures
        r matches Some(n) ==> number(s@, radix as int, max as int) == Some(n as int),
        r is None ==> number(s@, radix as int, max as int) is None,
        r matches Some(n) ==> n <= max,
{
    let d: &[char] = if s.len() > 1 && s[0] == '+' {
        let t = slice_subrange(s, 1, s.len());
        assert(t@ =~= s@.skip(1));
        t
    } else {
        s
    };
    let ghost ds = unsigned_digits(s@);
    if d.len() == 0 {
        return None;
    }
    let mut value: u64 = 0;
    let mut i: usize = 0;
    while i < d.len()
        invariant
            2 <= radix <= 16,
            i <= d.len(),
            d@ == ds,
            ds == unsigned_digits(s@),
            value == digits_value(ds.take(i as int), radix as int),
            all_digits(ds.take(i as int), radix as int),
            value <= max,
        decreases d.len() - i,
    {
        let x = digit(d[i]);
        if x >= radix {
            assert(digit_value(ds[i as int]) >= radix);
            return None;
        }
        let ghost before = ds.take(i as int);
        let ghost after = ds.take(i + 1);
        proof {
            assert(after.drop_last() =~= before);
            digits_value_grows(ds, radix as int, i + 1);
            assert forall|k: int| 0 <= k < after.len() implies digit_value(#[trigger] after[k])
                < radix by {
                if k < i {
                    assert(before[k] == after[k]);
                }
            }
        }
        assert((value as u128) * (radix as u128) <= 0xffff_ffff_ffff_ffff * 16) by (nonlinear_arith)
            requires
                value <= 0xffff_ffff_ffff_ffff,
                radix <= 16,
        ;
        let wide: u128 = (value as u128) * (radix as u128) + (x as u128);
        if wide > max as u128 {
            return None;
        }
        value = wide as u64;
        i += 1;
    }
    assert(ds.take(i as int) =~= ds);
    Some(value)
}

/// The decimal number that `s` writes down, at most `max`.
pub fn parse_decimal(s: &[char], max: u64) -> (r: Option<u64>)
    ensures
        r matches Some(n) ==> number(s@, 10, max as int) == Some(n as int) && n <= max,
        r is None ==> number(s@, 10, max as int) is None,
{
    parse_number(s, 10, max)
}

/// The character of a decimal digit.
pub open spec fn digit_char(n: int) -> char {
    (n + '0' as int) as char
}

/// `n` in decimal, without leading zeros.
pub open spec fn decimal(n: nat) -> Seq<char>
    decreases n,
{
    if n < 10 {
        seq![digit_char(n as int)]
    } else {
        decimal(n / 10).push(digit_char((n % 10) as int))
    }
}

/// `n` in decimal.
pub fn decimal_chars(n: u64) -> (r: Vec<char>)
    ensures
        r@ == decimal(n as nat),
    decreases n,
{
    if n < 10 {
        let c: char = (n as u8 + 48) as char;
        let mut r: Vec<char> = Vec::new();
        r.push(c);
        assert(r@ =~= seq![digit_char(n as int)]);
        r
    } else {
        let mut r = decimal_chars(n / 10);
        r.push(((n % 10) as u8 + 48) as char);
        r
    }
}

/// Writing a number in decimal and reading it back gives the number.
pub proof fn decimal_round_trip(n: nat)
    ensures
        decimal(n).len() > 0,
        all_digits(decimal(n), 10),
        digits_value(decimal(n), 10) == n,
        decimal(n)[0] != '+',
        unsigned_digits(decimal(n)) == decimal(n),
    decreases n,
{
    if n < 10 {
        let s = decimal(n);
        assert(s.drop_last() =~= Seq::empty());
        assert(digits_value(s.drop_last(), 10) == 0);
    } else {
        decimal_round_trip(n / 10);
        let s = decimal(n);
        assert(s.drop_last() =~= decimal(n / 10));
        assert(s[0] == decimal(n / 10)[0]);
    }
}

/// A whole number in decimal, with a sign where it is negative.
pub open spec fn signed_decimal(n: int) -> Seq<char> {
    if n < 0 {
        seq!['-'] + decimal((-n) as nat)
    } else {
        decimal(n as nat)
    }
}

/// A whole number in decimal.
pub fn signed_chars(n: i64) -> (r: Vec<char>)
    ensures
        r@ == signed_decimal(n as int),
{
    if n >= 0 {
        return decimal_chars(n as u64);
    }
    let magnitude: u64 = if n == i64::MIN {
        0x8000_0000_0000_0000
    } else {
        (-n) as u64
    };
    let digits = decimal_chars(magnitude);
    let mut r: Vec<char> = Vec::new();
    r.push('-');
    crate::text::chars::append_chars(&mut r, digits.as_slice());
    assert(r@ =~= seq!['-'] + digits@);
    r
}

} // verus!
