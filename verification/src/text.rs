//! Text helpers: decimal formatting, comparison and character access.

use vstd::prelude::*;

verus! {

/// The character of a decimal digit.
pub open spec fn digit_char(d: nat) -> char {
    if d == 0 { '0' } else if d == 1 { '1' } else if d == 2 { '2' } else if d == 3 { '3' }
    else if d == 4 { '4' } else if d == 5 { '5' } else if d == 6 { '6' } else if d == 7 { '7' }
    else if d == 8 { '8' } else { '9' }
}

/// The decimal numeral of `n`, without leading zeros.
pub open spec fn decimal(n: nat) -> Seq<char>
    decreases n,
{
    if n < 10 {
        seq![digit_char(n)]
    } else {
        decimal(n / 10).push(digit_char(n % 10))
    }
}

/// `prefix` followed by the decimal numeral of `n`.
pub fn labeled(prefix: &str, n: u16) -> (r: String)
    ensures
        r@ == prefix@ + decimal(n as nat),
{
    joined(prefix, usize_to_string(n as usize).as_str())
}

/// The decimal numeral of `n`.
pub fn u32_to_string(n: u32) -> (r: String)
    ensures
        r@ == decimal(n as nat),
{
    usize_to_string(n as usize)
}

/// The character of a decimal digit.
fn digit(d: usize) -> (c: char)
    requires
        d < 10,
    ensures
        c == digit_char(d as nat),
{
    match d {
        0 => '0',
        1 => '1',
        2 => '2',
        3 => '3',
        4 => '4',
        5 => '5',
        6 => '6',
        7 => '7',
        8 => '8',
        _ => '9',
    }
}

/// The decimal numeral of `n`.
pub fn usize_to_string(n: usize) -> (r: String)
    ensures
        r@ == decimal(n as nat),
    decreases n,
{
    if n < 10 {
        let mut s = String::new();
        push_char(&mut s, digit(n));
        assert(s@ =~= seq![digit_char(n as nat)]);
        s
    } else {
        let mut s = usize_to_string(n / 10);
        push_char(&mut s, digit(n % 10));
        s
    }
}

/// Whether two strings hold the same characters (std's `==` on `str`).
#[verifier::external_body]
pub fn str_eq(a: &str, b: &str) -> (r: bool)
    ensures
        r == (a@ == b@),
{
    a == b
}

/// An owned copy of a string slice.
pub fn owned(s: &str) -> (r: String)
    ensures
        r@ == s@,
{
    s.to_string()
}

/// The characters of a string.
pub fn chars_of(s: &str) -> (r: Vec<char>)
    ensures
        r@ == s@,
{
    let mut r: Vec<char> = Vec::new();
    for c in it: s.chars()
        invariant
            r@ == it.seq().take(it.index() as int),
            it.seq() == s@,
    {
        r.push(c);
        assert(it.seq().take(it.index() + 1) =~= it.seq().take(it.index() as int).push(c));
    }
    assert(s@.take(s@.len() as int) =~= s@);
    r
}

/// Appends a character (std's `String::push`).
#[verifier::external_body]
pub fn push_char(s: &mut String, c: char)
    ensures
        final(s)@ == old(s)@.push(c),
{
    s.push(c);
}

/// `a` followed by `b`.
pub fn joined(a: &str, b: &str) -> (r: String)
    ensures
        r@ == a@ + b@,
{
    let mut r = owned(a);
    let cs = chars_of(b);
    for i in 0..cs.len()
        invariant
            cs@ == b@,
            r@ == a@ + b@.take(i as int),
    {
        push_char(&mut r, cs[i]);
        assert(b@.take(i + 1) =~= b@.take(i as int).push(b@[i as int]));
    }
    assert(b@.take(b@.len() as int) =~= b@);
    r
}

/// The string made of the given characters.
pub fn string_of(v: &Vec<char>) -> (r: String)
    ensures
        r@ == v@,
{
    let mut r = String::new();
    for i in 0..v.len()
        invariant
            r@ == v@.take(i as int),
    {
        push_char(&mut r, v[i]);
        assert(v@.take(i + 1) =~= v@.take(i as int).push(v@[i as int]));
    }
    assert(v@.take(v@.len() as int) =~= v@);
    r
}

/// The value of a string of decimal digits (at least one, nothing else).
pub open spec fn digits_value(s: Seq<char>) -> Option<nat>
    decreases s.len(),
{
    if s.len() == 0 {
        None
    } else if s.len() == 1 {
        if '0' <= s[0] <= '9' { Some((s[0] as nat - '0' as nat) as nat) } else { None }
    } else {
        match digits_value(s.drop_last()) {
            Some(v) => if '0' <= s.last() <= '9' { Some(v * 10 + (s.last() as nat - '0' as nat) as nat) } else { None },
            None => None,
        }
    }
}

/// The value of an unsigned decimal numeral as std's integer `FromStr`
/// reads it: an optional `+` followed by one or more digits.
pub open spec fn unsigned_value(s: Seq<char>) -> Option<nat> {
    if s.len() > 0 && s[0] == '+' { digits_value(s.drop_first()) } else { digits_value(s) }
}

/// The `u16` a numeral stands for, if it is one and fits.
pub open spec fn spec_u16(s: Seq<char>) -> Option<u16> {
    match unsigned_value(s) {
        Some(v) => if v <= u16::MAX { Some(v as u16) } else { None },
        None => None,
    }
}

/// The `u32` a numeral stands for, if it is one and fits.
pub open spec fn spec_u32(s: Seq<char>) -> Option<u32> {
    match unsigned_value(s) {
        Some(v) => if v <= u32::MAX { Some(v as u32) } else { None },
        None => None,
    }
}

/// The `i16` a numeral stands for (an optional sign and digits), if it fits.
pub open spec fn spec_i16(s: Seq<char>) -> Option<i16> {
    if s.len() > 0 && s[0] == '-' {
        match digits_value(s.drop_first()) {
            Some(v) => if v <= 32768 { Some((0 - v) as i16) } else { None },
            None => None,
        }
    } else {
        match unsigned_value(s) {
            Some(v) => if v <= i16::MAX { Some(v as i16) } else { None },
            None => None,
        }
    }
}

/// Reading back a written number gives the number: the digits of `decimal(n)`
/// have the value `n`, and a numeral that fits reads as a `u16` or `u32`.
pub proof fn law_decimal_read_back(n: nat)
    ensures
        digits_value(decimal(n)) == Some(n),
        unsigned_value(decimal(n)) == Some(n),
        n <= u16::MAX ==> spec_u16(decimal(n)) == Some(n as u16),
        n <= u32::MAX ==> spec_u32(decimal(n)) == Some(n as u32),
    decreases n,
{
    if n >= 10 {
        law_decimal_read_back(n / 10);
        let d = decimal(n / 10);
        assert(decimal(n) == d.push(digit_char(n % 10)));
        assert(d.len() >= 1);
        assert(decimal(n).drop_last() =~= d);
        assert(n == (n / 10) * 10 + n % 10);
    }
    assert(decimal(n).len() >= 1);
    assert(decimal(n)[0] != '+') by {
        lemma_decimal_first(n);
    }
}

/// A numeral starts with a digit.
proof fn lemma_decimal_first(n: nat)
    ensures
        decimal(n).len() >= 1,
        '0' <= decimal(n)[0] <= '9',
    decreases n,
{
    if n >= 10 {
        lemma_decimal_first(n / 10);
        assert(decimal(n)[0] == decimal(n / 10)[0]);
    }
}

/// An `i16` read from text (std's `str::parse::<i16>`): `None` for anything
/// but an optional sign and digits, or a value outside `i16`.
#[verifier::external_body]
pub fn parse_i16(s: &str) -> (r: Option<i16>)
    ensures
        r == spec_i16(s@),
{
    s.parse::<i16>().ok()
}

/// A `u16` read from text (std's `str::parse::<u16>`): `None` for anything
/// but an optional `+` and digits, or a value past `u16::MAX`.
#[verifier::external_body]
pub fn parse_u16(s: &str) -> (r: Option<u16>)
    ensures
        r == spec_u16(s@),
{
    s.parse::<u16>().ok()
}

/// A `u32` read from text (std's `str::parse::<u32>`): `None` for anything
/// but an optional `+` and digits, or a value past `u32::MAX`.
#[verifier::external_body]
pub fn parse_u32(s: &str) -> (r: Option<u32>)
    ensures
        r == spec_u32(s@),
{
    s.parse::<u32>().ok()
}

} // verus!
