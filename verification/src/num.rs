//! Decimal parsing and formatting of integers.
//!
//! Parsing follows `u32::from_str`: an optional leading `+`, then one or more
//! ASCII digits whose value fits in the type. Formatting yields the shortest
//! decimal representation, as `Display` does.

use vstd::prelude::*;

verus! {

pub open spec fn is_digit(c: char) -> bool {
    '0' <= c <= '9'
}

pub open spec fn digit_value(c: char) -> int {
    (c as u32) - ('0' as u32)
}

pub open spec fn digit_char(d: int) -> char
    recommends
        0 <= d < 10,
{
    (('0' as u32) + d) as char
}

pub open spec fn all_digits(s: Seq<char>) -> bool {
    forall|i: int| 0 <= i < s.len() ==> is_digit(#[trigger] s[i])
}

/// The value of a sequence of decimal digits, most significant first.
pub open spec fn decimal_value(s: Seq<char>) -> int
    decreases s.len(),
{
    if s.len() == 0 {
        0
    } else {
        decimal_value(s.drop_last()) * 10 + digit_value(s.last())
    }
}

/// The digits of `u32::from_str` input: the text after an optional `+`.
pub open spec fn unsigned_digits(s: Seq<char>) -> Seq<char> {
    if s.len() > 0 && s[0] == '+' {
        s.drop_first()
    } else {
        s
    }
}

/// `u32::from_str`.
pub open spec fn parse_u32_spec(s: Seq<char>) -> Option<u32> {
    let d = unsigned_digits(s);
    if d.len() > 0 && all_digits(d) && decimal_value(d) <= u32::MAX {
        Some(decimal_value(d) as u32)
    } else {
        None
    }
}

/// Shortest decimal representation of a natural number.
pub open spec fn decimal_digits(n: nat) -> Seq<char>
    decreases n,
{
    if n < 10 {
        seq![digit_char(n as int)]
    } else {
        decimal_digits(n / 10).push(digit_char((n % 10) as int))
    }
}

/// Decimal representation of a signed number, with a leading `-` when negative.
pub open spec fn signed_decimal(n: int) -> Seq<char> {
    if n < 0 {
        seq!['-'] + decimal_digits((-n) as nat)
    } else {
        decimal_digits(n as nat)
    }
}

pub proof fn lemma_decimal_value_nonneg(s: Seq<char>)
    requires
        all_digits(s),
    ensures
        decimal_value(s) >= 0,
    decreases s.len(),
{
    if s.len() > 0 {
        lemma_decimal_value_nonneg(s.drop_last());
    }
}

pub proof fn lemma_digit_char(d: int)
    requires
        0 <= d < 10,
    ensures
        is_digit(digit_char(d)),
        digit_value(digit_char(d)) == d,
        digit_char(d) != '+',
{
    assert((((48 + d) as u32) as char) as u32 == 48 + d);
}

/// Formatting then parsing gives back the number.
pub proof fn lemma_decimal_digits_value(n: nat)
    ensures
        all_digits(decimal_digits(n)),
        decimal_digits(n).len() > 0,
        decimal_value(decimal_digits(n)) == n,
        decimal_digits(n)[0] != '+',
    decreases n,
{
    if n < 10 {
        lemma_digit_char(n as int);
        let d = decimal_digits(n);
        assert(d.drop_last() =~= Seq::<char>::empty());
        assert(decimal_value(d) == decimal_value(d.drop_last()) * 10 + digit_value(d.last()));
    } else {
        lemma_decimal_digits_value(n / 10);
        lemma_digit_char((n % 10) as int);
        let d = decimal_digits(n);
        assert(d.drop_last() =~= decimal_digits(n / 10));
        assert(d.last() == digit_char((n % 10) as int));
        assert(decimal_value(d) == decimal_value(d.drop_last()) * 10 + digit_value(d.last()));
        assert((n / 10) * 10 + n % 10 == n) by (nonlinear_arith);
        assert(d[0] == decimal_digits(n / 10)[0]);
    }
}

/// The digit sequence of a number parses back to that number.
pub proof fn lemma_parse_u32_of_decimal(n: u32)
    ensures
        parse_u32_spec(decimal_digits(n as nat)) == Some(n),
{
    lemma_decimal_digits_value(n as nat);
}

fn digit_of(c: char) -> (r: Option<u32>)
    ensures
        r is Some <==> is_digit(c),
        r matches Some(d) ==> d == digit_value(c) && d < 10,
{
    if '0' <= c && c <= '9' {
        Some((c as u32) - ('0' as u32))
    } else {
        None
    }
}

/// `u32::from_str` on a character vector.
pub fn parse_u32_chars(s: &Vec<char>) -> (r: Option<u32>)
    ensures
        r == parse_u32_spec(s@),
{
    let mut start: usize = 0;
    if s.len() > 0 && s[0] == '+' {
        start = 1;
    }
    let ghost d = unsigned_digits(s@);
    assert(d =~= s@.subrange(start as int, s@.len() as int));
    if start >= s.len() {
        return None;
    }
    let mut value: u64 = 0;
    let mut i = start;
    while i < s.len()
        invariant
            start <= i <= s.len(),
            start < s.len(),
            d =~= s@.subrange(start as int, s@.len() as int),
            d == unsigned_digits(s@),
            all_digits(s@.subrange(start as int, i as int)),
            value == decimal_value(s@.subrange(start as int, i as int)),
            value <= u32::MAX,
        decreases s.len() - i,
    {
        match digit_of(s[i]) {
            None => {
                assert(d[i - start] == s@[i as int]);
                assert(!is_digit(d[i - start]));
                assert(!all_digits(d));
                return None;
            },
            Some(dv) => {
                let ghost prev = s@.subrange(start as int, i as int);
                let ghost next = s@.subrange(start as int, (i + 1) as int);
                assert(next.drop_last() =~= prev);
                let nv = value * 10 + dv as u64;
                if nv > 0xFFFF_FFFF {
                    proof {
                        if all_digits(d) {
                            lemma_prefix_value_bound(d, (i + 1 - start) as int);
                            assert(d.subrange(0, (i + 1 - start) as int) =~= next);
                        }
                    }
                    return None;
                }
                value = nv;
                i = i + 1;
            },
        }
    }
    assert(s@.subrange(start as int, s.len() as int) =~= d);
    Some(value as u32)
}

/// A longer digit prefix never has a smaller value.
proof fn lemma_prefix_value_bound(d: Seq<char>, k: int)
    requires
        0 <= k <= d.len(),
        all_digits(d),
    ensures
        decimal_value(d) >= decimal_value(d.subrange(0, k)),
    decreases d.len(),
{
    if k < d.len() {
        assert(d.drop_last() =~= d.drop_last());
        lemma_prefix_value_bound(d.drop_last(), k);
        assert(d.drop_last().subrange(0, k) =~= d.subrange(0, k));
        lemma_decimal_value_nonneg(d.drop_last());
    } else {
        assert(d.subrange(0, k) =~= d);
    }
}

/// `u32::from_str`.
pub fn parse_u32(s: &str) -> (r: Option<u32>)
    ensures
        r == parse_u32_spec(s@),
{
    let v = crate::text::chars_of(s);
    parse_u32_chars(&v)
}

fn digit_char_exec(d: u64) -> (c: char)
    requires
        d < 10,
    ensures
        c == digit_char(d as int),
{
    let b = (48 + d) as u8;
    let c = b as char;
    assert(c as u32 == 48 + d);
    c
}

/// Decimal text of an unsigned number.
pub fn format_u64(n: u64) -> (s: String)
    ensures
        s@ == decimal_digits(n as nat),
    decreases n,
{
    if n < 10 {
        let mut s = String::new();
        crate::text::push_char(&mut s, digit_char_exec(n));
        assert(s@ =~= decimal_digits(n as nat));
        s
    } else {
        let mut s = format_u64(n / 10);
        crate::text::push_char(&mut s, digit_char_exec(n % 10));
        s
    }
}

/// Decimal text of an index or size.
pub fn format_usize(n: usize) -> (s: String)
    ensures
        s@ == decimal_digits(n as nat),
{
    format_u64(n as u64)
}

/// Decimal text of a signed 32-bit number.
pub fn format_i32(n: i32) -> (s: String)
    ensures
        s@ == signed_decimal(n as int),
{
    if n < 0 {
        let magnitude: u64 = (0 - (n as i64)) as u64;
        let digits = format_u64(magnitude);
        let mut s = String::from_str("-");
        proof {
            reveal_strlit("-");
        }
        s.append(digits.as_str());
        assert(s@ =~= signed_decimal(n as int));
        s
    } else {
        format_u64(n as u64)
    }
}

} // verus!
