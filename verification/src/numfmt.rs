//! Decimal text for integers: formatting and parsing.
use vstd::prelude::*;
use crate::text::push_char;

verus! {

/// The ASCII digit for `d` (`0 <= d < 10`).
pub open spec fn digit_char(d: int) -> char {
    (d + 48) as char
}

/// The decimal digits of `n`, most significant first, without leading zeros.
pub open spec fn decimal(n: nat) -> Seq<char>
    decreases n,
{
    if n < 10 {
        seq![digit_char(n as int)]
    } else {
        decimal(n / 10).push(digit_char((n % 10) as int))
    }
}

/// The decimal text of a signed integer: a minus sign before the digits of a
/// negative value.
pub open spec fn signed_decimal(v: int) -> Seq<char> {
    if v < 0 {
        seq!['-'] + decimal((-v) as nat)
    } else {
        decimal(v as nat)
    }
}

fn digit(d: u128) -> (c: char)
    requires
        d < 10,
    ensures
        c == digit_char(d as int),
{
    let b: u8 = 48u8 + d as u8;
    b as char
}

/// Appends the decimal digits of `n` to `s`.
pub fn push_decimal(s: &mut String, n: u128)
    ensures
        final(s)@ == old(s)@ + decimal(n as nat),
    decreases n,
{
    if n >= 10 {
        push_decimal(s, n / 10);
    }
    let c = digit(n % 10);
    let ghost before = s@;
    push_char(s, c);
    proof {
        if n >= 10 {
            assert(decimal(n as nat) == decimal((n / 10) as nat).push(digit_char((n % 10) as int)));
            assert(s@ == old(s)@ + decimal(n as nat));
        } else {
            assert(decimal(n as nat) == seq![digit_char(n as int)]);
            assert(s@ == old(s)@ + decimal(n as nat));
        }
    }
}

/// The decimal text of `n` (`n.to_string()`).
pub fn u64_to_string(n: u64) -> (r: String)
    ensures
        r@ == decimal(n as nat),
{
    let mut s = String::new();
    push_decimal(&mut s, n as u128);
    assert(s@ == Seq::<char>::empty() + decimal(n as nat));
    s
}

/// The decimal text of a signed value (`v.to_string()`).
pub fn i64_to_string(v: i64) -> (r: String)
    ensures
        r@ == signed_decimal(v as int),
{
    let mut s = String::new();
    if v < 0 {
        push_char(&mut s, '-');
        let m: u128 = (0i128 - v as i128) as u128;
        push_decimal(&mut s, m);
    } else {
        push_decimal(&mut s, v as u128);
    }
    s
}

/// The value of a run of ASCII digits, read in decimal.
pub open spec fn digits_value(s: Seq<char>) -> int
    decreases s.len(),
{
    if s.len() == 0 {
        0
    } else {
        digits_value(s.drop_last()) * 10 + (s.last() as int - 48)
    }
}

pub open spec fn is_digit(c: char) -> bool {
    '0' <= c && c <= '9'
}

pub open spec fn all_digits(s: Seq<char>) -> bool {
    forall|i: int| 0 <= i < s.len() ==> is_digit(#[trigger] s[i])
}

/// What `str::parse::<i64>` accepts and gives: an optional `+` or `-` sign,
/// then one or more ASCII digits whose value fits in `i64`.
pub open spec fn parse_i64(s: Seq<char>) -> Option<int> {
    let neg = s.len() > 0 && s[0] == '-';
    let signed = s.len() > 0 && (s[0] == '-' || s[0] == '+');
    let body = if signed { s.drop_first() } else { s };
    if body.len() == 0 || !all_digits(body) {
        None
    } else {
        let v = if neg { -digits_value(body) } else { digits_value(body) };
        if i64::MIN <= v && v <= i64::MAX {
            Some(v)
        } else {
            None
        }
    }
}

proof fn lemma_digits_value_nonneg(s: Seq<char>)
    requires
        all_digits(s),
    ensures
        digits_value(s) >= 0,
    decreases s.len(),
{
    if s.len() > 0 {
        assert(all_digits(s.drop_last()));
        lemma_digits_value_nonneg(s.drop_last());
        assert(is_digit(s[s.len() - 1]));
    }
}

/// Parses a decimal `i64` as `str::parse::<i64>` does; `None` where that fails.
pub fn parse_i64_str(s: &str) -> (r: Option<i64>)
    ensures
        r matches Some(v) ==> parse_i64(s@) == Some(v as int),
        r is None ==> parse_i64(s@) is None,
{
    let chars = crate::text::chars_of(s);
    let n = chars.len();
    let neg = n > 0 && chars[0] == '-';
    let signed = n > 0 && (chars[0] == '-' || chars[0] == '+');
    let start: usize = if signed { 1 } else { 0 };
    let ghost body = if signed { s@.drop_first() } else { s@ };
    assert(body == chars@.subrange(start as int, n as int));
    if start >= n {
        return None;
    }
    // Accumulate the magnitude; once it passes 2^63 the value cannot fit.
    let limit: u128 = 0x8000_0000_0000_0000u128;
    let mut acc: u128 = 0;
    let mut over = false;
    let mut k = start;
    while k < n
        invariant
            start <= k <= n == chars.len(),
            start < n,
            all_digits(chars@.subrange(start as int, k as int)),
            !over ==> acc == digits_value(chars@.subrange(start as int, k as int)),
            !over ==> acc <= limit,
            over ==> digits_value(chars@.subrange(start as int, k as int)) > limit,
            limit == 0x8000_0000_0000_0000u128,
            body == chars@.subrange(start as int, n as int),
            chars@ == s@,
            body == (if signed { s@.drop_first() } else { s@ }),
            signed == (s@.len() > 0 && (s@[0] == '-' || s@[0] == '+')),
        decreases n - k,
    {
        let c = chars[k];
        if !('0' <= c && c <= '9') {
            proof {
                assert(!is_digit(body[k - start]));
                assert(!all_digits(body));
            }
            return None;
        }
        let d: u128 = (c as u32 - 48) as u128;
        let ghost pre = chars@.subrange(start as int, k as int);
        let ghost post = chars@.subrange(start as int, k + 1);
        assert(post.drop_last() == pre);
        assert(all_digits(post));
        proof {
            lemma_digits_value_nonneg(pre);
        }
        if !over {
            let next = acc * 10 + d;
            if next > limit {
                over = true;
            } else {
                acc = next;
            }
        } else {
            assert(digits_value(post) == digits_value(pre) * 10 + d) by (nonlinear_arith)
                requires
                    digits_value(post) == digits_value(pre) * 10 + (post.last() as int - 48),
                    post.last() as int - 48 == d,
            ;
        }
        k = k + 1;
    }
    assert(chars@.subrange(start as int, n as int) == body);
    if over {
        return None;
    }
    if neg {
        let v: i128 = 0i128 - acc as i128;
        Some(v as i64)
    } else {
        if acc > 0x7fff_ffff_ffff_ffffu128 {
            return None;
        }
        Some(acc as i64)
    }
}

} // verus!

verus! {

/// What `str::parse` gives for an unsigned type whose largest value is
/// `max`: an optional `+`, then one or more ASCII digits whose value is at
/// most `max`.
pub open spec fn parse_unsigned(s: Seq<char>, max: int) -> Option<int> {
    let body = if s.len() > 0 && s[0] == '+' { s.drop_first() } else { s };
    if body.len() == 0 || !all_digits(body) || digits_value(body) > max {
        None
    } else {
        Some(digits_value(body))
    }
}

/// Parses a decimal `u64` as `str::parse::<u64>` does; `None` where that fails.
pub fn parse_u64_str(s: &str) -> (r: Option<u64>)
    ensures
        r matches Some(v) ==> parse_unsigned(s@, u64::MAX as int) == Some(v as int),
        r is None ==> parse_unsigned(s@, u64::MAX as int) is None,
{
    let chars = crate::text::chars_of(s);
    let n = chars.len();
    let start: usize = if n > 0 && chars[0] == '+' { 1 } else { 0 };
    let ghost body = if s@.len() > 0 && s@[0] == '+' { s@.drop_first() } else { s@ };
    assert(body == chars@.subrange(start as int, n as int));
    if start >= n {
        return None;
    }
    let limit: u128 = 0xFFFF_FFFF_FFFF_FFFFu128;
    let mut acc: u128 = 0;
    let mut over = false;
    let mut k = start;
    while k < n
        invariant
            start <= k <= n == chars.len(),
            start < n,
            all_digits(chars@.subrange(start as int, k as int)),
            !over ==> acc == digits_value(chars@.subrange(start as int, k as int)),
            !over ==> acc <= limit,
            over ==> digits_value(chars@.subrange(start as int, k as int)) > limit,
            limit == 0xFFFF_FFFF_FFFF_FFFFu128,
            body == chars@.subrange(start as int, n as int),
            chars@ == s@,
            body == (if s@.len() > 0 && s@[0] == '+' { s@.drop_first() } else { s@ }),
        decreases n - k,
    {
        let c = chars[k];
        if !('0' <= c && c <= '9') {
            proof {
                assert(!is_digit(body[k - start]));
                assert(!all_digits(body));
            }
            return None;
        }
        let d: u128 = (c as u32 - 48) as u128;
        let ghost pre = chars@.subrange(start as int, k as int);
        let ghost post = chars@.subrange(start as int, k + 1);
        assert(post.drop_last() == pre);
        assert(all_digits(post));
        proof {
            lemma_digits_value_nonneg(pre);
        }
        if !over {
            let next = acc * 10 + d;
            if next > limit {
                over = true;
            } else {
                acc = next;
            }
        } else {
            assert(digits_value(post) == digits_value(pre) * 10 + d) by (nonlinear_arith)
                requires
                    digits_value(post) == digits_value(pre) * 10 + (post.last() as int - 48),
                    post.last() as int - 48 == d,
            ;
        }
        k = k + 1;
    }
    if over {
        return None;
    }
    Some(acc as u64)
}

/// Parses a decimal `u32` as `str::parse::<u32>` does; `None` where that fails.
pub fn parse_u32_str(s: &str) -> (r: Option<u32>)
    ensures
        r matches Some(v) ==> parse_unsigned(s@, u32::MAX as int) == Some(v as int),
        r is None ==> parse_unsigned(s@, u32::MAX as int) is None,
{
    match parse_u64_str(s) {
        Some(v) => if v <= 0xFFFF_FFFFu64 { Some(v as u32) } else { None },
        None => None,
    }
}

} // verus!
