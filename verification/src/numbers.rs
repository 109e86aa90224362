//! Decimal and hexadecimal numerals: formatting as `{}` and `{:0w$x}` do,
//! and parsing as `u32::from_str` and `usize::from_str` do.

use vstd::prelude::*;
use crate::text::push_char;

verus! {

/// The character of the decimal digit `d`.
pub open spec fn digit_char(d: nat) -> char {
    ((d % 10) + 48) as char
}

/// The character of the lowercase hexadecimal digit `d`.
pub open spec fn hex_char(d: nat) -> char {
    if d % 16 < 10 {
        ((d % 16) + 48) as char
    } else {
        ((d % 16) + 87) as char
    }
}

/// The decimal numeral of `n`, without leading zeros.
pub open spec fn decimal(n: nat) -> Seq<char>
    decreases n,
{
    if n < 10 {
        seq![digit_char(n)]
    } else {
        decimal(n / 10).push(digit_char(n % 10))
    }
}

/// The last `w` hexadecimal digits of `v`, most significant first: the
/// numeral of `v` zero-padded to width `w` when `v < 16^w`.
pub open spec fn hex_fixed(v: nat, w: nat) -> Seq<char>
    decreases w,
{
    if w == 0 {
        Seq::empty()
    } else {
        hex_fixed(v / 16, (w - 1) as nat).push(hex_char(v % 16))
    }
}

pub open spec fn is_digit(c: char) -> bool {
    '0' <= c && c <= '9'
}

pub open spec fn all_digits(s: Seq<char>) -> bool {
    forall|i: int| 0 <= i < s.len() ==> is_digit(#[trigger] s[i])
}

/// The value of a string of decimal digits.
pub open spec fn digits_value(s: Seq<char>) -> nat
    decreases s.len(),
{
    if s.len() == 0 {
        0
    } else {
        digits_value(s.drop_last()) * 10 + ((s.last() as int - 48) as nat)
    }
}

/// What `from_str` of an unsigned integer type reads in `s` before its range
/// is checked: an optional `+`, then one or more decimal digits.
pub open spec fn parse_unsigned(s: Seq<char>) -> Option<nat> {
    let d = if s.len() > 0 && s[0] == '+' {
        s.drop_first()
    } else {
        s
    };
    if d.len() > 0 && all_digits(d) {
        Some(digits_value(d))
    } else {
        None
    }
}

/// `u32::from_str(s).ok()`.
pub open spec fn parse_u32_spec(s: Seq<char>) -> Option<u32> {
    match parse_unsigned(s) {
        Some(v) => if v <= u32::MAX {
            Some(v as u32)
        } else {
            None
        },
        None => None,
    }
}

/// `usize::from_str(s).ok()`.
pub open spec fn parse_usize_spec(s: Seq<char>) -> Option<usize> {
    match parse_unsigned(s) {
        Some(v) => if v <= usize::MAX {
            Some(v as usize)
        } else {
            None
        },
        None => None,
    }
}

fn digit_to_char(d: u128) -> (c: char)
    requires
        d < 10,
    ensures
        c == digit_char(d as nat),
{
    let b: u8 = 48 + (d as u8);
    b as char
}

fn hex_digit_to_char(d: u128) -> (c: char)
    requires
        d < 16,
    ensures
        c == hex_char(d as nat),
{
    if d < 10 {
        let b: u8 = 48 + (d as u8);
        b as char
    } else {
        let b: u8 = 87 + (d as u8);
        b as char
    }
}

/// Appends the decimal numeral of `n` to `s` (as `{}` formats it).
pub fn push_decimal(s: &mut String, n: u128)
    ensures
        final(s)@ == old(s)@ + decimal(n as nat),
    decreases n,
{
    if n >= 10 {
        push_decimal(s, n / 10);
    }
    push_char(s, digit_to_char(n % 10));
    proof {
        if n < 10 {
            assert(n % 10 == n);
        }
    }
    assert(final(s)@ =~= old(s)@ + decimal(n as nat)) by {
        if n >= 10 {
            assert(decimal(n as nat) == decimal((n / 10) as nat).push(digit_char((n % 10) as nat)));
        }
    }
}

/// Appends the last `w` hexadecimal digits of `v` to `s`.
pub fn push_hex(s: &mut String, v: u128, w: usize)
    ensures
        final(s)@ == old(s)@ + hex_fixed(v as nat, w as nat),
    decreases w,
{
    if w > 0 {
        push_hex(s, v / 16, w - 1);
        push_char(s, hex_digit_to_char(v % 16));
        assert(final(s)@ =~= old(s)@ + hex_fixed(v as nat, w as nat));
    } else {
        assert(final(s)@ =~= old(s)@ + hex_fixed(v as nat, w as nat));
    }
}

/// The decimal numeral of `n`.
pub fn decimal_string(n: u128) -> (r: String)
    ensures
        r@ == decimal(n as nat),
{
    let mut r = String::new();
    push_decimal(&mut r, n);
    assert(r@ =~= decimal(n as nat));
    r
}

/// A string of digits is worth at least as much as any of its prefixes.
pub proof fn lemma_digits_value_prefix(s: Seq<char>, j: int)
    requires
        0 <= j <= s.len(),
    ensures
        digits_value(s) >= digits_value(s.take(j)),
    decreases s.len(),
{
    if j < s.len() {
        lemma_digits_value_prefix(s.drop_last(), j);
        assert(s.drop_last().take(j) =~= s.take(j));
    } else {
        assert(s.take(j) =~= s);
    }
}

/// Reads `s` as `from_str` of an unsigned type whose largest value is `max`.
pub fn parse_bounded(s: &[char], max: u64) -> (r: Option<u64>)
    ensures
        r matches Some(v) ==> parse_unsigned(s@) == Some(v as nat) && v <= max,
        r is None ==> (parse_unsigned(s@) is None || parse_unsigned(s@).unwrap() > max),
{
    let start: usize = if s.len() > 0 && s[0] == '+' {
        1
    } else {
        0
    };
    let ghost d = s@.skip(start as int);
    assert(d =~= (if s@.len() > 0 && s@[0] == '+' {
        s@.drop_first()
    } else {
        s@
    }));
    if start >= s.len() {
        return None;
    }
    let mut i: usize = start;
    let mut acc: u64 = 0;
    assert(s@.subrange(start as int, start as int) =~= Seq::<char>::empty());
    while i < s.len()
        invariant
            start <= i <= s@.len(),
            d == s@.skip(start as int),
            d == (if s@.len() > 0 && s@[0] == '+' {
                s@.drop_first()
            } else {
                s@
            }),
            d.len() > 0,
            all_digits(s@.subrange(start as int, i as int)),
            acc as nat == digits_value(s@.subrange(start as int, i as int)),
            acc <= max,
        decreases s@.len() - i,
    {
        let c = s[i];
        if !('0' <= c && c <= '9') {
            assert(d[i - start] == c);
            assert(!is_digit(d[i - start]));
            return None;
        }
        let dv: u64 = (c as u64) - 48;
        let ghost next = s@.subrange(start as int, i + 1);
        assert(next.drop_last() =~= s@.subrange(start as int, i as int));
        assert(digits_value(next) == acc * 10 + dv);
        assert forall|k: int| 0 <= k < next.len() implies is_digit(#[trigger] next[k]) by {
            if k < next.len() - 1 {
                assert(next[k] == s@.subrange(start as int, i as int)[k]);
            }
        }
        if dv > max || acc > (max - dv) / 10 {
            proof {
                assert(acc * 10 + dv > max) by (nonlinear_arith)
                    requires
                        dv > max || acc > (max - dv) / 10,
                        dv <= 9,
                ;
                if all_digits(d) {
                    assert(next =~= d.take(i + 1 - start));
                    lemma_digits_value_prefix(d, i + 1 - start);
                }
            }
            return None;
        }
        assert(acc * 10 + dv <= max) by (nonlinear_arith)
            requires
                acc <= (max - dv) / 10,
                dv <= max,
        ;
        acc = acc * 10 + dv;
        i = i + 1;
    }
    assert(s@.subrange(start as int, i as int) =~= d);
    Some(acc)
}

/// `u32::from_str(s).ok()` on the characters `s`.
pub fn parse_u32(s: &[char]) -> (r: Option<u32>)
    ensures
        r == parse_u32_spec(s@),
{
    match parse_bounded(s, 0xffff_ffff) {
        Some(v) => Some(v as u32),
        None => None,
    }
}

/// `usize::from_str(s).ok()` on the characters `s`.
pub fn parse_usize(s: &[char]) -> (r: Option<usize>)
    ensures
        r == parse_usize_spec(s@),
{
    match parse_bounded(s, usize::MAX as u64) {
        Some(v) => Some(v as usize),
        None => None,
    }
}

/// The decimal numeral of a number reads back as that number.
pub proof fn lemma_parse_decimal(n: nat)
    ensures
        parse_unsigned(decimal(n)) == Some(n),
        decimal(n).len() > 0,
        all_digits(decimal(n)),
    decreases n,
{
    let c = digit_char(n % 10);
    assert(c as int - 48 == n % 10);
    if n >= 10 {
        lemma_parse_decimal(n / 10);
        let s = decimal(n);
        assert(s.drop_last() =~= decimal(n / 10));
        assert(digits_value(s) == n);
        assert forall|i: int| 0 <= i < s.len() implies is_digit(#[trigger] s[i]) by {
            if i < s.len() - 1 {
                assert(s[i] == decimal(n / 10)[i]);
            }
        }
    }
    else {
        assert(n % 10 == n);
        assert(decimal(n) == seq![c]);
        assert(seq![c].drop_last() =~= Seq::<char>::empty());
        assert(seq![c].last() == c);
        assert(digits_value(Seq::<char>::empty()) == 0);
        assert(digits_value(seq![c]) == n);
    }
    assert(decimal(n)[0] != '+');
}

/// A fixed-width hexadecimal numeral has the width asked for, and is made of
/// lowercase hexadecimal digits.
pub proof fn lemma_hex_fixed_len(v: nat, w: nat)
    ensures
        hex_fixed(v, w).len() == w,
        forall|i: int| 0 <= i < w ==> is_hex_digit(#[trigger] hex_fixed(v, w)[i]),
    decreases w,
{
    if w > 0 {
        lemma_hex_fixed_len(v / 16, (w - 1) as nat);
        let h = hex_fixed(v, w);
        assert forall|i: int| 0 <= i < w implies is_hex_digit(#[trigger] h[i]) by {
            if i < w - 1 {
                assert(h[i] == hex_fixed(v / 16, (w - 1) as nat)[i]);
            }
        }
    }
}

/// A lowercase hexadecimal digit.
pub open spec fn is_hex_digit(c: char) -> bool {
    ('0' <= c && c <= '9') || ('a' <= c && c <= 'f')
}

/// `16^w`.
pub open spec fn pow16(w: nat) -> nat
    decreases w,
{
    if w == 0 {
        1
    } else {
        16 * pow16((w - 1) as nat)
    }
}

/// Different hexadecimal digits are different characters.
pub proof fn lemma_hex_char_injective(d1: nat, d2: nat)
    requires
        d1 < 16,
        d2 < 16,
        hex_char(d1) == hex_char(d2),
    ensures
        d1 == d2,
{
    let c1 = hex_char(d1);
    let c2 = hex_char(d2);
    assert(c1 as int == (if d1 < 10 {
        d1 + 48
    } else {
        d1 + 87
    }));
    assert(c2 as int == (if d2 < 10 {
        d2 + 48
    } else {
        d2 + 87
    }));
}

/// Two numbers below `16^w` with the same `w` hexadecimal digits are equal.
pub proof fn lemma_hex_fixed_injective(v1: nat, v2: nat, w: nat)
    requires
        v1 < pow16(w),
        v2 < pow16(w),
        hex_fixed(v1, w) == hex_fixed(v2, w),
    ensures
        v1 == v2,
    decreases w,
{
    if w > 0 {
        let p = pow16((w - 1) as nat);
        lemma_hex_fixed_len(v1 / 16, (w - 1) as nat);
        let h1 = hex_fixed(v1, w);
        let h2 = hex_fixed(v2, w);
        assert(h1.last() == hex_char(v1 % 16));
        assert(h2.last() == hex_char(v2 % 16));
        lemma_hex_char_injective(v1 % 16, v2 % 16);
        assert(h1.drop_last() == hex_fixed(v1 / 16, (w - 1) as nat));
        assert(h2.drop_last() == hex_fixed(v2 / 16, (w - 1) as nat));
        assert(v1 / 16 < p && v2 / 16 < p) by (nonlinear_arith)
            requires
                v1 < 16 * p,
                v2 < 16 * p,
        ;
        lemma_hex_fixed_injective(v1 / 16, v2 / 16, (w - 1) as nat);
        assert(v1 == 16 * (v1 / 16) + v1 % 16) by (nonlinear_arith);
        assert(v2 == 16 * (v2 / 16) + v2 % 16) by (nonlinear_arith);
    }
}

/// The leading digit of a four-digit hexadecimal numeral.
pub proof fn lemma_hex4_first(v: nat)
    ensures
        hex_fixed(v, 4)[0] == hex_char(v / 4096),
{
    lemma_hex_fixed_len(v, 4);
    let a = v / 16;
    let b = a / 16;
    let c = b / 16;
    assert(c == v / 4096) by {
        vstd::arithmetic::div_mod::lemma_div_denominator(v as int, 16, 16);
        vstd::arithmetic::div_mod::lemma_div_denominator(v as int, 256, 16);
    }
    lemma_hex_fixed_len(a, 3);
    lemma_hex_fixed_len(b, 2);
    lemma_hex_fixed_len(c, 1);
    assert(hex_fixed(v, 4)[0] == hex_fixed(a, 3)[0]);
    assert(hex_fixed(a, 3)[0] == hex_fixed(b, 2)[0]);
    assert(hex_fixed(b, 2)[0] == hex_fixed(c, 1)[0]);
    assert(hex_fixed(c, 1)[0] == hex_char(c % 16));
    assert(hex_char(c % 16) == hex_char(c));
}

} // verus!
