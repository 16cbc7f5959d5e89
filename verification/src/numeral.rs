//! Numbers as text: what the key formats and the gateway write, and what they accept.
use crate::order::{lemma_text_le_push, text_le};
use crate::text::{chars_of, push};
use vstd::arithmetic::div_mod::{lemma_div_decreases, lemma_fundamental_div_mod, lemma_mod_bound};
use vstd::prelude::*;

verus! {

/// The character of one digit, letters in lower case.
pub open spec fn digit_char(d: nat) -> char {
    if d < 10 {
        ('0' as nat + d) as char
    } else {
        ('a' as nat + (d - 10)) as char
    }
}

/// What one character counts for in `base`, either case of a letter.
pub open spec fn digit_value(c: char, base: nat) -> Option<nat> {
    let d: nat = if '0' <= c && c <= '9' {
        (c as nat - '0' as nat) as nat
    } else if 'a' <= c && c <= 'f' {
        (c as nat - 'a' as nat + 10) as nat
    } else if 'A' <= c && c <= 'F' {
        (c as nat - 'A' as nat + 10) as nat
    } else {
        99
    };
    if d < base {
        Some(d)
    } else {
        None
    }
}

/// The number a run of digits stands for, or `None` when one of them is not a digit.
pub open spec fn value_in(s: Seq<char>, base: nat) -> Option<nat>
    decreases s.len(),
{
    if s.len() == 0 {
        Some(0)
    } else {
        match (value_in(s.drop_last(), base), digit_value(s.last(), base)) {
            (Some(v), Some(d)) => Some(v * base + d),
            _ => None,
        }
    }
}

/// The number `s` stands for: digits, at least one, behind an optional plus sign, within `u64`.
pub open spec fn parsed(s: Seq<char>, base: nat) -> Option<nat> {
    let body = if s.len() > 0 && s[0] == '+' {
        s.drop_first()
    } else {
        s
    };
    match value_in(body, base) {
        Some(v) if body.len() > 0 && v <= u64::MAX => Some(v),
        _ => None,
    }
}

/// The digits of `n` in `base`, without leading zeros.
pub open spec fn digits(n: nat, base: nat) -> Seq<char>
    decreases n,
{
    if base < 2 || n < base {
        seq![digit_char(n)]
    } else {
        proof {
            lemma_div_decreases(n as int, base as int);
        }
        digits(n / base, base).push(digit_char(n % base))
    }
}

/// `n` in decimal.
pub open spec fn decimal(n: nat) -> Seq<char> {
    digits(n, 10)
}

/// The last `width` hexadecimal digits of `n`, leading zeros kept.
pub open spec fn hex_fixed(n: nat, width: nat) -> Seq<char>
    decreases width,
{
    if width == 0 {
        Seq::empty()
    } else {
        hex_fixed(n / 16, (width - 1) as nat).push(digit_char(n % 16))
    }
}

/// Sixteen hexadecimal digits: a 64-bit number in full.
pub open spec fn hex16(n: u64) -> Seq<char> {
    hex_fixed(n as nat, 16)
}

/// `16` to the power `w`.
pub open spec fn pow16(w: nat) -> nat
    decreases w,
{
    if w == 0 {
        1
    } else {
        16 * pow16((w - 1) as nat)
    }
}

/// A digit's character counts for that digit.
pub proof fn lemma_digit(d: nat, base: nat)
    requires
        d < base <= 16,
    ensures
        digit_value(digit_char(d), base) == Some(d),
        digit_char(d) != '+',
        digit_char(d) != '/',
        digit_char(d) != ':',
{
}

/// Writing a number and reading it back gives the number.
pub proof fn lemma_digits_value(n: nat, base: nat)
    requires
        2 <= base <= 16,
    ensures
        value_in(digits(n, base), base) == Some(n),
        digits(n, base).len() > 0,
        digits(n, base)[0] != '+',
        forall|i: int|
            0 <= i < digits(n, base).len() ==> #[trigger] digits(n, base)[i] != '/' && digits(n, base)[i]
                != ':',
    decreases n,
{
    let s = digits(n, base);
    if n < base {
        lemma_digit(n, base);
        assert(s.drop_last() =~= Seq::empty());
        assert(s.last() == digit_char(n));
        assert(value_in(s.drop_last(), base) == Some(0nat));
        assert(0 * base == 0) by (nonlinear_arith);
    } else {
        lemma_div_decreases(n as int, base as int);
        lemma_digits_value(n / base, base);
        lemma_mod_bound(n as int, base as int);
        lemma_digit(n % base, base);
        assert(s.drop_last() =~= digits(n / base, base));
        lemma_fundamental_div_mod(n as int, base as int);
        assert((n / base) * base == base * (n / base)) by (nonlinear_arith);
    }
}

/// A decimal reads back as the number it was written from.
pub proof fn lemma_decimal_parses(n: u64)
    ensures
        parsed(decimal(n as nat), 10) == Some(n as nat),
{
    lemma_digits_value(n as nat, 10);
}

/// A fixed-width hexadecimal reads back as the number, when the width holds it.
pub proof fn lemma_hex_fixed_value(n: nat, w: nat)
    requires
        n < pow16(w),
    ensures
        hex_fixed(n, w).len() == w,
        value_in(hex_fixed(n, w), 16) == Some(n),
        forall|i: int| 0 <= i < w ==> #[trigger] hex_fixed(n, w)[i] != '+' && hex_fixed(n, w)[i] != '/',
    decreases w,
{
    if w > 0 {
        lemma_hex_fixed_value(n / 16, (w - 1) as nat);
        lemma_digit(n % 16, 16);
        let s = hex_fixed(n, w);
        assert(s.drop_last() =~= hex_fixed(n / 16, (w - 1) as nat));
    }
}

/// Sixteen hexadecimal digits read back as the number they were written from.
pub proof fn lemma_hex16_parses(n: u64)
    ensures
        hex16(n).len() == 16,
        parsed(hex16(n), 16) == Some(n as nat),
        forall|i: int| 0 <= i < 16 ==> #[trigger] hex16(n)[i] != '/',
{
    reveal_with_fuel(pow16, 17);
    lemma_hex_fixed_value(n as nat, 16);
    assert(hex16(n)[0] != '+');
}

/// Fixed-width hexadecimals are ordered as their numbers are.
pub proof fn lemma_hex_fixed_order(a: nat, b: nat, w: nat)
    requires
        a < pow16(w),
        b < pow16(w),
    ensures
        text_le(hex_fixed(a, w), hex_fixed(b, w)) == (a <= b),
    decreases w,
{
    if w > 0 {
        let v = (w - 1) as nat;
        lemma_hex_fixed_order(a / 16, b / 16, v);
        lemma_hex_fixed_value(a / 16, v);
        lemma_hex_fixed_value(b / 16, v);
        lemma_text_le_push(
            hex_fixed(a / 16, v),
            hex_fixed(b / 16, v),
            digit_char(a % 16),
            digit_char(b % 16),
        );
    }
}

/// Sixteen hexadecimal digits are ordered as their numbers are.
pub proof fn lemma_hex16_order(a: u64, b: u64)
    ensures
        text_le(hex16(a), hex16(b)) == (a <= b),
{
    reveal_with_fuel(pow16, 17);
    lemma_hex_fixed_order(a as nat, b as nat, 16);
}

/// Digits in front of more digits never count for more than all of them.
proof fn lemma_value_prefix(s: Seq<char>, i: int, base: nat)
    requires
        0 <= i <= s.len(),
        base >= 1,
        value_in(s, base) is Some,
    ensures
        value_in(s.subrange(0, i), base) is Some,
        value_in(s.subrange(0, i), base)->0 <= value_in(s, base)->0,
    decreases s.len() - i,
{
    if i == s.len() {
        assert(s.subrange(0, i) =~= s);
    } else {
        lemma_value_prefix(s, i + 1, base);
        let t = s.subrange(0, i + 1);
        assert(t.drop_last() =~= s.subrange(0, i));
        let v = value_in(t.drop_last(), base)->0;
        assert(v <= v * base) by (nonlinear_arith)
            requires
                base >= 1,
                v >= 0,
        ;
    }
}

/// The character of one digit.
fn digit(d: u64) -> (c: char)
    requires
        d < 16,
    ensures
        c == digit_char(d as nat),
{
    if d < 10 {
        (48u8 + d as u8) as char
    } else {
        (87u8 + d as u8) as char
    }
}

/// What one character counts for in `base`.
fn value_of(c: char, base: u64) -> (r: Option<u64>)
    requires
        base <= 16,
    ensures
        r is Some == digit_value(c, base as nat) is Some,
        r matches Some(d) ==> digit_value(c, base as nat) == Some(d as nat),
{
    let d: u64 = if '0' <= c && c <= '9' {
        c as u64 - 48
    } else if 'a' <= c && c <= 'f' {
        c as u64 - 87
    } else if 'A' <= c && c <= 'F' {
        c as u64 - 55
    } else {
        99
    };
    if d < base {
        Some(d)
    } else {
        None
    }
}

/// `u64::from_str_radix` for a base up to sixteen.
pub fn parse_radix(s: &str, base: u64) -> (r: Option<u64>)
    requires
        2 <= base <= 16,
    ensures
        r is Some == parsed(s@, base as nat) is Some,
        r matches Some(v) ==> parsed(s@, base as nat) == Some(v as nat),
{
    let v = chars_of(s);
    let start: usize = if v.len() > 0 && v[0] == '+' {
        1
    } else {
        0
    };
    let ghost body = s@.subrange(start as int, s@.len() as int);
    proof {
        if start == 1 {
            assert(body =~= s@.drop_first());
        } else {
            assert(body =~= s@);
        }
    }
    if v.len() == start {
        return None;
    }
    let mut acc: u64 = 0;
    let mut i: usize = start;
    assert(body.subrange(0, 0) =~= Seq::empty());
    while i < v.len()
        invariant
            start <= i <= v@.len(),
            start <= 1,
            v@ == s@,
            2 <= base <= 16,
            body == s@.subrange(start as int, s@.len() as int),
            body.len() > 0,
            start == 1 <==> (s@.len() > 0 && s@[0] == '+'),
            start == 1 ==> body == s@.drop_first(),
            start == 0 ==> body == s@,
            value_in(body.subrange(0, i - start), base as nat) == Some(acc as nat),
        decreases v@.len() - i,
    {
        let ghost t = body.subrange(0, i - start + 1);
        assert(t.drop_last() =~= body.subrange(0, i - start));
        assert(t.last() == v@[i as int]);
        match value_of(v[i], base) {
            None => {
                assert(value_in(t, base as nat) is None);
                proof {
                    if value_in(body, base as nat) is Some {
                        lemma_value_prefix(body, i - start + 1, base as nat);
                    }
                }
                return None;
            },
            Some(d) => {
                assert(0 <= acc * base <= u64::MAX * 16) by (nonlinear_arith)
                    requires
                        0 <= acc <= u64::MAX,
                        0 <= base <= 16,
                ;
                let next: u128 = acc as u128 * base as u128 + d as u128;
                assert(next == acc * base + d);
                assert(value_in(t, base as nat) == Some(next as nat));
                if next > u64::MAX as u128 {
                    proof {
                        if value_in(body, base as nat) is Some {
                            lemma_value_prefix(body, i - start + 1, base as nat);
                        }
                    }
                    return None;
                }
                acc = next as u64;
            },
        }
        i += 1;
    }
    assert(body.subrange(0, i - start) =~= body);
    Some(acc)
}

/// `n` in decimal.
pub fn to_decimal(n: u64) -> (r: String)
    ensures
        r@ == decimal(n as nat),
    decreases n,
{
    if n < 10 {
        let mut s = String::new();
        push(&mut s, digit(n));
        assert(s@ =~= seq![digit_char(n as nat)]);
        s
    } else {
        let mut s = to_decimal(n / 10);
        push(&mut s, digit(n % 10));
        s
    }
}

/// `n` in hexadecimal, without leading zeros.
pub fn to_hex(n: u128) -> (r: String)
    ensures
        r@ == digits(n as nat, 16),
    decreases n,
{
    if n < 16 {
        let mut s = String::new();
        push(&mut s, digit(n as u64));
        assert(s@ =~= seq![digit_char(n as nat)]);
        s
    } else {
        let mut s = to_hex(n / 16);
        push(&mut s, digit((n % 16) as u64));
        s
    }
}

/// The last `width` hexadecimal digits of `n`.
fn to_hex_fixed(n: u64, width: usize) -> (r: String)
    ensures
        r@ == hex_fixed(n as nat, width as nat),
    decreases width,
{
    if width == 0 {
        String::new()
    } else {
        let mut s = to_hex_fixed(n / 16, width - 1);
        push(&mut s, digit(n % 16));
        s
    }
}

/// `b` as two lower-case hexadecimal digits.
pub fn to_hex_byte(b: u8) -> (r: String)
    ensures
        r@ == hex_fixed(b as nat, 2),
{
    to_hex_fixed(b as u64, 2)
}

/// `n` as sixteen lower-case hexadecimal digits.
pub fn to_hex16(n: u64) -> (r: String)
    ensures
        r@ == hex16(n),
{
    to_hex_fixed(n, 16)
}

} // verus!
