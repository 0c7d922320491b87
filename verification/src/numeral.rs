//! Numbers as text: printing integers in decimal and hexadecimal, and reading
//! them back.

use crate::text::chars_of;
use vstd::arithmetic::div_mod::{lemma_breakdown, lemma_small_mod};
use vstd::arithmetic::power::{lemma_pow0, lemma_pow_positive, pow};
use vstd::prelude::*;

verus! {

// ---------------------------------------------------------------------------
// Printing
// ---------------------------------------------------------------------------

/// The digit with value `d`, in small letters from ten on.
pub open spec fn digit(d: nat) -> char {
    if d < 10 {
        (48 + d) as char
    } else {
        (87 + d) as char
    }
}

/// `n` in decimal, without leading zeros.
pub open spec fn decimal(n: nat) -> Seq<char>
    decreases n,
{
    if n < 10 {
        seq![digit(n)]
    } else {
        decimal(n / 10).push(digit(n % 10))
    }
}

/// `n` in decimal, with a minus sign where it is negative.
pub open spec fn signed_decimal(n: int) -> Seq<char> {
    if n < 0 {
        seq!['-'] + decimal((-n) as nat)
    } else {
        decimal(n as nat)
    }
}

/// The last `width` hexadecimal digits of `n`.
pub open spec fn hex(n: nat, width: nat) -> Seq<char>
    decreases width,
{
    if width == 0 {
        seq![]
    } else {
        hex(n / 16, (width - 1) as nat).push(digit(n % 16))
    }
}

fn digit_char(d: u8) -> (r: char)
    requires
        d < 16,
    ensures
        r == digit(d as nat),
{
    if d < 10 {
        (48u8 + d) as char
    } else {
        (87u8 + d) as char
    }
}

/// Append `n` in decimal.
pub fn push_decimal(out: &mut String, n: u64)
    ensures
        final(out)@ == old(out)@ + decimal(n as nat),
    decreases n,
{
    if n >= 10 {
        push_decimal(out, n / 10);
    }
    out.push(digit_char((n % 10) as u8));
    assert(out@ =~= old(out)@ + decimal(n as nat));
}

/// Append `n` in decimal, with a minus sign where it is negative.
pub fn push_signed_decimal(out: &mut String, n: i64)
    ensures
        final(out)@ == old(out)@ + signed_decimal(n as int),
{
    if n < 0 {
        out.push('-');
        let magnitude: u64 = if n == i64::MIN {
            0x8000_0000_0000_0000u64
        } else {
            (-n) as u64
        };
        push_decimal(out, magnitude);
        assert(out@ =~= old(out)@ + signed_decimal(n as int));
    } else {
        push_decimal(out, n as u64);
    }
}

/// Append the last `width` hexadecimal digits of `n`.
pub fn push_hex(out: &mut String, n: u64, width: u8)
    ensures
        final(out)@ == old(out)@ + hex(n as nat, width as nat),
    decreases width,
{
    if width > 0 {
        push_hex(out, n / 16, width - 1);
        out.push(digit_char((n % 16) as u8));
    }
    assert(out@ =~= old(out)@ + hex(n as nat, width as nat));
}

// ---------------------------------------------------------------------------
// Reading
// ---------------------------------------------------------------------------

/// The value of a digit or letter, whatever the radix.
pub open spec fn letter_value(c: char) -> nat {
    let u = c as int;
    if 48 <= u <= 57 {
        (u - 48) as nat
    } else if 97 <= u <= 122 {
        (u - 87) as nat
    } else if 65 <= u <= 90 {
        (u - 55) as nat
    } else {
        36
    }
}

/// The number that the digits `s` write in `radix`; none where one of them is
/// no digit of it.
pub open spec fn digits_value(s: Seq<char>, radix: nat) -> Option<nat>
    decreases s.len(),
{
    if s.len() == 0 {
        Some(0)
    } else {
        match digits_value(s.drop_last(), radix) {
            Some(v) if letter_value(s.last()) < radix => Some(v * radix + letter_value(s.last())),
            _ => None,
        }
    }
}

/// The number that a non-empty run of digits writes, where it is at most `max`.
pub open spec fn bounded_value(s: Seq<char>, radix: nat, max: nat) -> Option<nat> {
    match digits_value(s, radix) {
        Some(v) if s.len() > 0 && v <= max => Some(v),
        _ => None,
    }
}

/// The number from 0 to `max` that `s` writes in `radix`, with or without a
/// plus sign before it.
pub open spec fn unsigned_value(s: Seq<char>, radix: nat, max: nat) -> Option<nat> {
    if s.len() > 0 && s[0] == '+' {
        bounded_value(s.skip(1), radix, max)
    } else {
        bounded_value(s, radix, max)
    }
}

/// The number from -2^31 to 2^31 - 1 that `s` writes in decimal, with or
/// without a sign before it.
pub open spec fn i32_value(s: Seq<char>) -> Option<int> {
    if s.len() > 0 && s[0] == '-' {
        match bounded_value(s.skip(1), 10, 0x8000_0000) {
            Some(v) => Some(-(v as int)),
            None => None,
        }
    } else {
        match unsigned_value(s, 10, 0x7fff_ffff) {
            Some(v) => Some(v as int),
            None => None,
        }
    }
}

fn letter(c: char) -> (r: u64)
    ensures
        r == letter_value(c),
{
    let u = c as u32;
    if 48 <= u && u <= 57 {
        (u - 48) as u64
    } else if 97 <= u && u <= 122 {
        (u - 87) as u64
    } else if 65 <= u && u <= 90 {
        (u - 55) as u64
    } else {
        36
    }
}

/// Reading fewer digits gives a number no larger.
proof fn lemma_digits_prefix(s: Seq<char>, radix: nat, k: int)
    requires
        0 <= k <= s.len(),
        radix > 0,
    ensures
        digits_value(s, radix) matches Some(v) ==> (digits_value(s.take(k), radix) matches Some(w)
            && w <= v),
    decreases s.len(),
{
    if k == s.len() {
        assert(s.take(k) =~= s);
    } else {
        let t = s.drop_last();
        lemma_digits_prefix(t, radix, k);
        assert(t.take(k) =~= s.take(k));
        if let Some(v) = digits_value(t, radix) {
            assert(v <= v * radix) by (nonlinear_arith)
                requires
                    radix > 0,
            ;
        }
    }
}

fn read_digits(chars: &Vec<char>, from: usize, radix: u64, max: u64) -> (r: Option<u64>)
    requires
        from <= chars@.len(),
        2 <= radix <= 36,
    ensures
        match r {
            Some(v) => bounded_value(chars@.skip(from as int), radix as nat, max as nat) == Some(
                v as nat,
            ),
            None => bounded_value(chars@.skip(from as int), radix as nat, max as nat) is None,
        },
{
    let len = chars.len();
    let ghost all = chars@.skip(from as int);
    if from == len {
        return None;
    }
    let mut v: u64 = 0;
    let mut i = from;
    assert(all.take(0) =~= seq![]);
    while i < len
        invariant
            from <= i <= len,
            from < len,
            len == chars@.len(),
            all == chars@.skip(from as int),
            2 <= radix <= 36,
            v <= max,
            digits_value(all.take(i - from), radix as nat) == Some(v as nat),
        decreases len - i,
    {
        let d = letter(chars[i]);
        let ghost next = all.take(i - from + 1);
        proof {
            assert(next.drop_last() =~= all.take(i - from));
            assert(next.last() == chars@[i as int]);
            lemma_digits_prefix(all, radix as nat, i - from + 1);
        }
        if d >= radix {
            return None;
        }
        proof {
            assert((v as u128) * (radix as u128) <= 0xffff_ffff_ffff_ffff * 36) by (nonlinear_arith)
                requires
                    v <= 0xffff_ffff_ffff_ffffu64,
                    radix <= 36,
            ;
        }
        let w: u128 = (v as u128) * (radix as u128) + (d as u128);
        if w > max as u128 {
            return None;
        }
        v = w as u64;
        i = i + 1;
    }
    assert(all.take(len - from) =~= all);
    Some(v)
}

/// The number from 0 to `max` that a text writes in `radix`.
pub fn parse_unsigned(s: &str, radix: u64, max: u64) -> (r: Option<u64>)
    requires
        2 <= radix <= 36,
    ensures
        match r {
            Some(v) => unsigned_value(s@, radix as nat, max as nat) == Some(v as nat),
            None => unsigned_value(s@, radix as nat, max as nat) is None,
        },
{
    let chars = chars_of(s);
    assert(chars@.skip(0) =~= s@);
    if chars.len() > 0 && chars[0] == '+' {
        read_digits(&chars, 1, radix, max)
    } else {
        read_digits(&chars, 0, radix, max)
    }
}

/// The `u32` that a text writes in decimal.
pub fn parse_u32(s: &str) -> (r: Option<u32>)
    ensures
        match r {
            Some(v) => unsigned_value(s@, 10, u32::MAX as nat) == Some(v as nat),
            None => unsigned_value(s@, 10, u32::MAX as nat) is None,
        },
{
    match parse_unsigned(s, 10, u32::MAX as u64) {
        Some(v) => Some(v as u32),
        None => None,
    }
}

/// The `i32` that a text writes in decimal.
pub fn parse_i32(s: &str) -> (r: Option<i32>)
    ensures
        match r {
            Some(v) => i32_value(s@) == Some(v as int),
            None => i32_value(s@) is None,
        },
{
    let chars = chars_of(s);
    assert(chars@.skip(0) =~= s@);
    if chars.len() > 0 && chars[0] == '-' {
        match read_digits(&chars, 1, 10, 0x8000_0000) {
            Some(v) => Some((-(v as i64)) as i32),
            None => None,
        }
    } else {
        match parse_unsigned(s, 10, 0x7fff_ffff) {
            Some(v) => Some(v as i32),
            None => None,
        }
    }
}

// ---------------------------------------------------------------------------
// Printing and reading undo each other
// ---------------------------------------------------------------------------

proof fn lemma_digit(d: nat)
    requires
        d < 16,
    ensures
        letter_value(digit(d)) == d,
        digit(d) != '+',
        digit(d) != '-',
        digit(d) != ':',
        digit(d) != 'x',
        !crate::text::white_space(digit(d)),
{
}

/// Reading a printed decimal number gives the number back.
pub proof fn decimal_reads_back(n: nat, max: nat)
    requires
        n <= max,
    ensures
        unsigned_value(decimal(n), 10, max) == Some(n),
{
    lemma_decimal_value(n);
    assert(decimal(n)[0] != '+') by {
        lemma_decimal_digits(n);
    }
}

/// Reading a printed signed number gives the number back.
pub proof fn signed_decimal_reads_back(n: i32)
    ensures
        i32_value(signed_decimal(n as int)) == Some(n as int),
{
    if n < 0 {
        let m = (-(n as int)) as nat;
        lemma_decimal_value(m);
        assert(signed_decimal(n as int).skip(1) =~= decimal(m));
    } else {
        decimal_reads_back(n as nat, 0x7fff_ffff);
        lemma_decimal_digits(n as nat);
    }
}

/// Reading back the hexadecimal digits of a number that fits in them gives the
/// number back.
pub proof fn hex_reads_back(n: u64)
    ensures
        unsigned_value(hex(n as nat, 16), 16, u64::MAX as nat) == Some(n as nat),
{
    lemma_hex(n as nat, 16);
    assert(pow(16, 16) == 0x1_0000_0000_0000_0000) by {
        reveal_with_fuel(pow, 17);
    }
    lemma_small_mod(n as nat, 0x1_0000_0000_0000_0000);
}

pub proof fn lemma_decimal_value(n: nat)
    ensures
        decimal(n).len() > 0,
        digits_value(decimal(n), 10) == Some(n),
    decreases n,
{
    lemma_digit(n % 10);
    if n < 10 {
        reveal_with_fuel(digits_value, 2);
        assert(decimal(n).drop_last() =~= seq![]);
    } else {
        lemma_decimal_value(n / 10);
        assert(decimal(n).drop_last() =~= decimal(n / 10));
    }
}

pub proof fn lemma_decimal_digits(n: nat)
    ensures
        decimal(n).len() > 0,
        forall|i: int| 0 <= i < decimal(n).len() ==> 48 <= #[trigger] decimal(n)[i] as int <= 57,
    decreases n,
{
    if n >= 10 {
        lemma_decimal_digits(n / 10);
    }
}

/// The hexadecimal digits of a number write it modulo a power of sixteen.
pub proof fn lemma_hex(n: nat, width: nat)
    ensures
        hex(n, width).len() == width,
        digits_value(hex(n, width), 16) == Some((n as int % pow(16, width)) as nat),
        forall|i: int|
            #![trigger hex(n, width)[i]]
            0 <= i < width ==> exists|d: nat| d < 16 && hex(n, width)[i] == digit(d),
    decreases width,
{
    lemma_pow_positive(16, width);
    if width == 0 {
        lemma_pow0(16);
        assert(n as int % 1 == 0);
    } else {
        let w = (width - 1) as nat;
        let p = pow(16, w);
        lemma_hex(n / 16, w);
        lemma_digit(n % 16);
        assert(hex(n, width).drop_last() =~= hex(n / 16, w));
        lemma_pow_positive(16, w);
        reveal_with_fuel(pow, 2);
        assert(pow(16, width) == 16 * p);
        lemma_breakdown(n as int, 16, p);
        assert forall|i: int| #![trigger hex(n, width)[i]] 0 <= i < width implies exists|d: nat|
            d < 16 && hex(n, width)[i] == digit(d) by {
            if i < w {
                assert(hex(n, width)[i] == hex(n / 16, w)[i]);
            } else {
                assert(n % 16 < 16 && hex(n, width)[i] == digit(n % 16));
            }
        }
    }
}

/// Zeros ahead of a number do not change it, and neither does a plus sign.
pub proof fn zeros_and_plus_do_not_count(s: Seq<char>, radix: nat, max: nat)
    requires
        s.len() > 0,
        s[0] != '+',
        radix >= 1,
    ensures
        unsigned_value(seq!['0'] + s, radix, max) == unsigned_value(s, radix, max),
        unsigned_value(seq!['+'] + s, radix, max) == unsigned_value(s, radix, max),
{
    lemma_leading_zero(s, radix);
    assert((seq!['+'] + s).skip(1) =~= s);
}

proof fn lemma_leading_zero(s: Seq<char>, radix: nat)
    requires
        radix >= 1,
    ensures
        digits_value(seq!['0'] + s, radix) == digits_value(s, radix),
    decreases s.len(),
{
    let t = seq!['0'] + s;
    if s.len() == 0 {
        assert(t.drop_last() =~= seq![]);
        assert(digits_value(t.drop_last(), radix) == Some(0nat));
        assert(0 * radix == 0) by (nonlinear_arith);
    } else {
        assert(t.drop_last() =~= seq!['0'] + s.drop_last());
        assert(t.last() == s.last());
        lemma_leading_zero(s.drop_last(), radix);
    }
}

/// A number has at least one character, fits the bound, and all its characters but a
/// leading plus sign are decimal digits.
pub proof fn numbers_are_made_of_digits(s: Seq<char>, max: nat)
    ensures
        unsigned_value(s, 10, max) matches Some(v) ==> {
            &&& v <= max
            &&& s.len() > 0
            &&& s != seq!['+']
            &&& forall|i: int| 0 <= i < s.len() ==> '0' <= #[trigger] s[i] <= '9' || (i == 0 && s[i]
                == '+')
        },
{
    if unsigned_value(s, 10, max) is Some {
        if s[0] == '+' && s.len() > 0 {
            let t = s.skip(1);
            lemma_made_of_digits(t);
            assert forall|i: int| 0 < i < s.len() implies '0' <= #[trigger] s[i] <= '9' by {
                assert(s[i] == t[i - 1]);
            }
            assert(s != seq!['+']) by {
                assert(seq!['+'].len() == 1);
            }
        } else {
            lemma_made_of_digits(s);
        }
    }
}

proof fn lemma_made_of_digits(s: Seq<char>)
    requires
        digits_value(s, 10) is Some,
    ensures
        forall|i: int| 0 <= i < s.len() ==> '0' <= #[trigger] s[i] <= '9',
    decreases s.len(),
{
    if s.len() > 0 {
        let t = s.drop_last();
        lemma_made_of_digits(t);
        assert forall|i: int| 0 <= i < s.len() implies '0' <= #[trigger] s[i] <= '9' by {
            if i < t.len() {
                assert(s[i] == t[i]);
            }
        }
    }
}

} // verus!
