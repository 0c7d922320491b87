//! Reading texts that are made of fixed words and of values between them.
//!
//! Nothing here runs. These are the readers by which it is stated that what is
//! written for other programs says what it is meant to say.

use crate::numeral::{
    decimal, decimal_reads_back, i32_value, lemma_decimal_digits, signed_decimal,
    signed_decimal_reads_back, unsigned_value,
};
use crate::text::{begins_with, find, lemma_find};
use vstd::prelude::*;

verus! {

/// What follows `word` in a text that begins with it.
pub open spec fn after(t: Seq<char>, word: Seq<char>) -> Option<Seq<char>> {
    if begins_with(t, word) {
        Some(t.skip(word.len() as int))
    } else {
        None
    }
}

/// What stands before the first `c`, and what follows it.
pub open spec fn split_once(t: Seq<char>, c: char) -> Option<(Seq<char>, Seq<char>)> {
    let n = find(t, c) as int;
    if n < t.len() {
        Some((t.take(n), t.skip(n + 1)))
    } else {
        None
    }
}

/// Whether a text does not hold `c`.
pub open spec fn lacks(t: Seq<char>, c: char) -> bool {
    forall|i: int| 0 <= i < t.len() ==> #[trigger] t[i] != c
}

/// Two numbers from 0 to 2^32 - 1 with `c` between them.
pub open spec fn read_size(t: Seq<char>, c: char) -> Option<(int, int)> {
    match split_once(t, c) {
        Some((a, b)) => match (
            unsigned_value(a, 10, u32::MAX as nat),
            unsigned_value(b, 10, u32::MAX as nat),
        ) {
            (Some(w), Some(h)) => Some((w as int, h as int)),
            _ => None,
        },
        None => None,
    }
}

/// Two numbers from -2^31 to 2^31 - 1 with `c` between them.
pub open spec fn read_place(t: Seq<char>, c: char) -> Option<(int, int)> {
    match split_once(t, c) {
        Some((a, b)) => match (i32_value(a), i32_value(b)) {
            (Some(x), Some(y)) => Some((x, y)),
            _ => None,
        },
        None => None,
    }
}

/// A size, `@` and a refresh rate.
pub open spec fn read_mode(t: Seq<char>) -> Option<((int, int), Seq<char>)> {
    match split_once(t, '@') {
        Some((size, rate)) => match read_size(size, 'x') {
            Some(size) => Some((size, rate)),
            None => None,
        },
        None => None,
    }
}

pub proof fn lemma_after(word: Seq<char>, rest: Seq<char>)
    ensures
        after(word + rest, word) == Some(rest),
{
    assert((word + rest).subrange(0, word.len() as int) =~= word);
    assert((word + rest).skip(word.len() as int) =~= rest);
}

pub proof fn lemma_split_once(a: Seq<char>, c: char, b: Seq<char>)
    requires
        lacks(a, c),
    ensures
        split_once(a + seq![c] + b, c) == Some((a, b)),
{
    let t = a + seq![c] + b;
    lemma_find(t, c);
    let n = find(t, c) as int;
    assert(t[a.len() as int] == c);
    assert(n <= a.len());
    if n < a.len() {
        assert(t[n] == a[n]);
    }
    assert(t.take(n) =~= a);
    assert(t.skip(n + 1) =~= b);
}

/// A printed number holds digits and at most a minus sign.
pub proof fn lemma_number_lacks(n: int, c: char)
    requires
        c != '-',
        !('0' <= c <= '9'),
    ensures
        lacks(signed_decimal(n), c),
        n >= 0 ==> lacks(decimal(n as nat), c),
{
    if n < 0 {
        lemma_decimal_digits((-n) as nat);
    } else {
        lemma_decimal_digits(n as nat);
    }
}

pub proof fn lemma_size_reads_back(w: u32, h: u32, c: char)
    requires
        c != '-',
        !('0' <= c <= '9'),
    ensures
        read_size(decimal(w as nat) + seq![c] + decimal(h as nat), c) == Some((w as int, h as int)),
{
    lemma_number_lacks(w as int, c);
    lemma_split_once(decimal(w as nat), c, decimal(h as nat));
    decimal_reads_back(w as nat, u32::MAX as nat);
    decimal_reads_back(h as nat, u32::MAX as nat);
}

pub proof fn lemma_place_reads_back(x: i32, y: i32, c: char)
    requires
        c != '-',
        !('0' <= c <= '9'),
    ensures
        read_place(signed_decimal(x as int) + seq![c] + signed_decimal(y as int), c) == Some(
            (x as int, y as int),
        ),
{
    lemma_number_lacks(x as int, c);
    lemma_split_once(signed_decimal(x as int), c, signed_decimal(y as int));
    signed_decimal_reads_back(x);
    signed_decimal_reads_back(y);
}

pub proof fn lemma_mode_reads_back(w: u32, h: u32, rate: Seq<char>)
    ensures
        read_mode(decimal(w as nat) + seq!['x'] + decimal(h as nat) + seq!['@'] + rate) == Some(
            ((w as int, h as int), rate),
        ),
{
    let size = decimal(w as nat) + seq!['x'] + decimal(h as nat);
    lemma_number_lacks(w as int, '@');
    lemma_number_lacks(h as int, '@');
    assert(lacks(size, '@'));
    lemma_split_once(size, '@', rate);
    lemma_size_reads_back(w, h, 'x');
}

} // verus!
