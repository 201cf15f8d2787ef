//! Building the structured text handed to the chat backend.
//!
//! A single-speaker request carries a profile header (affinity level,
//! identity, name, pronoun class and the time of day) above the utterance;
//! a group request joins several such texts with a separator line, in a
//! fixed, deterministic order.

use crate::text::{append_chars, append_str, join_spec, join_texts, str_to_chars};
use vstd::prelude::*;

verus! {

/// The decimal digit character for `d`.
pub open spec fn dec_digit(d: u64) -> char {
    if d == 0 {
        '0'
    } else if d == 1 {
        '1'
    } else if d == 2 {
        '2'
    } else if d == 3 {
        '3'
    } else if d == 4 {
        '4'
    } else if d == 5 {
        '5'
    } else if d == 6 {
        '6'
    } else if d == 7 {
        '7'
    } else if d == 8 {
        '8'
    } else {
        '9'
    }
}

/// The decimal digits of `n` without a leading zero (empty for zero).
pub open spec fn dec_raw(n: u64) -> Seq<char>
    decreases n,
{
    if n == 0 {
        Seq::empty()
    } else {
        dec_raw(n / 10) + seq![dec_digit(n % 10)]
    }
}

/// The decimal rendering of `n` (zero renders as a single digit).
pub open spec fn dec_spec(n: u64) -> Seq<char> {
    if n == 0 {
        seq!['0']
    } else {
        dec_raw(n)
    }
}

/// The two-digit zero-padded rendering of `n`.
pub open spec fn two_digit_spec(n: u64) -> Seq<char> {
    seq![dec_digit(n / 10), dec_digit(n % 10)]
}

pub fn digit_char(d: u64) -> (r: char)
    requires
        d < 10,
    ensures
        r == dec_digit(d),
{
    if d == 0 {
        '0'
    } else if d == 1 {
        '1'
    } else if d == 2 {
        '2'
    } else if d == 3 {
        '3'
    } else if d == 4 {
        '4'
    } else if d == 5 {
        '5'
    } else if d == 6 {
        '6'
    } else if d == 7 {
        '7'
    } else if d == 8 {
        '8'
    } else {
        '9'
    }
}

/// Render `n` in decimal.
#[verifier::loop_isolation(false)]
pub fn fmt_u64(n: u64) -> (r: Vec<char>)
    ensures
        r@ == dec_spec(n),
{
    if n == 0 {
        let mut r: Vec<char> = Vec::new();
        r.push('0');
        proof {
            assert(r@ =~= seq!['0']);
        }
        return r;
    }
    let mut digits: Vec<char> = Vec::new();
    let mut num = n;
    while num > 0
        invariant
            dec_raw(n) =~= dec_raw(num) + digits@.reverse(),
        decreases num,
    {
        let d = digit_char(num % 10);
        proof {
            assert(digits@.push(dec_digit(num as u64 % 10)).reverse() =~= seq![
                dec_digit(num as u64 % 10),
            ] + digits@.reverse());
            assert(dec_raw(num as u64) == dec_raw(num as u64 / 10) + seq![
                dec_digit(num as u64 % 10),
            ]);
            assert(dec_raw(num as u64 / 10) + seq![dec_digit(num as u64 % 10)]
                + digits@.reverse() =~= dec_raw(num as u64 / 10) + digits@.push(
                dec_digit(num as u64 % 10),
            ).reverse());
        }
        digits.push(d);
        num = num / 10;
    }
    let m = digits.len();
    let mut r: Vec<char> = Vec::new();
    let mut i: usize = 0;
    while i < m
        invariant
            0 <= i <= m,
            m == digits@.len(),
            r@ =~= digits@.reverse().take(i as int),
        decreases m - i,
    {
        r.push(digits[m - 1 - i]);
        i += 1;
    }
    proof {
        assert(digits@.reverse().take(m as int) =~= digits@.reverse());
        assert(dec_raw(0) + digits@.reverse() =~= digits@.reverse());
    }
    r
}

/// Render `n` as two zero-padded digits.
pub fn two_digits(n: u64) -> (r: Vec<char>)
    requires
        n < 100,
    ensures
        r@ == two_digit_spec(n),
{
    let mut r: Vec<char> = Vec::new();
    r.push(digit_char(n / 10));
    r.push(digit_char(n % 10));
    proof {
        assert(r@ =~= two_digit_spec(n));
    }
    r
}

/// The full text of a single-speaker request: the profile header, a
/// marker line, then the utterance.
pub open spec fn user_message_spec(
    text: Seq<char>,
    level: u32,
    user_id: u64,
    name: Seq<char>,
    gender: Seq<char>,
    hour: u64,
    minute: u64,
) -> Seq<char> {
    "\u{597D}\u{611F}\u{5EA6}\u{30EC}\u{30D9}\u{30EB}: "@ + dec_spec(level as u64) + "\nID: "@
        + dec_spec(user_id) + "\n\u{540D}\u{524D}: "@ + name + "\n\u{6027}\u{5225}: "@ + gender
        + "\n\u{6642}\u{523B}: "@ + two_digit_spec(hour) + ":"@ + two_digit_spec(minute)
        + "\n####\n"@ + text
}

/// Build the structured single-speaker request text around an utterance:
/// affinity level, speaker id, display name, pronoun class and the time
/// of day, then the utterance below a marker line.
pub fn create_user_message(
    text: &Vec<char>,
    level: u32,
    user_id: u64,
    name: &Vec<char>,
    gender: &Vec<char>,
    hour: u64,
    minute: u64,
) -> (r: Vec<char>)
    requires
        hour < 24,
        minute < 60,
    ensures
        r@ == user_message_spec(text@, level, user_id, name@, gender@, hour, minute),
{
    let mut r: Vec<char> = Vec::new();
    append_str(&mut r, "\u{597D}\u{611F}\u{5EA6}\u{30EC}\u{30D9}\u{30EB}: ");
    let mut part = fmt_u64(level as u64);
    append_chars(&mut r, &part);
    append_str(&mut r, "\nID: ");
    part = fmt_u64(user_id);
    append_chars(&mut r, &part);
    append_str(&mut r, "\n\u{540D}\u{524D}: ");
    append_chars(&mut r, name);
    append_str(&mut r, "\n\u{6027}\u{5225}: ");
    append_chars(&mut r, gender);
    append_str(&mut r, "\n\u{6642}\u{523B}: ");
    part = two_digits(hour);
    append_chars(&mut r, &part);
    append_str(&mut r, ":");
    part = two_digits(minute);
    append_chars(&mut r, &part);
    append_str(&mut r, "\n####\n");
    append_chars(&mut r, text);
    proof {
        assert(r@ =~= user_message_spec(text@, level, user_id, name@, gender@, hour, minute));
    }
    r
}

/// The separator placed between two speakers' texts in a group request.
pub open spec fn group_separator() -> Seq<char> {
    "\n----\n"@
}

/// Join several speakers' request texts into one group request, in the
/// given (buffer) order, separated by a marker line.
pub fn create_multi_user_message(items: &Vec<Vec<char>>) -> (r: Vec<char>)
    ensures
        r@ == join_spec(items@.map_values(|p: Vec<char>| p@), group_separator()),
{
    let sep = str_to_chars("\n----\n");
    join_texts(items, &sep)
}

} // verus!
