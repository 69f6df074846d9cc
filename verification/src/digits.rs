//! Digits and the numbers they spell.
//!
//! A radix is a number from 2 to 36. The digits of a radix are the characters
//! `0` to `9`, worth 0 to 9, and the letters `a` to `z` of either case, worth
//! 10 to 35, as far as their worth stays below the radix.

use vstd::prelude::*;

verus! {

/// Whether `radix` can be the base of a number.
pub open spec fn valid_radix(radix: nat) -> bool {
    2 <= radix <= 36
}

/// What `c` is worth as a digit, if it is one in any radix.
pub open spec fn digit_value(c: char) -> Option<nat> {
    if '0' <= c <= '9' {
        Some((c as nat - '0' as nat) as nat)
    } else if 'a' <= c <= 'z' {
        Some((c as nat - 'a' as nat + 10) as nat)
    } else if 'A' <= c <= 'Z' {
        Some((c as nat - 'A' as nat + 10) as nat)
    } else {
        None
    }
}

/// Whether `c` is a digit of `radix`.
pub open spec fn is_digit(c: char, radix: nat) -> bool {
    digit_value(c) matches Some(value) && value < radix
}

/// What `c` adds to a number: its worth as a digit, and nothing if it is none.
pub open spec fn worth(c: char) -> nat {
    match digit_value(c) {
        Some(value) => value,
        None => 0,
    }
}

/// How many characters at the front of `s` are digits of `radix`: the place of
/// the first character that is none, or the length of `s` if all are.
pub open spec fn digit_run(s: Seq<char>, radix: nat) -> nat
    decreases s.len(),
{
    if s.len() > 0 && is_digit(s[0], radix) {
        1 + digit_run(s.drop_first(), radix)
    } else {
        0
    }
}

/// The number that `digits` spell in `radix` when they follow a number
/// `start` already read: each digit multiplies what stands before it by the
/// radix and adds its worth.
pub open spec fn positional(start: nat, radix: nat, digits: Seq<char>) -> nat
    decreases digits.len(),
{
    if digits.len() == 0 {
        start
    } else {
        positional(start, radix, digits.drop_last()) * radix + worth(digits.last())
    }
}

/// Where a running total that has to fit in 32 bits comes to a halt on
/// `digits`: each digit first multiplies the total by the radix and then adds
/// its worth, and the total stays at the last value that fit.
pub open spec fn stalled(start: nat, radix: nat, digits: Seq<char>) -> nat
    decreases digits.len(),
{
    if digits.len() == 0 {
        start
    } else if start * radix > u32::MAX {
        start
    } else if start * radix + worth(digits[0]) > u32::MAX {
        start * radix
    } else {
        stalled(start * radix + worth(digits[0]), radix, digits.drop_first())
    }
}

/// The digit run lies within `s`, holds digits only, and ends at the first
/// character that is no digit.
pub proof fn lemma_digit_run(s: Seq<char>, radix: nat)
    ensures
        digit_run(s, radix) <= s.len(),
        forall|i: int| 0 <= i < digit_run(s, radix) ==> is_digit(#[trigger] s[i], radix),
        digit_run(s, radix) < s.len() ==> !is_digit(s[digit_run(s, radix) as int], radix),
    decreases s.len(),
{
    if s.len() > 0 && is_digit(s[0], radix) {
        let tail = s.drop_first();
        lemma_digit_run(tail, radix);
        assert forall|i: int| 0 <= i < digit_run(s, radix) implies is_digit(
            #[trigger] s[i],
            radix,
        ) by {
            if i > 0 {
                assert(s[i] == tail[i - 1]);
            }
        }
        if digit_run(s, radix) < s.len() {
            assert(s[digit_run(s, radix) as int] == tail[digit_run(tail, radix) as int]);
        }
    }
}

/// A place up to which all characters are digits, and at which `s` ends or
/// holds a character that is none, is the digit run.
pub proof fn lemma_digit_run_is(s: Seq<char>, radix: nat, run: nat)
    requires
        run <= s.len(),
        forall|i: int| 0 <= i < run ==> is_digit(#[trigger] s[i], radix),
        run < s.len() ==> !is_digit(s[run as int], radix),
    ensures
        digit_run(s, radix) == run,
    decreases s.len(),
{
    if run > 0 {
        let tail = s.drop_first();
        assert(is_digit(s[0], radix));
        assert forall|i: int| 0 <= i < run - 1 implies is_digit(#[trigger] tail[i], radix) by {
            assert(tail[i] == s[i + 1]);
        }
        if run < s.len() {
            assert(tail[run - 1] == s[run as int]);
        }
        lemma_digit_run_is(tail, radix, (run - 1) as nat);
    }
}

/// Reading one more digit multiplies by the radix and adds the digit's worth.
pub proof fn lemma_positional_step(start: nat, radix: nat, digits: Seq<char>, n: int)
    requires
        0 <= n < digits.len(),
    ensures
        positional(start, radix, digits.take(n + 1)) == positional(start, radix, digits.take(n))
            * radix + worth(digits[n]),
{
    let longer = digits.take(n + 1);
    assert(longer.drop_last() =~= digits.take(n));
    assert(longer.last() == digits[n]);
}

/// With a radix of at least one, the number read so far never shrinks as
/// more digits are read.
pub proof fn lemma_positional_grows(start: nat, radix: nat, digits: Seq<char>, n: int)
    requires
        radix >= 1,
        0 <= n <= digits.len(),
    ensures
        positional(start, radix, digits.take(n)) <= positional(start, radix, digits),
    decreases digits.len() - n,
{
    if n < digits.len() {
        lemma_positional_step(start, radix, digits, n);
        let before = positional(start, radix, digits.take(n));
        assert(before <= before * radix) by (nonlinear_arith)
            requires
                radix >= 1,
        ;
        lemma_positional_grows(start, radix, digits, n + 1);
    } else {
        assert(digits.take(n) =~= digits);
    }
}

/// As long as the number read from the first `n` digits fits in 32 bits, the
/// running total is that number, and comes to a halt where it would on the
/// digits that follow.
pub proof fn lemma_stalled_after(start: nat, radix: nat, digits: Seq<char>, n: int)
    requires
        radix >= 1,
        0 <= n <= digits.len(),
        positional(start, radix, digits.take(n)) <= u32::MAX,
    ensures
        stalled(start, radix, digits) == stalled(
            positional(start, radix, digits.take(n)),
            radix,
            digits.skip(n),
        ),
    decreases n,
{
    if n == 0 {
        assert(digits.take(0) =~= Seq::<char>::empty());
        assert(digits.skip(0) =~= digits);
    } else {
        let before = positional(start, radix, digits.take(n - 1));
        lemma_positional_step(start, radix, digits, n - 1);
        assert(before <= before * radix) by (nonlinear_arith)
            requires
                radix >= 1,
        ;
        lemma_stalled_after(start, radix, digits, n - 1);
        let rest = digits.skip(n - 1);
        assert(rest[0] == digits[n - 1]);
        assert(rest.drop_first() =~= digits.skip(n));
    }
}

/// Where the digit at place `n` takes the number out of 32 bits, the digit run
/// as a whole spells a number out of 32 bits, and the running total halts at
/// what was read before that digit, multiplied by the radix if that still fit.
pub proof fn lemma_overflow_at(start: nat, radix: nat, s: Seq<char>, n: int)
    requires
        radix >= 1,
        0 <= n < s.len(),
        forall|i: int| 0 <= i <= n ==> is_digit(#[trigger] s[i], radix),
        positional(start, radix, s.take(n)) <= u32::MAX,
        positional(start, radix, s.take(n)) * radix + worth(s[n]) > u32::MAX,
    ensures
        n < digit_run(s, radix),
        positional(start, radix, s.take(digit_run(s, radix) as int)) > u32::MAX,
        stalled(start, radix, s.take(digit_run(s, radix) as int)) == if positional(
            start,
            radix,
            s.take(n),
        ) * radix > u32::MAX {
            positional(start, radix, s.take(n))
        } else {
            positional(start, radix, s.take(n)) * radix
        },
{
    let run = digit_run(s, radix) as int;
    lemma_digit_run(s, radix);
    let digits = s.take(run);
    assert(digits.take(n) =~= s.take(n));
    assert(digits.take(n + 1) =~= s.take(n + 1));
    lemma_positional_step(start, radix, s, n);
    lemma_positional_grows(start, radix, digits, n + 1);
    lemma_stalled_after(start, radix, digits, n);
    assert(digits.skip(n)[0] == s[n]);
}

/// Whether `radix` can be the base of a number.
pub fn is_valid_radix(radix: u32) -> (valid: bool)
    ensures
        valid == valid_radix(radix as nat),
{
    2 <= radix && radix <= 36
}

/// Reads `c` as a digit of `radix`.
pub fn to_digit(c: char, radix: u32) -> (digit: Option<u32>)
    ensures
        digit is Some == is_digit(c, radix as nat),
        digit matches Some(value) ==> value == worth(c),
{
    let code: u32 = c as u32;
    let value: u32 = if '0' <= c && c <= '9' {
        code - 48
    } else if 'a' <= c && c <= 'z' {
        code - 97 + 10
    } else if 'A' <= c && c <= 'Z' {
        code - 65 + 10
    } else {
        return None;
    };
    if value < radix {
        Some(value)
    } else {
        None
    }
}

} // verus!
