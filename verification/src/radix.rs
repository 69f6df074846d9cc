//! A parser for unsigned integers written in a radix from 2 to 36.
//!
//! The parser reads digits from the front of a chunk and stops at the first
//! character that is no digit, which it hands back with all that follows. It
//! takes the end of a chunk for the end of the number: a chunk of digits alone
//! is a complete number, and only the empty chunk leaves it pending.

use crate::digits::{
    digit_run, is_digit, is_valid_radix, lemma_digit_run, lemma_digit_run_is, lemma_overflow_at,
    lemma_positional_step, positional, stalled, to_digit, valid_radix, worth,
};
use crate::laws::builds_one;
use crate::{BuildParser, Parse, Progress};
use vstd::prelude::*;
use vstd::string::StrSliceExecFns;

verus! {

/// Why an integer could not be parsed.
#[derive(Copy, Clone, PartialEq, Eq, Debug)]
pub enum ParseIntError {
    /// This character stands where a digit was expected.
    InvalidChar(char),
    /// There was no input to read a number from.
    Empty,
    /// The number does not fit in 32 bits.
    Overflow,
}

/// The error for `leftover` that a strict caller refuses. Leftover that
/// starts with a digit is taken to have been cut off because the number
/// before it could hold no more.
pub open spec fn extraneous_error(leftover: Seq<char>, radix: nat) -> ParseIntError {
    if leftover.len() == 0 {
        ParseIntError::Empty
    } else if is_digit(leftover[0], radix) {
        ParseIntError::Overflow
    } else {
        ParseIntError::InvalidChar(leftover[0])
    }
}

/// Parses an unsigned integer from a string.
pub struct ParseInt {
    /// The number read so far.
    val: u32,
    /// The radix in which the number is written.
    radix: u32,
}

impl ParseInt {
    #[verifier::type_invariant]
    spec fn well_formed(&self) -> bool {
        valid_radix(self.radix as nat)
    }

    /// The radix that this parser reads numbers in.
    pub closed spec fn radix(&self) -> nat {
        self.radix as nat
    }

    /// The running total: the number read so far.
    pub closed spec fn total(&self) -> nat {
        self.val as nat
    }
}

impl<'a> Parse<&'a str> for ParseInt {
    type Output = u32;

    type Error = ParseIntError;

    open spec fn extraneous_reports(&self, input: &'a str) -> Set<ParseIntError> {
        set![extraneous_error(input@, self.radix())]
    }

    open spec fn insufficient_reports(&self) -> Set<ParseIntError> {
        set![ParseIntError::Empty]
    }

    open spec fn may_step(
        &self,
        input: &'a str,
        after: Self,
        step: Result<Progress<(u32, &'a str)>, ParseIntError>,
    ) -> bool {
        let run = digit_run(input@, self.radix());
        let number = positional(self.total(), self.radix(), input@.take(run as int));
        &&& after.radix() == self.radix()
        &&& if input@.len() == 0 {
            &&& step == Ok::<Progress<(u32, &'a str)>, ParseIntError>(Progress::Pending)
            &&& after.total() == self.total()
        } else if run == 0 {
            &&& step == Err::<Progress<(u32, &'a str)>, ParseIntError>(
                ParseIntError::InvalidChar(input@[0]),
            )
            &&& after.total() == self.total()
        } else if number > u32::MAX {
            &&& step == Err::<Progress<(u32, &'a str)>, ParseIntError>(ParseIntError::Overflow)
            &&& after.total() == stalled(self.total(), self.radix(), input@.take(run as int))
        } else {
            &&& step matches Ok(Progress::Ready((value, rest)))
            &&& value == number
            &&& rest@ == input@.skip(run as int)
            &&& after.total() == 0
        }
    }

    fn extraneous(&self, input: &'a str) -> (error: ParseIntError) {
        proof {
            use_type_invariant(self);
        }
        let mut chars = input.chars();
        match chars.next() {
            None => ParseIntError::Empty,
            Some(c) => {
                if to_digit(c, self.radix).is_some() {
                    ParseIntError::Overflow
                } else {
                    ParseIntError::InvalidChar(c)
                }
            },
        }
    }

    fn insufficient(&self) -> (error: ParseIntError) {
        ParseIntError::Empty
    }

    fn try_parse(&mut self, input: &'a str) -> (step: Result<
        Progress<(u32, &'a str)>,
        ParseIntError,
    >) {
        proof {
            use_type_invariant(&*self);
        }
        let ghost start = self.total();
        let ghost radix = self.radix();
        let length = input.unicode_len();
        let mut chars = input.chars();
        let mut read: usize = 0;
        loop
            invariant
                valid_radix(radix),
                start == old(self).total(),
                radix == old(self).radix(),
                self.radix() == radix,
                length == input@.len(),
                read <= length,
                vstd::std_specs::iter::IteratorSpec::remaining(&chars) == input@.skip(read as int),
                forall|i: int| 0 <= i < read ==> is_digit(#[trigger] input@[i], radix),
                self.total() == positional(start, radix, input@.take(read as int)),
                read == 0 ==> self.total() == start,
            decreases length - read,
        {
            match chars.next() {
                None => {
                    proof {
                        lemma_digit_run_is(input@, radix, read as nat);
                        assert(input@.take(read as int) =~= input@);
                    }
                    if read == 0 {
                        return Ok(Progress::Pending);
                    }
                    let value = self.val;
                    self.val = 0;
                    proof {
                        reveal_strlit("");
                        assert(""@ =~= input@.skip(read as int));
                    }
                    return Ok(Progress::Ready((value, "")));
                },
                Some(c) => {
                    assert(c == input@[read as int]);
                    match to_digit(c, self.radix) {
                        None => {
                            proof {
                                lemma_digit_run_is(input@, radix, read as nat);
                            }
                            if read == 0 {
                                return Err(ParseIntError::InvalidChar(c));
                            }
                            let value = self.val;
                            self.val = 0;
                            return Ok(Progress::Ready((value, input.substring_char(read, length))));
                        },
                        Some(digit) => {
                            proof {
                                lemma_positional_step(start, radix, input@, read as int);
                                if self.total() * radix + worth(c) > u32::MAX {
                                    lemma_overflow_at(start, radix, input@, read as int);
                                }
                            }
                            match self.val.checked_mul(self.radix) {
                                None => {
                                    return Err(ParseIntError::Overflow);
                                },
                                Some(shifted) => {
                                    self.val = shifted;
                                },
                            }
                            match self.val.checked_add(digit) {
                                None => {
                                    return Err(ParseIntError::Overflow);
                                },
                                Some(sum) => {
                                    self.val = sum;
                                },
                            }
                            read = read + 1;
                        },
                    }
                },
            }
        }
    }
}

/// Builds parsers for integers written in one radix.
pub struct ParseRadix {
    radix: u32,
}

impl ParseRadix {
    #[verifier::type_invariant]
    spec fn well_formed(&self) -> bool {
        valid_radix(self.radix as nat)
    }

    /// The radix of the parsers that this builder builds.
    pub closed spec fn radix(&self) -> nat {
        self.radix as nat
    }

    /// A builder for `radix`, if that is a radix from 2 to 36.
    pub fn new(radix: u32) -> (builder: Option<ParseRadix>)
        ensures
            builder is Some == valid_radix(radix as nat),
            builder matches Some(built) ==> built.radix() == radix,
    {
        if is_valid_radix(radix) {
            Some(ParseRadix { radix })
        } else {
            None
        }
    }
}

impl<'a> BuildParser<&'a str> for ParseRadix {
    type Parser = ParseInt;

    open spec fn may_build(&self, parser: ParseInt) -> bool {
        parser.radix() == self.radix() && parser.total() == 0
    }

    fn build_parser(&self) -> (parser: ParseInt) {
        proof {
            use_type_invariant(self);
        }
        ParseInt { val: 0, radix: self.radix }
    }
}

/// What a ready step leaves over is what follows the digits it consumed. It
/// is empty if and only if the digits were the whole chunk, and else starts
/// with a character that is no digit, which is what a strict caller is told.
pub proof fn lemma_leftover_follows_digits(
    parser: ParseInt,
    input: &str,
    after: ParseInt,
    value: u32,
    rest: &str,
)
    requires
        parser.may_step(input, after, Ok(Progress::Ready((value, rest)))),
    ensures
        0 < digit_run(input@, parser.radix()) <= input@.len(),
        input@ == input@.take(digit_run(input@, parser.radix()) as int) + rest@,
        rest@.len() == 0 <==> digit_run(input@, parser.radix()) == input@.len(),
        rest@.len() > 0 ==> extraneous_error(rest@, after.radix()) == ParseIntError::InvalidChar(
            rest@[0],
        ),
{
    lemma_digit_run(input@, parser.radix());
    let run = digit_run(input@, parser.radix()) as int;
    assert(input@ =~= input@.take(run) + input@.skip(run));
}

/// A step is pending on the empty chunk and on no other, so that a pending
/// step leaves nothing unread.
pub proof fn lemma_pending_on_empty_chunk(
    parser: ParseInt,
    input: &str,
    after: ParseInt,
    step: Result<Progress<(u32, &str)>, ParseIntError>,
)
    requires
        parser.may_step(input, after, step),
    ensures
        step == Ok::<Progress<(u32, &str)>, ParseIntError>(Progress::Pending) <==> input@.len()
            == 0,
        step == Ok::<Progress<(u32, &str)>, ParseIntError>(Progress::Pending) ==> after == parser,
{
}

/// A builder builds one parser and no other: the one for its radix that has
/// read nothing yet.
pub proof fn lemma_radix_builds_one<'a>(builder: ParseRadix)
    ensures
        builds_one::<&'a str, ParseRadix>(builder),
{
}

} // verus!
