//! A protocol for incremental, resumable parsers.
//!
//! A [`Parse`] implementation consumes its input chunk by chunk. One step
//! either needs more input (*pending*), produces an output together with the
//! input it chose not to consume (*ready*), or fails. From that one step and
//! two hooks that name the errors for "not enough input" and "too much input",
//! the trait derives three stricter entry points. A [`BuildParser`] produces
//! parsers in their clean state and offers the one-shot forms.
//!
//! Each implementation describes itself to the verifier by a model: which
//! steps it may take, which errors its hooks may report, which parsers a
//! builder may build. The model functions default to "anything", so an
//! implementation that states nothing promises nothing; the contracts of the
//! derived operations hold relative to whatever the model says.

use vstd::prelude::*;

pub mod digits;
pub mod laws;
pub mod outcome;
pub mod radix;

use crate::outcome::{
    compares_empty, is_exhausted, leftover_compares, parse_only_outcome, parse_outcome, rest_of,
    try_parse_only_outcome,
};

verus! {

/// How far a step got.
#[derive(Copy, Clone, PartialEq, Eq, Debug)]
pub enum Progress<T> {
    /// More input is needed before there is anything to return.
    Pending,
    /// The step produced a value.
    Ready(T),
}

/// Something that can parse an `Input` into an `Output`, one chunk at a time.
///
/// A parser need not consume all the input of a step: it may cut off early and
/// hand the rest back next to its output, so that another parser can go on
/// from there. When it consumed everything, what it hands back equals
/// `Input::default()`.
pub trait Parse<Input: Default + PartialEq>: Sized {
    /// Output of the parser.
    type Output;

    /// Error that can occur when parsing.
    type Error;

    /// The errors that [`extraneous`](Parse::extraneous) may report for
    /// `input` in this state.
    open spec fn extraneous_reports(&self, input: Input) -> Set<Self::Error> {
        Set::full()
    }

    /// The errors that [`insufficient`](Parse::insufficient) may report in
    /// this state.
    open spec fn insufficient_reports(&self) -> Set<Self::Error> {
        Set::full()
    }

    /// Whether a step on `input` taken in this state may return `step` and
    /// leave the parser in state `after`.
    open spec fn may_step(
        &self,
        input: Input,
        after: Self,
        step: Result<Progress<(Self::Output, Input)>, Self::Error>,
    ) -> bool {
        true
    }

    /// Returns the error for input that a strict caller refuses to accept.
    ///
    /// Only meant for input that is left over, that is, input that did not
    /// compare equal to the empty one.
    fn extraneous(&self, input: Input) -> (error: Self::Error)
        requires
            compares_empty(input, false),
        ensures
            self.extraneous_reports(input).contains(error),
    ;

    /// Returns the error for a parse that ended while more input was needed.
    ///
    /// The parser may look at its state to say what it expected next.
    fn insufficient(&self) -> (error: Self::Error)
        ensures
            self.insufficient_reports().contains(error),
    ;

    /// Takes one step: tries to parse a value, allowing insufficient or
    /// extraneous input.
    ///
    /// A parser that has consumed all of `input` and cannot tell its output
    /// yet returns pending, not an error. A parser may stop before the end of
    /// `input`, and then returns what it did not consume next to its output.
    /// Chunks are fed in the order of the stream. After an error the state is
    /// whatever the implementation leaves, and the parser is best discarded.
    fn try_parse(&mut self, input: Input) -> (step: Result<
        Progress<(Self::Output, Input)>,
        Self::Error,
    >)
        ensures
            old(self).may_step(input, *final(self), step),
    ;

    /// Parses a value, rejecting insufficient but allowing extraneous input.
    ///
    /// Takes one step; a pending step becomes the error of
    /// [`insufficient`](Parse::insufficient), anything else is returned as it
    /// is.
    fn parse(&mut self, input: Input) -> (result: Result<(Self::Output, Input), Self::Error>)
        ensures
            exists|step: Result<Progress<(Self::Output, Input)>, Self::Error>|
                {
                    &&& #[trigger] old(self).may_step(input, *final(self), step)
                    &&& parse_outcome(step, final(self).insufficient_reports(), result)
                },
    {
        match self.try_parse(input) {
            Err(error) => Err(error),
            Ok(Progress::Pending) => Err(self.insufficient()),
            Ok(Progress::Ready(value)) => Ok(value),
        }
    }

    /// Tries to parse a value, allowing insufficient but rejecting extraneous
    /// input.
    ///
    /// Takes one step; a ready step whose leftover is not empty becomes the
    /// error of [`extraneous`](Parse::extraneous) for that leftover.
    fn try_parse_only(&mut self, input: Input) -> (result: Result<
        Progress<Self::Output>,
        Self::Error,
    >)
        ensures
            exists|step: Result<Progress<(Self::Output, Input)>, Self::Error>, exhausted: bool|
                {
                    &&& #[trigger] old(self).may_step(input, *final(self), step)
                    &&& #[trigger] leftover_compares(step, exhausted)
                    &&& try_parse_only_outcome(
                        step,
                        exhausted,
                        final(self).extraneous_reports(rest_of(step)),
                        result,
                    )
                },
    {
        let step = self.try_parse(input);
        let ghost taken = step;
        match step {
            Err(error) => {
                assert(leftover_compares(taken, true));
                Err(error)
            },
            Ok(Progress::Pending) => {
                assert(leftover_compares(taken, true));
                Ok(Progress::Pending)
            },
            Ok(Progress::Ready((output, input))) => {
                let exhausted = is_exhausted(&input);
                assert(leftover_compares(taken, exhausted));
                if exhausted {
                    Ok(Progress::Ready(output))
                } else {
                    Err(self.extraneous(input))
                }
            },
        }
    }

    /// Parses a value, rejecting insufficient or extraneous input.
    ///
    /// Takes one step; a pending step becomes the error of
    /// [`insufficient`](Parse::insufficient), and a ready step whose leftover
    /// is not empty the error of [`extraneous`](Parse::extraneous) for that
    /// leftover.
    fn parse_only(&mut self, input: Input) -> (result: Result<Self::Output, Self::Error>)
        ensures
            exists|step: Result<Progress<(Self::Output, Input)>, Self::Error>, exhausted: bool|
                {
                    &&& #[trigger] old(self).may_step(input, *final(self), step)
                    &&& #[trigger] leftover_compares(step, exhausted)
                    &&& parse_only_outcome(
                        step,
                        exhausted,
                        final(self).insufficient_reports(),
                        final(self).extraneous_reports(rest_of(step)),
                        result,
                    )
                },
    {
        let step = self.try_parse(input);
        let ghost taken = step;
        match step {
            Err(error) => {
                assert(leftover_compares(taken, true));
                Err(error)
            },
            Ok(Progress::Pending) => {
                assert(leftover_compares(taken, true));
                Err(self.insufficient())
            },
            Ok(Progress::Ready((output, input))) => {
                let exhausted = is_exhausted(&input);
                assert(leftover_compares(taken, exhausted));
                if exhausted {
                    Ok(output)
                } else {
                    Err(self.extraneous(input))
                }
            },
        }
    }
}

/// Builds parsers.
///
/// A parser holds intermediate state while it parses; a builder holds what
/// stays the same from one parse to the next, and hands out parsers that have
/// not yet seen any input.
pub trait BuildParser<Input: Default + PartialEq> {
    /// Parser for the value.
    type Parser: Parse<Input>;

    /// Whether `parser` is a parser that [`build_parser`](BuildParser::build_parser)
    /// may return.
    open spec fn may_build(&self, parser: Self::Parser) -> bool {
        true
    }

    /// Creates a new parser, in its clean state.
    fn build_parser(&self) -> (parser: Self::Parser)
        ensures
            self.may_build(parser),
    ;

    /// Parses a single value with a new parser, failing on insufficient input.
    fn parse_one(&self, input: Input) -> (result: Result<
        (<Self::Parser as Parse<Input>>::Output, Input),
        <Self::Parser as Parse<Input>>::Error,
    >)
        ensures
            exists|
                parser: Self::Parser,
                after: Self::Parser,
                step: Result<
                    Progress<(<Self::Parser as Parse<Input>>::Output, Input)>,
                    <Self::Parser as Parse<Input>>::Error,
                >,
            |
                {
                    &&& #[trigger] self.may_build(parser)
                    &&& #[trigger] parser.may_step(input, after, step)
                    &&& parse_outcome(step, after.insufficient_reports(), result)
                },
    {
        let mut parser = self.build_parser();
        parser.parse(input)
    }

    /// Parses a single value with a new parser, failing on insufficient or
    /// extraneous input.
    fn parse_one_only(&self, input: Input) -> (result: Result<
        <Self::Parser as Parse<Input>>::Output,
        <Self::Parser as Parse<Input>>::Error,
    >)
        ensures
            exists|
                parser: Self::Parser,
                after: Self::Parser,
                step: Result<
                    Progress<(<Self::Parser as Parse<Input>>::Output, Input)>,
                    <Self::Parser as Parse<Input>>::Error,
                >,
                exhausted: bool,
            |
                {
                    &&& #[trigger] self.may_build(parser)
                    &&& #[trigger] parser.may_step(input, after, step)
                    &&& #[trigger] leftover_compares(step, exhausted)
                    &&& parse_only_outcome(
                        step,
                        exhausted,
                        after.insufficient_reports(),
                        after.extraneous_reports(rest_of(step)),
                        result,
                    )
                },
    {
        let mut parser = self.build_parser();
        parser.parse_only(input)
    }
}

} // verus!
