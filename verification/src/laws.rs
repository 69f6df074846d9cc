//! Laws that hold of every parser and every builder.

use crate::outcome::{
    leftover, parse_only_outcome, parse_outcome, parsed_leftover, refuse_extraneous,
    try_parse_only_outcome,
};
use crate::{BuildParser, Parse, Progress};
use vstd::prelude::*;

verus! {

/// Strictness composes: `parse_only` returns what `parse` returns, followed by
/// the refusal of what is left over. The leftover that is tested and refused
/// is the one that the step left, which `parse` hands on untouched.
pub proof fn lemma_parse_only_is_parse_then_refusal<O, I, E>(
    step: Result<Progress<(O, I)>, E>,
    exhausted: bool,
    insufficient: Set<E>,
    extraneous: Set<E>,
    result: Result<O, E>,
)
    ensures
        parse_only_outcome(step, exhausted, insufficient, extraneous, result) <==> exists|
            parsed: Result<(O, I), E>,
        |
            {
                &&& #[trigger] parse_outcome(step, insufficient, parsed)
                &&& refuse_extraneous(parsed, exhausted, extraneous, result)
            },
        forall|parsed: Result<(O, I), E>| #[trigger]
            parse_outcome(step, insufficient, parsed) ==> parsed_leftover(parsed) == leftover(
                step,
            ),
{
    if parse_only_outcome(step, exhausted, insufficient, extraneous, result) {
        let parsed: Result<(O, I), E> = match step {
            Err(error) => Err(error),
            Ok(Progress::Pending) => Err(result->Err_0),
            Ok(Progress::Ready(value)) => Ok(value),
        };
        assert(parse_outcome(step, insufficient, parsed));
        assert(refuse_extraneous(parsed, exhausted, extraneous, result));
    }
}

/// Nothing comes with a pending step: it has no leftover, is never tested for
/// emptiness, and `try_parse_only` passes it on as it is, whatever else it
/// was told.
pub proof fn lemma_pending_carries_nothing<O, I, E>(
    exhausted: bool,
    extraneous: Set<E>,
    result: Result<Progress<O>, E>,
)
    ensures
        leftover(Ok::<Progress<(O, I)>, E>(Progress::Pending)) is None,
        try_parse_only_outcome(
            Ok::<Progress<(O, I)>, E>(Progress::Pending),
            exhausted,
            extraneous,
            result,
        ) <==> result == Ok::<Progress<O>, E>(Progress::Pending),
{
}

/// Whether `builder` builds one parser and no other.
pub open spec fn builds_one<Input: Default + PartialEq, B: BuildParser<Input>>(builder: B) -> bool {
    forall|first: B::Parser, second: B::Parser|
        builder.may_build(first) && builder.may_build(second) ==> first == second
}

/// Whether `parser`, fed `chunks` one after the other, may return `steps` in
/// that order and be left in state `last`.
pub open spec fn may_run<Input: Default + PartialEq, P: Parse<Input>>(
    parser: P,
    chunks: Seq<Input>,
    steps: Seq<Result<Progress<(P::Output, Input)>, P::Error>>,
    last: P,
) -> bool
    decreases chunks.len(),
{
    if chunks.len() == 0 {
        steps.len() == 0 && last == parser
    } else {
        &&& steps.len() == chunks.len()
        &&& exists|next: P|
            {
                &&& #[trigger] parser.may_step(chunks[0], next, steps[0])
                &&& may_run(next, chunks.drop_first(), steps.drop_first(), last)
            }
    }
}

/// Builders build independent parsers: two parsers that come from a builder
/// which builds one parser and no other are the same parser, and so answer
/// every sequence of chunks alike. A parser is a value of its own, which no
/// step of another parser changes, so this holds however the steps of the two
/// are interleaved.
pub proof fn lemma_built_parsers_agree<Input: Default + PartialEq, B: BuildParser<Input>>(
    builder: B,
    first: B::Parser,
    second: B::Parser,
    chunks: Seq<Input>,
    steps: Seq<
        Result<
            Progress<(<B::Parser as Parse<Input>>::Output, Input)>,
            <B::Parser as Parse<Input>>::Error,
        >,
    >,
    last: B::Parser,
)
    requires
        builds_one(builder),
        builder.may_build(first),
        builder.may_build(second),
    ensures
        first == second,
        may_run(first, chunks, steps, last) == may_run(second, chunks, steps, last),
{
}

} // verus!
