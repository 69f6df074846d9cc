//! What the derived operations make of one step of a parser.
//!
//! A derived operation drives the parser once and then only decides: it maps
//! the step it was handed, the answer of the emptiness test on what was left
//! over, and the errors that the two hooks may report, to its own result. The
//! predicates here state those decisions over plain values, so that they can
//! be read, and reasoned about, apart from any particular parser.

use crate::Progress;
use vstd::prelude::*;

verus! {

/// Whether `input == Input::default()` may evaluate to `answer`.
///
/// The canonical empty input is whatever `Default` produces, and "equal" is
/// whatever `PartialEq` answers; neither has a meaning of its own to the
/// verifier, so emptiness is stated as a possible outcome of those two calls.
pub open spec fn compares_empty<Input: Default + PartialEq>(input: Input, answer: bool) -> bool {
    exists|empty: Input|
        call_ensures(Input::default, (), empty) && #[trigger] call_ensures(
            <Input as PartialEq>::eq,
            (&input, &empty),
            answer,
        )
}

/// Compares `input` with the canonical empty input.
pub fn is_exhausted<Input: Default + PartialEq>(input: &Input) -> (answer: bool)
    ensures
        compares_empty(*input, answer),
{
    let empty = Input::default();
    *input == empty
}

/// The input that a ready step left unconsumed; a step that is not ready
/// leaves none.
pub open spec fn leftover<O, I, E>(step: Result<Progress<(O, I)>, E>) -> Option<I> {
    match step {
        Ok(Progress::Ready((_, rest))) => Some(rest),
        _ => None,
    }
}

/// The leftover of a ready step, for use where `step` is known to be ready.
pub open spec fn rest_of<O, I, E>(step: Result<Progress<(O, I)>, E>) -> I {
    leftover(step)->Some_0
}

/// Whether `exhausted` may be the answer of the emptiness test on the leftover
/// of `step`. A step without leftover is never tested, and admits any answer.
pub open spec fn leftover_compares<O, I: Default + PartialEq, E>(
    step: Result<Progress<(O, I)>, E>,
    exhausted: bool,
) -> bool {
    leftover(step) matches Some(rest) ==> compares_empty(rest, exhausted)
}

/// Rejecting insufficient input: a pending `step` becomes one of the errors in
/// `insufficient`; a ready step and an error pass through as they are.
pub open spec fn parse_outcome<O, I, E>(
    step: Result<Progress<(O, I)>, E>,
    insufficient: Set<E>,
    result: Result<(O, I), E>,
) -> bool {
    match step {
        Err(error) => result == Err::<(O, I), E>(error),
        Ok(Progress::Pending) => result is Err && insufficient.contains(result->Err_0),
        Ok(Progress::Ready(value)) => result == Ok::<(O, I), E>(value),
    }
}

/// The input that came back with what `parse` returned; an error brings none.
pub open spec fn parsed_leftover<O, I, E>(parsed: Result<(O, I), E>) -> Option<I> {
    match parsed {
        Ok((_, rest)) => Some(rest),
        Err(_) => None,
    }
}

/// Rejecting extraneous input: what was parsed stands if its leftover is
/// `exhausted`, else it becomes one of the errors in `extraneous`; an error
/// passes through as it is.
pub open spec fn refuse_extraneous<O, I, E>(
    parsed: Result<(O, I), E>,
    exhausted: bool,
    extraneous: Set<E>,
    result: Result<O, E>,
) -> bool {
    match parsed {
        Err(error) => result == Err::<O, E>(error),
        Ok((output, _)) => if exhausted {
            result == Ok::<O, E>(output)
        } else {
            result is Err && extraneous.contains(result->Err_0)
        },
    }
}

/// Rejecting extraneous input while still allowing a pending `step`.
pub open spec fn try_parse_only_outcome<O, I, E>(
    step: Result<Progress<(O, I)>, E>,
    exhausted: bool,
    extraneous: Set<E>,
    result: Result<Progress<O>, E>,
) -> bool {
    match step {
        Err(error) => result == Err::<Progress<O>, E>(error),
        Ok(Progress::Pending) => result == Ok::<Progress<O>, E>(Progress::Pending),
        Ok(Progress::Ready((output, _))) => if exhausted {
            result == Ok::<Progress<O>, E>(Progress::Ready(output))
        } else {
            result is Err && extraneous.contains(result->Err_0)
        },
    }
}

/// Rejecting both insufficient and extraneous input.
pub open spec fn parse_only_outcome<O, I, E>(
    step: Result<Progress<(O, I)>, E>,
    exhausted: bool,
    insufficient: Set<E>,
    extraneous: Set<E>,
    result: Result<O, E>,
) -> bool {
    match step {
        Err(error) => result == Err::<O, E>(error),
        Ok(Progress::Pending) => result is Err && insufficient.contains(result->Err_0),
        Ok(Progress::Ready((output, _))) => if exhausted {
            result == Ok::<O, E>(output)
        } else {
            result is Err && extraneous.contains(result->Err_0)
        },
    }
}

} // verus!
