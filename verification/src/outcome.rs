//! Outcomes of steps that may be left out and may fail.

use vstd::prelude::*;

verus! {

/// What a step has brought, if it was taken and has succeeded: a step that
/// was left out and a step that has failed both bring nothing.
pub fn flatten<T, E>(outcome: Option<Result<T, E>>) -> (value: Option<T>)
    ensures
        value == match outcome {
            Some(Ok(brought)) => Some(brought),
            _ => None,
        },
{
    match outcome {
        Some(Ok(brought)) => Some(brought),
        _ => None,
    }
}

} // verus!
