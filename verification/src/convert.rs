//! Small conversion helpers.

use vstd::prelude::*;

verus! {

/// The error for an absent optional value.
#[derive(Debug, PartialEq, Eq, Structural)]
pub struct OptionalNoneError;

impl OptionalNoneError {
    pub fn new() -> (r: Self)
        ensures
            r == OptionalNoneError,
    {
        OptionalNoneError
    }
}

/// Why a `Result<Option<T>, E>` did not carry a value: either the inner
/// computation failed or the optional value was absent.
pub enum FlattenError<E> {
    Inner(E),
    Absent(OptionalNoneError),
}

/// Collapse a `Result<Option<T>, E>` to a single `Result`: a present
/// value stays `Ok`, an absent one becomes its own error, an inner error
/// is passed through.
pub fn flatten_result_option<T, E>(value: Result<Option<T>, E>) -> (r: Result<
    T,
    FlattenError<E>,
>)
    ensures
        match value {
            Ok(Some(v)) => r == Result::<T, FlattenError<E>>::Ok(v),
            Ok(None) => r == Result::<T, FlattenError<E>>::Err(
                FlattenError::Absent(OptionalNoneError),
            ),
            Err(e) => r == Result::<T, FlattenError<E>>::Err(FlattenError::Inner(e)),
        },
{
    match value {
        Ok(Some(v)) => Ok(v),
        Ok(None) => Err(FlattenError::Absent(OptionalNoneError::new())),
        Err(e) => Err(FlattenError::Inner(e)),
    }
}

} // verus!
