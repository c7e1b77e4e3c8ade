//! What every caller of a shared run gets.

use vstd::prelude::*;
use std::sync::Arc;

verus! {

/// Why a shared run failed. Every caller of the flight gets the same error.
#[derive(Debug)]
pub enum FlightError<E> {
    /// The work returned this error.
    Failed(Arc<E>),
    /// The work panicked.
    Panicked,
}

impl<E> Clone for FlightError<E> {
    fn clone(&self) -> (copy: Self)
        ensures
            copy == *self,
    {
        match self {
            FlightError::Failed(error) => FlightError::Failed(Arc::clone(error)),
            FlightError::Panicked => FlightError::Panicked,
        }
    }
}

/// The result a flight shares, from what its task ended with: its value,
/// its error, or `None` when it panicked.
pub fn flight_result<T, E>(ended: Option<Result<T, E>>) -> (result: Result<T, FlightError<E>>)
    ensures
        match ended {
            Some(Ok(value)) => result == Ok::<T, FlightError<E>>(value),
            Some(Err(error)) => result matches Err(FlightError::Failed(shared)) && *shared == error,
            None => result matches Err(FlightError::Panicked),
        },
{
    match ended {
        Some(Ok(value)) => Ok(value),
        Some(Err(error)) => Err(FlightError::Failed(Arc::new(error))),
        None => Err(FlightError::Panicked),
    }
}

} // verus!
