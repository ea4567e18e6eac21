//! What comes of work that may be cancelled.
use vstd::prelude::*;

verus! {

/// Why work did not succeed.
pub enum Interrupted<E> {
    /// It failed.
    Failed(E),
    /// It was cancelled first.
    Cancelled,
}

/// The result of work that may have been cancelled, which leaves none.
pub fn uncancelled<T, E>(result: Option<Result<T, E>>) -> (r: Result<T, Interrupted<E>>)
    ensures
        r == (match result {
            Some(Ok(value)) => Ok::<T, Interrupted<E>>(value),
            Some(Err(e)) => Err(Interrupted::Failed(e)),
            None => Err(Interrupted::Cancelled),
        }),
{
    match result {
        Some(Ok(value)) => Ok(value),
        Some(Err(e)) => Err(Interrupted::Failed(e)),
        None => Err(Interrupted::Cancelled),
    }
}

} // verus!
