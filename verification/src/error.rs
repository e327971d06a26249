use vstd::prelude::*;

verus! {

/// The single error type that every operation of this library returns.
#[derive(Debug, PartialEq, Eq)]
pub enum CollectError<E> {
    /// The transport reported a failure; the transport's own error is kept.
    ProviderError(E),
    /// The source of concurrency permits is closed: the fetcher can no
    /// longer be used, and the call was never handed to the transport.
    GateClosed,
}

/// Wraps an outcome of the transport in the library's error type.
pub fn map_err<T, E>(res: Result<T, E>) -> (r: Result<T, CollectError<E>>)
    ensures
        r == wrap_outcome(res),
{
    match res {
        Ok(v) => Ok(v),
        Err(e) => Err(CollectError::ProviderError(e)),
    }
}

/// What a transport outcome becomes once its error is wrapped.
pub open spec fn wrap_outcome<T, E>(res: Result<T, E>) -> Result<T, CollectError<E>> {
    match res {
        Ok(v) => Ok(v),
        Err(e) => Err(CollectError::ProviderError(e)),
    }
}

} // verus!
