//! What a channel does with the result of its transformation.
use vstd::prelude::*;

verus! {

/// Send a value on to the next channel, or stop the chain with an error.
#[derive(Debug)]
pub enum Next<T> {
    Forward(T),
    Stop(String),
}

/// After a transformation (or a collection strategy): its value is sent on; its
/// error stops the chain, and the next channel is not called.
pub fn forward_result<T>(result: Result<T, String>) -> (r: Next<T>)
    ensures
        match result {
            Ok(t) => r == Next::<T>::Forward(t),
            Err(e) => r == Next::<T>::Stop(e),
        },
{
    match result {
        Ok(t) => Next::Forward(t),
        Err(e) => Next::Stop(e),
    }
}

} // verus!
