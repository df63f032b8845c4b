//! The decision of a filter channel.
use vstd::prelude::*;

verus! {

/// What a filter does with an event: send it on, or reject it (the event goes
/// to the rejection handler, and the chain stops with the error).
#[derive(Debug)]
pub enum FilterStep<T> {
    Forward(T),
    Reject(T, String),
}

/// The error with which a rejected event stops the chain.
pub open spec fn rejection_message() -> Seq<char> {
    "Event rejected by filter"@
}

/// The filter's step for `event`, given whether its predicate accepted it.
pub fn filter_step<T>(event: T, accepted: bool) -> (r: FilterStep<T>)
    ensures
        accepted ==> r == FilterStep::<T>::Forward(event),
        !accepted ==> (r matches FilterStep::Reject(e, m) && e == event && m@
            == rejection_message()),
{
    if accepted {
        FilterStep::Forward(event)
    } else {
        FilterStep::Reject(event, "Event rejected by filter".to_string())
    }
}

} // verus!
