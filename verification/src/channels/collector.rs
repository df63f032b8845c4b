//! Collecting events until a flush reduces them to one.
use vstd::prelude::*;

use crate::channels::transform::{forward_result, Next};

verus! {

/// A buffer of collected events; a flush hands them all to a collection
/// strategy.
pub struct CollectorChannel<T> {
    buffer: Vec<T>,
    span_name: String,
}

/// The view of a [`CollectorChannel`].
pub struct CollectorView<T> {
    pub pending: Seq<T>,
    pub span_name: Seq<char>,
}

impl<T> View for CollectorChannel<T> {
    type V = CollectorView<T>;

    closed spec fn view(&self) -> CollectorView<T> {
        CollectorView { pending: self.buffer@, span_name: self.span_name@ }
    }
}

/// The message of the error of [`take_first`] on no events.
pub open spec fn no_events_message() -> Seq<char> {
    "No events to collect"@
}

/// The collection strategy that keeps the first event: the first of `events`,
/// or an error when there is none.
pub fn take_first<T>(events: Vec<T>) -> (r: Result<T, String>)
    ensures
        events@.len() == 0 ==> (r matches Err(m) && m@ == no_events_message()),
        events@.len() > 0 ==> r == Ok::<T, String>(events@[0]),
{
    let mut events = events;
    if events.len() == 0 {
        Err("No events to collect".to_string())
    } else {
        Ok(events.remove(0))
    }
}

impl<T> CollectorChannel<T> {
    /// An empty collector.
    pub fn new(span_name: &str) -> (r: CollectorChannel<T>)
        ensures
            r@.pending == Seq::<T>::empty(),
            r@.span_name == span_name@,
    {
        CollectorChannel { buffer: Vec::new(), span_name: span_name.to_string() }
    }

    /// Buffers `event`.
    pub fn collect(&mut self, event: T)
        ensures
            final(self)@.pending == old(self)@.pending.push(event),
            final(self)@.span_name == old(self)@.span_name,
    {
        self.buffer.push(event);
    }

    /// Takes every collected event for the strategy; nothing when there is none.
    pub fn flush(&mut self) -> (r: Option<Vec<T>>)
        ensures
            final(self)@.span_name == old(self)@.span_name,
            final(self)@.pending == Seq::<T>::empty(),
            old(self)@.pending.len() == 0 ==> r is None,
            old(self)@.pending.len() > 0 ==> (r matches Some(batch) && batch@ == old(self)@.pending),
    {
        if self.buffer.len() == 0 {
            return None;
        }
        let mut batch: Vec<T> = Vec::new();
        std::mem::swap(&mut batch, &mut self.buffer);
        Some(batch)
    }

    /// After the strategy reduced a flushed batch: the collected event is sent
    /// on once; the strategy's error is returned and nothing is sent on.
    pub fn after_strategy(collected: Result<T, String>) -> (r: Next<T>)
        ensures
            match collected {
                Ok(c) => r == Next::<T>::Forward(c),
                Err(e) => r == Next::<T>::Stop(e),
            },
    {
        forward_result(collected)
    }

    /// The number of collected events.
    pub fn buffer_size(&self) -> (r: usize)
        ensures
            r == self@.pending.len(),
    {
        self.buffer.len()
    }
}

} // verus!
