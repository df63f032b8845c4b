//! Joining buffered events into one once a predicate holds of them.
use vstd::prelude::*;

verus! {

/// A buffer of events that are merged into one when a join predicate holds.
///
/// The caller evaluates the predicate on [`JoinChannel::pending`] after each
/// [`JoinChannel::push`] and reports it to [`JoinChannel::take_if`].
pub struct JoinChannel<T> {
    buffer: Vec<T>,
    span_name: String,
}

/// The view of a [`JoinChannel`].
pub struct JoinView<T> {
    pub pending: Seq<T>,
    pub span_name: Seq<char>,
}

impl<T> View for JoinChannel<T> {
    type V = JoinView<T>;

    closed spec fn view(&self) -> JoinView<T> {
        JoinView { pending: self.buffer@, span_name: self.span_name@ }
    }
}

impl<T> JoinChannel<T> {
    /// An empty join buffer.
    pub fn new(span_name: &str) -> (r: JoinChannel<T>)
        ensures
            r@.pending == Seq::<T>::empty(),
            r@.span_name == span_name@,
    {
        JoinChannel { buffer: Vec::new(), span_name: span_name.to_string() }
    }

    /// Buffers `event`.
    pub fn push(&mut self, event: T)
        ensures
            final(self)@.pending == old(self)@.pending.push(event),
            final(self)@.span_name == old(self)@.span_name,
    {
        self.buffer.push(event);
    }

    /// The buffered events, for the join predicate.
    pub fn pending(&self) -> (r: &[T])
        ensures
            r@ == self@.pending,
    {
        self.buffer.as_slice()
    }

    /// When the join predicate held (`ready`), takes every buffered event for
    /// the merger; otherwise keeps them.
    pub fn take_if(&mut self, ready: bool) -> (r: Option<Vec<T>>)
        ensures
            final(self)@.span_name == old(self)@.span_name,
            ready ==> (r matches Some(batch) && batch@ == old(self)@.pending && final(self)@.pending
                == Seq::<T>::empty()),
            !ready ==> r is None && final(self)@.pending == old(self)@.pending,
    {
        if ready {
            let mut batch: Vec<T> = Vec::new();
            std::mem::swap(&mut batch, &mut self.buffer);
            Some(batch)
        } else {
            None
        }
    }

    /// What buffering answers once the merger has run: the merged event, or
    /// nothing when the merge failed. A failed merge is not an error of the
    /// buffering.
    pub fn merge_outcome(merged: Result<T, String>) -> (r: Result<Option<T>, String>)
        ensures
            r == Ok::<Option<T>, String>(
                match merged {
                    Ok(t) => Some(t),
                    Err(_) => None,
                },
            ),
    {
        match merged {
            Ok(t) => Ok(Some(t)),
            Err(_) => Ok(None),
        }
    }

    /// What a flush answers once the merger has run on the remaining events:
    /// the merged event, or the merger's error. Unlike buffering, a flush passes
    /// a failed merge on.
    pub fn flush_outcome(merged: Result<T, String>) -> (r: Result<Option<T>, String>)
        ensures
            r == match merged {
                Ok(t) => Ok::<Option<T>, String>(Some(t)),
                Err(e) => Err::<Option<T>, String>(e),
            },
    {
        match merged {
            Ok(t) => Ok(Some(t)),
            Err(e) => Err(e),
        }
    }

    /// The number of buffered events.
    pub fn buffer_size(&self) -> (r: usize)
        ensures
            r == self@.pending.len(),
    {
        self.buffer.len()
    }

    /// Takes every buffered event for a final merge; nothing when the buffer is
    /// empty.
    pub fn flush(&mut self) -> (r: Option<Vec<T>>)
        ensures
            final(self)@.span_name == old(self)@.span_name,
            final(self)@.pending == Seq::<T>::empty(),
            old(self)@.pending.len() == 0 ==> r is None,
            old(self)@.pending.len() > 0 ==> (r matches Some(batch) && batch@ == old(self)@.pending),
    {
        if self.buffer.len() == 0 {
            return None;
        }
        let mut batch: Vec<T> = Vec::new();
        std::mem::swap(&mut batch, &mut self.buffer);
        Some(batch)
    }
}

} // verus!
