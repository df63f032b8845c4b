//! Sending the parts of a split event on, one by one, until one fails.
use vstd::prelude::*;

verus! {

/// What a splitter does next: send a part to the next channel, or finish with
/// the result of the whole split.
#[derive(Debug)]
pub enum SplitStep<T> {
    Send(T),
    Finish(Result<(), String>),
}

/// The delivery of the parts of one split event. The parts go to the next
/// channel in order; the first failure ends the delivery with that error, and
/// the delivery succeeds once every part was sent.
pub struct SplitDelivery<T> {
    rest: Vec<T>,
    done: bool,
}

/// The view of a [`SplitDelivery`]: the parts not yet sent, and whether the
/// delivery has finished.
pub struct SplitView<T> {
    pub rest: Seq<T>,
    pub done: bool,
}

impl<T> View for SplitDelivery<T> {
    type V = SplitView<T>;

    closed spec fn view(&self) -> SplitView<T> {
        SplitView { rest: self.rest@, done: self.done }
    }
}

/// The step that follows when `parts` remain to be sent: the first of them, or
/// success when there are none.
pub open spec fn next_step<T>(parts: Seq<T>, step: SplitStep<T>, after: SplitView<T>) -> bool {
    if parts.len() == 0 {
        &&& step matches SplitStep::Finish(Ok(()))
        &&& after.done
    } else {
        &&& step == SplitStep::Send(parts[0])
        &&& after.rest == parts.drop_first()
        &&& !after.done
    }
}

impl<T> SplitDelivery<T> {
    /// Starts delivering the result of the splitter: a failed split finishes
    /// at once with its error; otherwise the first part is sent.
    pub fn start(split: Result<Vec<T>, String>) -> (r: (SplitDelivery<T>, SplitStep<T>))
        ensures
            match split {
                Ok(parts) => next_step(parts@, r.1, r.0@),
                Err(e) => r.1 == SplitStep::<T>::Finish(Err(e)) && r.0@.done,
            },
    {
        match split {
            Ok(parts) => {
                let mut d = SplitDelivery { rest: parts, done: false };
                let step = d.advance();
                (d, step)
            },
            Err(e) => (SplitDelivery { rest: Vec::new(), done: true }, SplitStep::Finish(Err(e))),
        }
    }

    /// The next step once the next channel answered the part last sent: its
    /// error ends the delivery; otherwise the next part is sent, or the delivery
    /// succeeds when none remains.
    pub fn resume(&mut self, sent: Result<(), String>) -> (step: SplitStep<T>)
        requires
            !old(self)@.done,
        ensures
            match sent {
                Ok(()) => next_step(old(self)@.rest, step, final(self)@),
                Err(e) => step == SplitStep::<T>::Finish(Err(e)) && final(self)@.done,
            },
    {
        match sent {
            Ok(()) => self.advance(),
            Err(e) => {
                self.done = true;
                SplitStep::Finish(Err(e))
            },
        }
    }

    /// The delivery has finished.
    pub fn is_done(&self) -> (r: bool)
        ensures
            r == self@.done,
    {
        self.done
    }

    fn advance(&mut self) -> (step: SplitStep<T>)
        ensures
            next_step(old(self)@.rest, step, final(self)@),
    {
        if self.rest.len() == 0 {
            self.done = true;
            SplitStep::Finish(Ok(()))
        } else {
            let first = self.rest.remove(0);
            self.done = false;
            assert(self.rest@ =~= old(self)@.rest.drop_first());
            SplitStep::Send(first)
        }
    }
}

} // verus!
