//! Buffering with size- and age-based flushing.
use std::time::Instant;
use vstd::prelude::*;

verus! {

/// The monotonic clock reading of `std::time::Instant`.
#[verifier::external_type_specification]
#[verifier::external_body]
pub struct ExInstant(Instant);

/// Reads the monotonic clock (`std::time::Instant::now`). Nothing is stated of
/// the reading.
#[verifier::external_body]
fn instant_now() -> (t: Instant) {
    Instant::now()
}

/// The time from `earlier` to `later`, in whole nanoseconds; zero when `later`
/// is not after `earlier`.
pub uninterp spec fn nanos_between(earlier: Instant, later: Instant) -> u128;

/// The time from `earlier` to `later` (`Instant::saturating_duration_since`,
/// read with `Duration::as_nanos`). It depends on the two
/// readings alone; its value is named by `nanos_between`.
#[verifier::external_body]
fn elapsed_between(earlier: &Instant, later: &Instant) -> (ns: u128)
    ensures
        ns == nanos_between(*earlier, *later),
{
    later.saturating_duration_since(*earlier).as_nanos()
}

/// When a buffer is flushed: at `max_size` events, or once `max_age_nanos`
/// nanoseconds have passed since the last flush.
#[derive(Debug, Clone, Copy, PartialEq, Eq)]
pub struct BufferConfig {
    /// Maximum batch size before flushing.
    pub max_size: usize,
    /// Maximum time to wait before flushing, in nanoseconds.
    pub max_age_nanos: u128,
}

impl Default for BufferConfig {
    /// 100 events or 5 seconds.
    fn default() -> (r: BufferConfig)
        ensures
            r.max_size == 100,
            r.max_age_nanos == 5_000_000_000,
    {
        BufferConfig { max_size: 100, max_age_nanos: 5_000_000_000 }
    }
}

/// A buffer of events that is flushed when it is full or old enough.
pub struct BufferChannel<T> {
    config: BufferConfig,
    buffer: Vec<T>,
    last_flush: Instant,
    span_name: String,
}

/// The view of a [`BufferChannel`].
pub struct BufferView<T> {
    pub config: BufferConfig,
    pub pending: Seq<T>,
    /// The clock reading at the last flush (or at creation).
    pub last_flush: Instant,
    pub span_name: Seq<char>,
}

impl<T> View for BufferChannel<T> {
    type V = BufferView<T>;

    closed spec fn view(&self) -> BufferView<T> {
        BufferView {
            config: self.config,
            pending: self.buffer@,
            last_flush: self.last_flush,
            span_name: self.span_name@,
        }
    }
}

/// A flush is due when the buffer holds `max_size` events or more, or when
/// `max_age_nanos` have passed from the last flush to `now`.
pub open spec fn flush_due<T>(b: BufferView<T>, pending: Seq<T>, now: Instant) -> bool {
    pending.len() >= b.config.max_size || nanos_between(b.last_flush, now) >= b.config.max_age_nanos
}

impl<T> BufferChannel<T> {
    /// An empty buffer; its age is counted from the clock's reading now.
    pub fn new(span_name: &str, config: BufferConfig) -> (r: BufferChannel<T>)
        ensures
            r@.config == config,
            r@.pending == Seq::<T>::empty(),
            r@.span_name == span_name@,
    {
        BufferChannel {
            config,
            buffer: Vec::new(),
            last_flush: instant_now(),
            span_name: span_name.to_string(),
        }
    }

    /// Adds `event` at the clock reading `now`, and returns the batch to hand on
    /// when a flush is due (see [`flush_due`]). A flush empties the buffer and
    /// records `now` as the time of the last flush; otherwise that time stays.
    pub fn buffer_at(&mut self, event: T, now: Instant) -> (r: Option<Vec<T>>)
        ensures
            final(self)@.config == old(self)@.config,
            final(self)@.span_name == old(self)@.span_name,
            ({
                let pending = old(self)@.pending.push(event);
                if flush_due(old(self)@, pending, now) {
                    &&& r matches Some(batch) && batch@ == pending
                    &&& final(self)@.pending == Seq::<T>::empty()
                    &&& final(self)@.last_flush == now
                } else {
                    &&& r is None
                    &&& final(self)@.pending == pending
                    &&& final(self)@.last_flush == old(self)@.last_flush
                }
            }),
    {
        self.buffer.push(event);
        let due = if self.buffer.len() >= self.config.max_size {
            true
        } else {
            elapsed_between(&self.last_flush, &now) >= self.config.max_age_nanos
        };
        if due {
            Some(self.take_batch(now))
        } else {
            None
        }
    }

    /// Adds `event` and returns the batch to hand on when a flush is due: when
    /// the buffer then holds `max_size` events or more, or when the time since
    /// the last flush has reached `max_age_nanos`, by the clock's reading now.
    /// It behaves as [`BufferChannel::buffer_at`] at that reading: it flushes
    /// exactly when a flush is due then, and records the reading at a flush.
    pub fn buffer(&mut self, event: T) -> (r: Option<Vec<T>>)
        ensures
            final(self)@.config == old(self)@.config,
            final(self)@.span_name == old(self)@.span_name,
            ({
                let pending = old(self)@.pending.push(event);
                &&& old(self)@.pending.len() + 1 >= old(self)@.config.max_size ==> r is Some
                &&& r matches Some(batch) ==> batch@ == pending && final(self)@.pending
                    == Seq::<T>::empty() && flush_due(old(self)@, pending, final(self)@.last_flush)
                &&& r is None ==> final(self)@.pending == pending && final(self)@.last_flush
                    == old(self)@.last_flush
                &&& exists|now: Instant|
                    #![trigger nanos_between(old(self)@.last_flush, now)]
                    (r is Some <==> flush_due(old(self)@, pending, now)) && (r is Some
                        ==> final(self)@.last_flush == now)
            }),
    {
        let now = instant_now();
        self.buffer_at(event, now)
    }

    /// The number of buffered events.
    pub fn size(&self) -> (r: usize)
        ensures
            r == self@.pending.len(),
    {
        self.buffer.len()
    }

    /// The clock reading at the last flush (or at creation).
    pub fn last_flush(&self) -> (r: Instant)
        ensures
            r == self@.last_flush,
    {
        self.last_flush
    }

    /// At the clock reading `now`, takes every buffered event when there is any
    /// and records `now` as the time of the last flush; an empty buffer is left
    /// as it is.
    pub fn flush_at(&mut self, now: Instant) -> (r: Option<Vec<T>>)
        ensures
            final(self)@.config == old(self)@.config,
            final(self)@.span_name == old(self)@.span_name,
            final(self)@.pending == Seq::<T>::empty(),
            old(self)@.pending.len() == 0 ==> r is None && final(self)@.last_flush == old(
                self,
            )@.last_flush,
            old(self)@.pending.len() > 0 ==> (r matches Some(batch) && batch@ == old(self)@.pending)
                && final(self)@.last_flush == now,
    {
        if self.buffer.len() == 0 {
            return None;
        }
        Some(self.take_batch(now))
    }

    /// Takes every buffered event when there is any, recording the clock's
    /// reading as the time of the last flush; an empty buffer is left as it is.
    pub fn flush(&mut self) -> (r: Option<Vec<T>>)
        ensures
            final(self)@.config == old(self)@.config,
            final(self)@.span_name == old(self)@.span_name,
            final(self)@.pending == Seq::<T>::empty(),
            old(self)@.pending.len() == 0 ==> r is None && final(self)@.last_flush == old(
                self,
            )@.last_flush,
            old(self)@.pending.len() > 0 ==> (r matches Some(batch) && batch@ == old(self)@.pending),
    {
        if self.buffer.len() == 0 {
            return None;
        }
        let now = instant_now();
        self.flush_at(now)
    }

    /// Empties the buffer, returning its events, and records `now` as the time
    /// of the last flush.
    fn take_batch(&mut self, now: Instant) -> (r: Vec<T>)
        ensures
            r@ == old(self)@.pending,
            final(self)@.pending == Seq::<T>::empty(),
            final(self)@.last_flush == now,
            final(self)@.config == old(self)@.config,
            final(self)@.span_name == old(self)@.span_name,
    {
        let mut batch: Vec<T> = Vec::new();
        std::mem::swap(&mut batch, &mut self.buffer);
        self.last_flush = now;
        batch
    }

    /// The name of the tracing span of the channel.
    pub fn span_name(&self) -> (r: &str)
        ensures
            r@ == self@.span_name,
    {
        self.span_name.as_str()
    }
}

} // verus!
