//! The batching policy of the ingestion, audit and snapshot pipelines:
//! items are buffered and flushed when the buffer is full, on each timer
//! tick when it holds anything, and when the pipeline stops.

use vstd::prelude::*;

verus! {

/// Items waiting to be written, and the size at which they are.
pub struct BatchBuffer<T> {
    pub items: Vec<T>,
    pub max_batch_size: usize,
}

impl<T> BatchBuffer<T> {
    /// An empty buffer flushed at `max_batch_size` items.
    pub fn new(max_batch_size: usize) -> (r: Self)
        ensures
            r.items@.len() == 0,
            r.max_batch_size == max_batch_size,
    {
        BatchBuffer { items: Vec::new(), max_batch_size }
    }

    /// Buffers `item`; whether the buffer is now due for a flush.
    pub fn push(&mut self, item: T) -> (flush: bool)
        ensures
            final(self).items@ == old(self).items@.push(item),
            final(self).max_batch_size == old(self).max_batch_size,
            flush == (final(self).items@.len() >= old(self).max_batch_size),
    {
        self.items.push(item);
        self.items.len() >= self.max_batch_size
    }

    /// Whether a timer tick flushes: only a buffer holding something.
    pub fn due_on_tick(&self) -> (r: bool)
        ensures
            r == (self.items@.len() > 0),
    {
        self.items.len() > 0
    }

    /// Takes every buffered item, in order, leaving the buffer empty.
    pub fn drain(&mut self) -> (r: Vec<T>)
        ensures
            r@ == old(self).items@,
            final(self).items@.len() == 0,
            final(self).max_batch_size == old(self).max_batch_size,
    {
        let mut taken: Vec<T> = Vec::new();
        std::mem::swap(&mut taken, &mut self.items);
        taken
    }
}

} // verus!
