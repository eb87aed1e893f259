use vstd::prelude::*;

verus! {

/// Completed spans waiting for export. A batch is due when `batch_size`
/// spans wait, or when any wait and `max_delay` has passed since the last
/// flush. At most `capacity` spans wait: a span that finds the queue full is
/// dropped and counted, never waited for.
pub struct BatchQueue {
    pub pending: Vec<usize>,
    pub capacity: usize,
    pub batch_size: usize,
    pub max_delay: u64,
    pub last_flush: u64,
    pub dropped: u64,
}

impl BatchQueue {
    pub open spec fn wf(&self) -> bool {
        &&& 0 < self.batch_size <= self.capacity
        &&& self.pending@.len() <= self.capacity
    }

    /// Whether a batch is due at `now`.
    pub open spec fn due(&self, now: u64) -> bool {
        ||| self.pending@.len() >= self.batch_size
        ||| (self.pending@.len() > 0 && now >= self.last_flush && now - self.last_flush
            >= self.max_delay)
    }

    /// An empty queue; `None` unless `0 < batch_size <= capacity`.
    pub fn new(capacity: usize, batch_size: usize, max_delay: u64, now: u64) -> (r: Option<
        BatchQueue,
    >)
        ensures
            r is Some <==> 0 < batch_size <= capacity,
            r matches Some(q) ==> {
                &&& q.wf()
                &&& q.pending@.len() == 0
                &&& q.capacity == capacity
                &&& q.batch_size == batch_size
                &&& q.max_delay == max_delay
                &&& q.last_flush == now
                &&& q.dropped == 0
            },
    {
        if 0 < batch_size && batch_size <= capacity {
            Some(BatchQueue { pending: Vec::new(), capacity, batch_size, max_delay, last_flush: now, dropped: 0 })
        } else {
            None
        }
    }

    /// Queues a completed span; returns false, and counts a drop (saturating
    /// at the largest count), when the queue is full.
    pub fn push(&mut self, span: usize) -> (r: bool)
        requires
            old(self).wf(),
        ensures
            final(self).wf(),
            r == (old(self).pending@.len() < old(self).capacity),
            r ==> final(self).pending@ == old(self).pending@.push(span) && final(self).dropped
                == old(self).dropped,
            !r ==> final(self).pending@ == old(self).pending@ && final(self).dropped == (if old(
                self,
            ).dropped == u64::MAX {
                u64::MAX
            } else {
                (old(self).dropped + 1) as u64
            }),
            final(self).capacity == old(self).capacity,
            final(self).batch_size == old(self).batch_size,
            final(self).max_delay == old(self).max_delay,
            final(self).last_flush == old(self).last_flush,
    {
        if self.pending.len() < self.capacity {
            self.pending.push(span);
            true
        } else {
            self.dropped = self.dropped.saturating_add(1);
            false
        }
    }

    /// Executable form of `due`.
    pub fn batch_due(&self, now: u64) -> (r: bool)
        ensures
            r == self.due(now),
    {
        self.pending.len() >= self.batch_size || (self.pending.len() > 0 && now >= self.last_flush
            && now - self.last_flush >= self.max_delay)
    }

    /// Takes the oldest `batch_size` waiting spans (all of them if fewer
    /// wait) when a batch is due at `now`, and records `now` as the last
    /// flush; otherwise takes nothing and changes nothing.
    pub fn take_batch(&mut self, now: u64) -> (r: Vec<usize>)
        requires
            old(self).wf(),
        ensures
            final(self).wf(),
            final(self).capacity == old(self).capacity,
            final(self).batch_size == old(self).batch_size,
            final(self).max_delay == old(self).max_delay,
            final(self).dropped == old(self).dropped,
            old(self).due(now) ==> {
                let k = if old(self).pending@.len() < old(self).batch_size {
                    old(self).pending@.len() as int
                } else {
                    old(self).batch_size as int
                };
                &&& r@ == old(self).pending@.subrange(0, k)
                &&& final(self).pending@ == old(self).pending@.subrange(k, old(self).pending@.len() as int)
                &&& final(self).last_flush == now
            },
            !old(self).due(now) ==> r@.len() == 0 && final(self).pending@ == old(self).pending@
                && final(self).last_flush == old(self).last_flush,
    {
        if !self.batch_due(now) {
            return Vec::new();
        }
        let k = if self.pending.len() < self.batch_size {
            self.pending.len()
        } else {
            self.batch_size
        };
        let mut batch = self.pending.split_off(k);
        std::mem::swap(&mut self.pending, &mut batch);
        self.last_flush = now;
        batch
    }
}

} // verus!
