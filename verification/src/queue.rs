//! The bounded delivery queue between producers and the single consumer.
//!
//! The queue is the sole backpressure mechanism: a producer's enqueue never
//! blocks, it either succeeds or reports the queue full (the trigger for
//! synchronous fallback delivery). Order is first in, first out.

use vstd::prelude::*;
use crate::record::LogRecord;

verus! {

/// A bounded first-in-first-out queue of log records.
pub struct LogQueue {
    items: Vec<LogRecord>,
    capacity: usize,
}

impl LogQueue {
    /// The records currently buffered, oldest first.
    pub closed spec fn view(&self) -> Seq<LogRecord> {
        self.items@
    }

    /// The fixed capacity the queue was created with.
    pub closed spec fn cap(&self) -> nat {
        self.capacity as nat
    }

    /// Well-formedness: the buffer never holds more than the capacity, and
    /// the capacity is at least one.
    pub closed spec fn inv(&self) -> bool {
        self.items@.len() <= self.capacity && self.capacity >= 1
    }

    /// An empty queue with the given capacity.
    pub fn new(capacity: usize) -> (q: LogQueue)
        requires
            capacity >= 1,
        ensures
            q.inv(),
            q@ == Seq::<LogRecord>::empty(),
            q.cap() == capacity,
    {
        let q = LogQueue { items: Vec::new(), capacity };
        proof {
            assert(q@ =~= Seq::<LogRecord>::empty());
        }
        q
    }

    /// How many records are buffered.
    pub fn len(&self) -> (n: usize)
        ensures
            n == self@.len(),
    {
        self.items.len()
    }

    /// Non-blocking enqueue: appends the record when there is room, and
    /// hands it back unchanged when the queue is full.
    pub fn try_enqueue(&mut self, r: LogRecord) -> (res: Result<(), LogRecord>)
        requires
            old(self).inv(),
        ensures
            final(self).inv(),
            final(self).cap() == old(self).cap(),
            match res {
                Result::Ok(()) => old(self)@.len() < old(self).cap()
                    && final(self)@ == old(self)@.push(r),
                Result::Err(back) => old(self)@.len() == old(self).cap()
                    && final(self)@ == old(self)@ && back == r,
            },
    {
        if self.items.len() < self.capacity {
            self.items.push(r);
            Result::Ok(())
        } else {
            Result::Err(r)
        }
    }

    /// Remove and return the oldest buffered record, if any.
    pub fn dequeue(&mut self) -> (res: Option<LogRecord>)
        requires
            old(self).inv(),
        ensures
            final(self).inv(),
            final(self).cap() == old(self).cap(),
            match res {
                Option::Some(r) => old(self)@.len() > 0 && r == old(self)@.first()
                    && final(self)@ == old(self)@.drop_first(),
                Option::None => old(self)@.len() == 0 && final(self)@ == old(self)@,
            },
    {
        if self.items.len() > 0 {
            let r = self.items.remove(0);
            proof {
                assert(self.items@ =~= old(self).items@.drop_first());
            }
            Option::Some(r)
        } else {
            Option::None
        }
    }

    /// Remove and return everything buffered, oldest first.
    pub fn drain(&mut self) -> (out: Vec<LogRecord>)
        requires
            old(self).inv(),
        ensures
            final(self).inv(),
            final(self).cap() == old(self).cap(),
            out@ == old(self)@,
            final(self)@ == Seq::<LogRecord>::empty(),
    {
        let mut out: Vec<LogRecord> = Vec::new();
        proof {
            assert(out@ + self@ =~= old(self)@);
        }
        loop
            invariant
                self.inv(),
                self.cap() == old(self).cap(),
                out@ + self@ == old(self)@,
            decreases self@.len(),
        {
            match self.dequeue() {
                Option::Some(r) => {
                    out.push(r);
                    proof {
                        assert(out@ + self@ =~= old(self)@);
                    }
                },
                Option::None => {
                    proof {
                        assert(out@ =~= old(self)@);
                        assert(self@ =~= Seq::<LogRecord>::empty());
                    }
                    return out;
                },
            }
        }
    }
}

/// The queue contents after records `rs` are enqueued one by one onto `q`.
pub open spec fn enqueue_all(q: Seq<LogRecord>, rs: Seq<LogRecord>) -> Seq<LogRecord>
    decreases rs.len(),
{
    if rs.len() == 0 {
        q
    } else {
        enqueue_all(q.push(rs.first()), rs.drop_first())
    }
}

/// First-in-first-out delivery: enqueuing records one by one appends them
/// in order, so draining the queue afterwards hands every record over
/// exactly once, in the order it was enqueued. Together with
/// `LogQueue::try_enqueue` (which appends) and `LogQueue::drain` (which
/// returns the buffered sequence exactly), this is the asynchronous path's
/// delivery guarantee under load below capacity.
pub proof fn lemma_fifo_delivery(q: Seq<LogRecord>, rs: Seq<LogRecord>)
    ensures
        enqueue_all(q, rs) == q + rs,
    decreases rs.len(),
{
    if rs.len() == 0 {
        assert(q + rs =~= q);
    } else {
        lemma_fifo_delivery(q.push(rs.first()), rs.drop_first());
        assert(q.push(rs.first()) + rs.drop_first() =~= q + rs);
    }
}

} // verus!
