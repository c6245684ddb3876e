//! Size/count/time-bounded batch aggregation of encoded wire bytes.
//!
//! Encoded events are appended to an open batch until a bound is reached:
//! an event that would push the byte size over the bound, or arrives when
//! the event count is full, closes the current batch first and opens a
//! fresh one with itself. A batch whose size exactly equals the byte bound
//! stays open. An event larger than the byte bound is never dropped: alone
//! in a batch it simply goes out as its own oversized batch. The time bound
//! is checked against a caller-supplied clock reading.

use vstd::prelude::*;

verus! {

/// Caller-supplied batching bounds; absent fields take the defaults.
#[derive(Debug, Clone, PartialEq, Eq)]
pub struct BatchConfig {
    pub max_bytes: Option<usize>,
    pub max_events: Option<usize>,
    pub timeout_secs: Option<u64>,
}

impl BatchConfig {
    /// Bounds left entirely to the defaults.
    pub fn unset() -> (r: BatchConfig)
        ensures
            r.max_bytes is None,
            r.max_events is None,
            r.timeout_secs is None,
    {
        BatchConfig { max_bytes: None, max_events: None, timeout_secs: None }
    }
}

/// A bounded accumulation of encoded bytes, released together.
#[derive(Debug, Clone, PartialEq, Eq)]
pub struct Batch {
    pub buf: Vec<u8>,
    pub events: usize,
    pub opened_at_ms: Option<u64>,
    pub max_bytes: usize,
    pub max_events: usize,
    pub timeout_ms: u64,
}

/// The arriving event closes the open batch before being appended.
pub open spec fn closes_batch(b: Batch, event: Seq<u8>) -> bool {
    b.events > 0 && (b.buf@.len() + event.len() > b.max_bytes || b.events >= b.max_events)
}

impl Batch {
    /// An open batch knows when it was opened; the byte bound is only ever
    /// exceeded by an event that sits alone in its batch.
    pub open spec fn wf(&self) -> bool {
        &&& self.max_events >= 1
        &&& (self.events == 0 ==> self.buf@.len() == 0)
        &&& (self.events == 0 <==> self.opened_at_ms is None)
        &&& self.events <= self.max_events
        &&& (self.events > 1 ==> self.buf@.len() <= self.max_bytes)
    }

    /// An empty batch with the given bounds.
    pub fn new(max_bytes: usize, max_events: usize, timeout_ms: u64) -> (r: Batch)
        requires
            max_events >= 1,
        ensures
            r.wf(),
            r.buf@ == Seq::<u8>::empty(),
            r.events == 0,
            r.max_bytes == max_bytes,
            r.max_events == max_events,
            r.timeout_ms == timeout_ms,
    {
        let r = Batch {
            buf: Vec::new(),
            events: 0,
            opened_at_ms: None,
            max_bytes,
            max_events,
            timeout_ms,
        };
        proof {
            assert(r.buf@ =~= Seq::<u8>::empty());
        }
        r
    }

    /// Appends one encoded event, handing back the closed batch when the
    /// event reaches a bound. A batch that exactly fills the byte bound is
    /// not closed until the next event arrives.
    pub fn push(&mut self, event: &Vec<u8>, now_ms: u64) -> (r: Option<Vec<u8>>)
        requires
            old(self).wf(),
        ensures
            final(self).wf(),
            final(self).max_bytes == old(self).max_bytes,
            final(self).max_events == old(self).max_events,
            final(self).timeout_ms == old(self).timeout_ms,
            !closes_batch(*old(self), event@) ==> r is None && final(self).buf@ == old(self).buf@
                + event@ && final(self).events == old(self).events + 1,
            closes_batch(*old(self), event@) ==> (r matches Some(out) && out@ == old(self).buf@
                && final(self).buf@ == event@ && final(self).events == 1),
    {
        let over = match self.buf.len().checked_add(event.len()) {
            Some(w) => w > self.max_bytes,
            None => true,
        };
        if self.events > 0 && (over || self.events >= self.max_events) {
            let mut out: Vec<u8> = Vec::new();
            core::mem::swap(&mut out, &mut self.buf);
            append_bytes(&mut self.buf, event);
            self.events = 1;
            self.opened_at_ms = Some(now_ms);
            proof {
                assert(self.buf@ =~= event@);
            }
            Some(out)
        } else {
            append_bytes(&mut self.buf, event);
            if self.events == 0 {
                self.opened_at_ms = Some(now_ms);
            }
            self.events = self.events + 1;
            None
        }
    }

    /// Whether the time bound has elapsed since the batch was opened.
    pub fn flush_due(&self, now_ms: u64) -> (r: bool)
        ensures
            r == (self.opened_at_ms matches Some(t) && now_ms >= t + self.timeout_ms),
    {
        match self.opened_at_ms {
            Some(t) => now_ms >= t && now_ms - t >= self.timeout_ms,
            None => false,
        }
    }

    /// Closes the batch regardless of its bounds (the time bound fired);
    /// an empty batch yields nothing.
    pub fn flush(&mut self) -> (r: Option<Vec<u8>>)
        requires
            old(self).wf(),
        ensures
            final(self).wf(),
            final(self).max_bytes == old(self).max_bytes,
            final(self).max_events == old(self).max_events,
            final(self).timeout_ms == old(self).timeout_ms,
            old(self).events == 0 ==> r is None && *final(self) == *old(self),
            old(self).events > 0 ==> (r matches Some(out) && out@ == old(self).buf@
                && final(self).events == 0 && final(self).buf@ == Seq::<u8>::empty()),
    {
        if self.events == 0 {
            None
        } else {
            let mut out: Vec<u8> = Vec::new();
            core::mem::swap(&mut out, &mut self.buf);
            self.events = 0;
            self.opened_at_ms = None;
            proof {
                assert(self.buf@ =~= Seq::<u8>::empty());
            }
            Some(out)
        }
    }
}

/// Appends every byte of `src` to `dst`.
fn append_bytes(dst: &mut Vec<u8>, src: &Vec<u8>)
    ensures
        final(dst)@ == old(dst)@ + src@,
{
    let n = src.len();
    let mut j: usize = 0;
    while j < n
        invariant
            n == src@.len(),
            0 <= j <= n,
            dst@ == old(dst)@ + src@.subrange(0, j as int),
        decreases n - j,
    {
        dst.push(src[j]);
        proof {
            assert(old(dst)@ + src@.subrange(0, j as int) + seq![src@[j as int]] =~= old(dst)@
                + src@.subrange(0, j + 1));
        }
        j = j + 1;
    }
    proof {
        assert(src@.subrange(0, n as int) =~= src@);
    }
}

} // verus!
