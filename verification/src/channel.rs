//! In-memory control channel: the verified model of one device endpoint.
//!
//! A live endpoint pairs an OS handle with a wait signal and answers the
//! control operations; this model keeps the same observable state — the
//! filter, the precedence, and the queue of unread event bytes — as plain
//! values. Writes are echoed into the queue and reads drain it in FIFO
//! order, so the channel doubles as the loopback used to exercise the
//! engine without a live driver. The wait signal is manual-reset: it reads
//! as set exactly while unread bytes remain queued.

use vstd::math::min;
use vstd::prelude::*;

verus! {

/// One device endpoint modelled as plain state.
#[derive(Debug)]
pub struct LoopbackChannel {
    filter: u16,
    precedence: i32,
    pending: Vec<u8>,
}

impl LoopbackChannel {
    /// The event filter this endpoint was last configured with.
    pub closed spec fn spec_filter(&self) -> u16 {
        self.filter
    }

    /// The precedence this endpoint was last configured with.
    pub closed spec fn spec_precedence(&self) -> i32 {
        self.precedence
    }

    /// The queued, unread event bytes, oldest first.
    pub closed spec fn spec_pending(&self) -> Seq<u8> {
        self.pending@
    }

    /// A fresh endpoint: no filtering, neutral precedence, empty queue.
    pub fn new() -> (r: Self)
        ensures
            r.spec_filter() == 0,
            r.spec_precedence() == 0,
            r.spec_pending() == Seq::<u8>::empty(),
    {
        LoopbackChannel { filter: 0, precedence: 0, pending: Vec::new() }
    }

    /// Configure the event filter.
    pub fn set_filter(&mut self, filter: u16)
        ensures
            final(self).spec_filter() == filter,
            final(self).spec_precedence() == old(self).spec_precedence(),
            final(self).spec_pending() == old(self).spec_pending(),
    {
        self.filter = filter;
    }

    /// Read back the configured event filter.
    pub fn get_filter(&self) -> (r: u16)
        ensures
            r == self.spec_filter(),
    {
        self.filter
    }

    /// Configure the precedence.
    pub fn set_precedence(&mut self, precedence: i32)
        ensures
            final(self).spec_precedence() == precedence,
            final(self).spec_filter() == old(self).spec_filter(),
            final(self).spec_pending() == old(self).spec_pending(),
    {
        self.precedence = precedence;
    }

    /// Read back the configured precedence.
    pub fn get_precedence(&self) -> (r: i32)
        ensures
            r == self.spec_precedence(),
    {
        self.precedence
    }

    /// Write a byte image into the endpoint; every byte is accepted and
    /// echoed onto the queue of unread events, and the count written is
    /// reported back.
    pub fn write(&mut self, bytes: &Vec<u8>) -> (r: usize)
        ensures
            r == bytes@.len(),
            final(self).spec_pending() == old(self).spec_pending() + bytes@,
            final(self).spec_filter() == old(self).spec_filter(),
            final(self).spec_precedence() == old(self).spec_precedence(),
    {
        self.pending.extend_from_slice(bytes.as_slice());
        bytes.len()
    }

    /// Read up to `max_bytes` from the queue of unread events, oldest
    /// first; the bytes returned are removed from the queue.
    pub fn read(&mut self, max_bytes: usize) -> (r: Vec<u8>)
        ensures
            r@ == old(self).spec_pending().take(min(
                max_bytes as int,
                old(self).spec_pending().len() as int,
            )),
            final(self).spec_pending() == old(self).spec_pending().skip(min(
                max_bytes as int,
                old(self).spec_pending().len() as int,
            )),
            final(self).spec_filter() == old(self).spec_filter(),
            final(self).spec_precedence() == old(self).spec_precedence(),
    {
        let len = self.pending.len();
        let k = if max_bytes < len {
            max_bytes
        } else {
            len
        };
        let mut out: Vec<u8> = Vec::new();
        let mut i: usize = 0;
        while i < k
            invariant
                k <= self.pending@.len(),
                i <= k,
                out@ == self.pending@.take(i as int),
                self == old(self),
            decreases k - i,
        {
            out.push(self.pending[i]);
            proof {
                assert(out@ =~= self.pending@.take(i + 1));
            }
            i = i + 1;
        }
        let mut rest: Vec<u8> = Vec::new();
        let mut j: usize = k;
        while j < self.pending.len()
            invariant
                k <= j <= self.pending@.len(),
                rest@ == self.pending@.subrange(k as int, j as int),
                self == old(self),
            decreases self.pending@.len() - j,
        {
            rest.push(self.pending[j]);
            proof {
                assert(rest@ =~= self.pending@.subrange(k as int, j + 1));
            }
            j = j + 1;
        }
        proof {
            assert(rest@ =~= self.pending@.skip(k as int));
        }
        self.pending = rest;
        out
    }

    /// Number of queued, unread bytes.
    pub fn queued_len(&self) -> (r: usize)
        ensures
            r == self.spec_pending().len(),
    {
        self.pending.len()
    }

    /// Whether the wait signal bound to this endpoint reads as set: it is
    /// manual-reset and stays set exactly while unread events remain.
    pub fn signaled(&self) -> (r: bool)
        ensures
            r == (self.spec_pending().len() > 0),
    {
        self.pending.len() > 0
    }
}

} // verus!
