//! Bounded byte ring between the encoder and the transport drain.
//!
//! The encoder reserves space for the worst-case expansion of one record
//! before committing the actual frame; if the reservation does not fit, the
//! write fails as a whole and the caller applies backpressure by dropping
//! work instead of blocking.  The drain side reads the queued bytes and
//! consumes only what the transport has confirmed, so unconfirmed bytes are
//! never discarded.

use vstd::prelude::*;

verus! {

/// A bounded first-in, first-out byte buffer.
pub struct ByteRing {
    /// Queued bytes, oldest first.
    pub data: Vec<u8>,
    /// Fixed capacity chosen at start of day.
    pub capacity: usize,
}

impl ByteRing {
    /// Ring invariant: never over capacity.
    pub open spec fn wf(self) -> bool {
        self.data@.len() <= self.capacity
    }

    /// An empty ring of the given capacity.
    pub fn new(capacity: usize) -> (r: ByteRing)
        ensures
            r.wf(),
            r.capacity == capacity,
            r.data@.len() == 0,
    {
        ByteRing { data: Vec::new(), capacity }
    }

    /// Bytes currently queued.
    pub fn len(&self) -> (r: usize)
        ensures
            r == self.data@.len(),
    {
        self.data.len()
    }

    /// Reserve `reserve` bytes and commit `bytes` inside the reservation,
    /// all or nothing: succeeds exactly when the reservation fits next to
    /// what is already queued.  A failed reservation leaves the ring
    /// untouched, so a reservation is never left half used.
    pub fn grant_and_commit(&mut self, bytes: &Vec<u8>, reserve: usize) -> (ok: bool)
        requires
            old(self).wf(),
            bytes@.len() <= reserve,
        ensures
            final(self).wf(),
            final(self).capacity == old(self).capacity,
            ok == (old(self).data@.len() + reserve <= old(self).capacity),
            ok ==> final(self).data@ == old(self).data@ + bytes@,
            !ok ==> final(self).data@ == old(self).data@,
    {
        if reserve <= self.capacity && self.data.len() <= self.capacity - reserve {
            let mut i: usize = 0;
            let n = bytes.len();
            while i < n
                invariant
                    n == bytes@.len(),
                    i <= n,
                    self.data@ == old(self).data@ + bytes@.take(i as int),
                    self.capacity == old(self).capacity,
                    old(self).data@.len() + n <= self.capacity,
                decreases n - i,
            {
                let b = bytes[i];
                self.data.push(b);
                proof {
                    assert(self.data@ =~= old(self).data@ + bytes@.take(i + 1));
                }
                i += 1;
            }
            proof {
                assert(bytes@.take(n as int) =~= bytes@);
            }
            true
        } else {
            false
        }
    }

    /// A copy of all queued bytes, oldest first, for the drain to offer to
    /// the transport.  The ring itself is unchanged.
    pub fn peek(&self) -> (r: Vec<u8>)
        ensures
            r@ == self.data@,
    {
        let mut out: Vec<u8> = Vec::new();
        let mut i: usize = 0;
        let n = self.data.len();
        while i < n
            invariant
                n == self.data@.len(),
                i <= n,
                out@ == self.data@.take(i as int),
            decreases n - i,
        {
            let b = self.data[i];
            out.push(b);
            proof {
                assert(out@ =~= self.data@.take(i + 1));
            }
            i += 1;
        }
        proof {
            assert(out@ =~= self.data@);
        }
        out
    }

    /// Consume the `n` oldest bytes — exactly the bytes the transport has
    /// confirmed as accepted.
    pub fn consume(&mut self, n: usize)
        requires
            old(self).wf(),
            n <= old(self).data@.len(),
        ensures
            final(self).wf(),
            final(self).capacity == old(self).capacity,
            final(self).data@ == old(self).data@.skip(n as int),
    {
        let mut i: usize = 0;
        while i < n
            invariant
                i <= n,
                n <= old(self).data@.len(),
                self.data@ == old(self).data@.skip(i as int),
                self.capacity == old(self).capacity,
            decreases n - i,
        {
            self.data.remove(0);
            proof {
                assert(self.data@ =~= old(self).data@.skip(i + 1));
            }
            i += 1;
        }
    }
}

} // verus!
