//! The fixed-size memory buffer that records are written to.

use vstd::prelude::*;

verus! {

/// Why a write to the buffer failed.
#[derive(Debug, Clone, Copy, PartialEq, Eq, Structural)]
pub enum SinkError {
    /// The buffer has no room for all of the bytes.
    Full,
}

/// A byte buffer with a fixed capacity. Bytes are written at the end; what a reader may take
/// out is the part that was written before the last flush.
#[derive(Debug, Clone, PartialEq, Eq)]
pub struct Buffer {
    bytes: Vec<u8>,
    capacity: usize,
    flushed: usize,
}

impl Buffer {
    /// The buffer's invariant: it holds no more than its capacity, and the flushed part lies
    /// within what was written.
    pub closed spec fn wf(&self) -> bool {
        &&& self.bytes@.len() <= self.capacity
        &&& self.flushed <= self.bytes@.len()
    }

    /// Every byte written since the buffer was made or cleared.
    pub closed spec fn written(&self) -> Seq<u8> {
        self.bytes@
    }

    /// The bytes that a reader may take out: those written before the last flush.
    pub closed spec fn flushed(&self) -> Seq<u8> {
        self.bytes@.take(self.flushed as int)
    }

    /// The most bytes that the buffer can hold.
    pub closed spec fn limit(&self) -> nat {
        self.capacity as nat
    }

    /// What the buffer holds after an attempt to write `data` behind `before`: all of it
    /// where it fits, else as much as the capacity admits.
    pub open spec fn after_write(before: Seq<u8>, data: Seq<u8>, limit: nat) -> Seq<u8> {
        if before.len() + data.len() <= limit {
            before + data
        } else {
            (before + data).take(limit as int)
        }
    }

    /// A well-formed buffer never holds more than its capacity, and the flushed bytes are
    /// the beginning of the written ones.
    pub proof fn lemma_bounds(&self)
        requires
            self.wf(),
        ensures
            self.written().len() <= self.limit(),
            self.flushed().len() <= self.written().len(),
            self.flushed() == self.written().take(self.flushed().len() as int),
    {
    }

    /// An empty buffer that holds up to `capacity` bytes.
    pub fn new(capacity: usize) -> (buffer: Buffer)
        ensures
            buffer.wf(),
            buffer.limit() == capacity,
            buffer.written() == Seq::<u8>::empty(),
            buffer.flushed() == Seq::<u8>::empty(),
    {
        Buffer { bytes: Vec::new(), capacity, flushed: 0 }
    }

    /// The buffer's capacity.
    pub fn capacity(&self) -> (limit: usize)
        ensures
            limit == self.limit(),
    {
        self.capacity
    }

    /// The number of bytes written so far.
    pub fn len(&self) -> (count: usize)
        ensures
            count == self.written().len(),
    {
        self.bytes.len()
    }

    /// Writes all of `data` behind what the buffer holds. Where it does not fit, the buffer is
    /// filled to its capacity with the beginning of `data` and the write fails.
    pub fn write_all(&mut self, data: &[u8]) -> (done: Result<(), SinkError>)
        requires
            old(self).wf(),
        ensures
            final(self).wf(),
            final(self).limit() == old(self).limit(),
            final(self).flushed() == old(self).flushed(),
            final(self).written() == Self::after_write(
                old(self).written(),
                data@,
                old(self).limit(),
            ),
            done is Ok <==> old(self).written().len() + data@.len() <= old(self).limit(),
            done is Err ==> done == Err::<(), SinkError>(SinkError::Full),
    {
        let ghost before = self.bytes@;
        let mut i: usize = 0;
        while i < data.len() && self.bytes.len() < self.capacity
            invariant
                i <= data@.len(),
                self.capacity == old(self).capacity,
                self.flushed == old(self).flushed,
                self.flushed <= before.len(),
                before == old(self).bytes@,
                self.bytes@ == before + data@.take(i as int),
                self.bytes@.len() <= self.capacity,
            decreases data@.len() - i,
        {
            let b: u8 = data[i];
            self.bytes.push(b);
            proof {
                assert(data@.take(i + 1) =~= data@.take(i as int).push(b));
                assert(self.bytes@ =~= before + data@.take(i + 1));
            }
            i = i + 1;
        }
        proof {
            assert(self.bytes@.take(self.flushed as int) =~= before.take(self.flushed as int));
            if i == data@.len() {
                assert(data@.take(i as int) =~= data@);
            } else {
                assert(self.bytes@ =~= (before + data@).take(self.capacity as int));
            }
        }
        if i == data.len() {
            Ok(())
        } else {
            Err(SinkError::Full)
        }
    }

    /// Makes everything written so far available to a reader.
    pub fn flush(&mut self)
        requires
            old(self).wf(),
        ensures
            final(self).wf(),
            final(self).limit() == old(self).limit(),
            final(self).written() == old(self).written(),
            final(self).flushed() == old(self).written(),
    {
        self.flushed = self.bytes.len();
        proof {
            assert(self.bytes@.take(self.bytes@.len() as int) =~= self.bytes@);
        }
    }

    /// Empties the buffer, as a caller must after a failed write before using it again.
    pub fn clear(&mut self)
        requires
            old(self).wf(),
        ensures
            final(self).wf(),
            final(self).limit() == old(self).limit(),
            final(self).written() == Seq::<u8>::empty(),
            final(self).flushed() == Seq::<u8>::empty(),
    {
        self.bytes.clear();
        self.flushed = 0;
    }

    /// A copy of the flushed bytes.
    pub fn to_vec(&self) -> (out: Vec<u8>)
        requires
            self.wf(),
        ensures
            out@ == self.flushed(),
    {
        let mut out: Vec<u8> = Vec::new();
        let mut i: usize = 0;
        while i < self.flushed
            invariant
                self.wf(),
                i <= self.flushed,
                out@ == self.bytes@.take(i as int),
            decreases self.flushed - i,
        {
            let b: u8 = self.bytes[i];
            out.push(b);
            proof {
                assert(self.bytes@.take(i + 1) =~= self.bytes@.take(i as int).push(b));
            }
            i = i + 1;
        }
        out
    }
}

} // verus!
