//! The output buffer that the codecs append to.

use vstd::prelude::*;

verus! {

/// What a writer holds, as plain values.
pub struct WriterState {
    /// The bytes accepted so far, in order.
    pub bytes: Seq<u8>,
    /// The largest number of bytes the writer will ever hold.
    pub capacity: nat,
    /// Whether some request did not fit. A failed writer accepts nothing more.
    pub failed: bool,
}

impl WriterState {
    /// Whether `n` more bytes would be accepted.
    pub open spec fn fits(self, n: nat) -> bool {
        !self.failed && self.bytes.len() + n <= self.capacity
    }

    /// The state after a request was turned down: same bytes, marked failed.
    pub open spec fn fail(self) -> WriterState {
        WriterState { failed: true, ..self }
    }

    /// The state after checking that `n` more bytes fit.
    pub open spec fn test(self, n: nat) -> WriterState {
        if self.fits(n) {
            self
        } else {
            self.fail()
        }
    }

    /// The state after appending `data`: all of it, or none of it and failure.
    pub open spec fn write(self, data: Seq<u8>) -> WriterState {
        if self.fits(data.len()) {
            WriterState { bytes: self.bytes + data, ..self }
        } else {
            self.fail()
        }
    }

    /// Whether `n` bytes starting at `offset` have already been written.
    pub open spec fn covers(self, offset: int, n: int) -> bool {
        0 <= offset && 0 <= n && offset + n <= self.bytes.len()
    }

    /// The state after overwriting the bytes at `offset` with `data`.
    /// A failed writer is left as it is.
    pub open spec fn patch(self, offset: int, data: Seq<u8>) -> WriterState {
        if self.failed {
            self
        } else {
            WriterState {
                bytes: self.bytes.subrange(0, offset) + data + self.bytes.subrange(
                    offset + data.len(),
                    self.bytes.len() as int,
                ),
                ..self
            }
        }
    }
}

/// Appending in two steps is appending at once, as long as both parts fit.
pub proof fn lemma_write_write(s: WriterState, a: Seq<u8>, b: Seq<u8>)
    requires
        s.fits(a.len() + b.len()),
    ensures
        s.write(a).write(b) == s.write(a + b),
{
    assert((s.bytes + a) + b =~= s.bytes + (a + b));
}

/// A patch inside the written region changes no length and nothing outside
/// the patched span.
pub proof fn lemma_patch_frame(s: WriterState, offset: int, data: Seq<u8>)
    requires
        s.covers(offset, data.len() as int),
    ensures
        s.patch(offset, data).bytes.len() == s.bytes.len(),
        s.patch(offset, data).capacity == s.capacity,
        s.patch(offset, data).failed == s.failed,
        !s.failed ==> s.patch(offset, data).bytes.subrange(
            offset,
            offset + data.len(),
        ) == data,
        forall|i: int|
            0 <= i < s.bytes.len() && !(offset <= i < offset + data.len()) ==> s.patch(
                offset,
                data,
            ).bytes[i] == s.bytes[i],
{
}

/// A growable byte buffer with a declared capacity.
///
/// A request that would take the buffer past its capacity is turned down as
/// a whole: no byte of it is written, and the writer is marked failed. From
/// then on it accepts nothing, so a message is either complete or reported as
/// not having fit.
pub struct BufWriter {
    buf: Vec<u8>,
    room: usize,
    error: bool,
}

impl View for BufWriter {
    type V = WriterState;

    closed spec fn view(&self) -> WriterState {
        WriterState {
            bytes: self.buf@,
            capacity: self.buf@.len() + (self.room as nat),
            failed: self.error,
        }
    }
}

impl BufWriter {
    /// An empty writer that will hold at most `capacity` bytes.
    pub fn new(capacity: usize) -> (w: BufWriter)
        ensures
            w@ == (WriterState { bytes: Seq::empty(), capacity: capacity as nat, failed: false }),
    {
        BufWriter { buf: Vec::new(), room: capacity, error: false }
    }

    /// The number of bytes written so far.
    pub fn size(&self) -> (n: usize)
        ensures
            n == self@.bytes.len(),
            n <= self@.capacity,
    {
        self.buf.len()
    }

    /// The number of bytes that can still be written before the capacity is
    /// reached.
    pub fn remaining(&self) -> (n: usize)
        ensures
            n == self@.capacity - self@.bytes.len(),
    {
        self.room
    }

    /// Whether some request has been turned down.
    pub fn failed(&self) -> (b: bool)
        ensures
            b == self@.failed,
    {
        self.error
    }

    /// The bytes written so far.
    pub fn as_slice(&self) -> (s: &[u8])
        ensures
            s@ == self@.bytes,
    {
        self.buf.as_slice()
    }

    /// Checks that `size` more bytes can be written. If they cannot, the
    /// writer is marked failed; its bytes stay as they are either way.
    pub fn test(&mut self, size: usize) -> (ok: bool)
        ensures
            ok == old(self)@.fits(size as nat),
            final(self)@ == old(self)@.test(size as nat),
    {
        if self.error || size > self.room {
            self.error = true;
            false
        } else {
            true
        }
    }

    /// Appends `buf`, or marks the writer failed if it does not fit.
    pub fn write(&mut self, buf: &[u8])
        ensures
            final(self)@ == old(self)@.write(buf@),
    {
        if self.error || buf.len() > self.room {
            self.error = true;
        } else {
            self.buf.extend_from_slice(buf);
            self.room = self.room - buf.len();
            assert(self.buf@ =~= old(self).buf@ + buf@);
        }
    }

    /// Appends one byte, or marks the writer failed if it does not fit.
    pub fn write_u8(&mut self, value: u8)
        ensures
            final(self)@ == old(self)@.write(seq![value]),
    {
        if self.error || self.room == 0 {
            self.error = true;
        } else {
            self.buf.push(value);
            self.room = self.room - 1;
            assert(self.buf@ =~= old(self).buf@ + seq![value]);
        }
    }

    /// Overwrites the bytes at `offset` with `buf`. The span must lie within
    /// what has been written, unless the writer has failed, in which case
    /// nothing happens.
    pub fn write_rewind(&mut self, offset: usize, buf: &[u8])
        requires
            old(self)@.failed || old(self)@.covers(offset as int, buf@.len() as int),
        ensures
            final(self)@ == old(self)@.patch(offset as int, buf@),
    {
        if self.error {
            return ;
        }
        let n = buf.len();
        let written = self.buf.len();
        let mut i: usize = 0;
        while i < n
            invariant
                0 <= i <= n,
                n == buf@.len(),
                offset + n <= written,
                written == self.buf@.len(),
                self.buf@.len() == old(self).buf@.len(),
                self.room == old(self).room,
                self.error == old(self).error,
                forall|j: int| 0 <= j < i ==> self.buf@[offset + j] == buf@[j],
                forall|j: int|
                    0 <= j < self.buf@.len() && !(offset <= j < offset + i) ==> self.buf@[j] == old(
                        self,
                    ).buf@[j],
            decreases n - i,
        {
            self.buf[offset + i] = buf[i];
            i += 1;
        }
        assert(self.buf@ =~= old(self)@.patch(offset as int, buf@).bytes);
    }

    /// Gives up the writer: the bytes written, unless some request was
    /// turned down.
    pub fn finish(self) -> (r: Option<Vec<u8>>)
        ensures
            r is Some <==> !self@.failed,
            r matches Some(v) ==> v@ == self@.bytes,
    {
        if self.error {
            None
        } else {
            Some(self.buf)
        }
    }
}

} // verus!
