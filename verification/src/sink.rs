//! The in-memory target of an encode: a growable byte buffer with a cursor.
//!
//! The codec drives it through three operations, in any order it likes:
//! write at the cursor, move the cursor, ask where the cursor is. Moving the
//! cursor back and writing again is how the codec fills in the stream header
//! once the body is known.

use vstd::prelude::*;

verus! {

/// What a buffer holds after `bytes` are written at position `at`.
///
/// The buffer grows to hold the written range if it has to. Positions inside
/// the range take the written bytes, positions before and after it keep what
/// they held, and positions that did not exist before and are not written,
/// which lie between the old end and `at`, are zero.
pub open spec fn written(before: Seq<u8>, at: nat, bytes: Seq<u8>) -> Seq<u8> {
    Seq::new(
        if before.len() >= at + bytes.len() {
            before.len()
        } else {
            at + bytes.len()
        },
        |i: int|
            if at <= i < at + bytes.len() {
                bytes[i - at]
            } else if i < before.len() {
                before[i]
            } else {
                0u8
            },
    )
}

/// A growable byte buffer and the position of the next write.
pub struct BufferSink {
    data: Vec<u8>,
    cursor: u64,
}

impl BufferSink {
    /// The bytes collected so far.
    pub closed spec fn bytes(&self) -> Seq<u8> {
        self.data@
    }

    /// The position of the next write; it may lie beyond the end.
    pub closed spec fn position(&self) -> nat {
        self.cursor as nat
    }

    /// An empty sink with the cursor at the start.
    pub fn new() -> (sink: BufferSink)
        ensures
            sink.bytes() == Seq::<u8>::empty(),
            sink.position() == 0,
    {
        BufferSink { data: Vec::new(), cursor: 0 }
    }

    /// An empty sink with room set aside for `capacity` bytes.
    pub fn with_capacity(capacity: usize) -> (sink: BufferSink)
        ensures
            sink.bytes() == Seq::<u8>::empty(),
            sink.position() == 0,
    {
        BufferSink { data: Vec::with_capacity(capacity), cursor: 0 }
    }

    /// Writes `bytes` at the cursor and moves the cursor behind them.
    ///
    /// The write is refused, and nothing changes, only if its end does not
    /// fit in a `usize`; no buffer could hold it then.
    pub fn write(&mut self, bytes: &[u8]) -> (accepted: bool)
        ensures
            accepted <==> old(self).position() + bytes@.len() <= usize::MAX,
            accepted ==> final(self).bytes() == written(
                old(self).bytes(),
                old(self).position(),
                bytes@,
            ),
            accepted ==> final(self).position() == old(self).position() + bytes@.len(),
            accepted ==> final(self).position() <= final(self).bytes().len(),
            !accepted ==> *final(self) == *old(self),
    {
        let count = bytes.len();
        if self.cursor > usize::MAX as u64 {
            return false;
        }
        let start = self.cursor as usize;
        let end = match start.checked_add(count) {
            Some(end) => end,
            None => {
                return false;
            },
        };
        let ghost before = self.data@;
        while self.data.len() < end
            invariant
                before.len() <= self.data@.len(),
                self.data@.len() <= end || self.data@ == before,
                forall|i: int| 0 <= i < before.len() ==> self.data@[i] == before[i],
                forall|i: int| before.len() <= i < self.data@.len() ==> self.data@[i] == 0u8,
            decreases end - self.data@.len(),
        {
            self.data.push(0);
        }
        let ghost padded = self.data@;
        let mut done: usize = 0;
        while done < count
            invariant
                done <= count,
                count == bytes@.len(),
                start + count == end,
                end <= self.data@.len(),
                self.data@.len() == padded.len(),
                forall|i: int|
                    0 <= i < padded.len() && !(start <= i < start + done) ==> self.data@[i]
                        == padded[i],
                forall|i: int| start <= i < start + done ==> self.data@[i] == bytes@[i - start],
            decreases count - done,
        {
            self.data[start + done] = bytes[done];
            done += 1;
        }
        self.cursor = end as u64;
        proof {
            let goal = written(before, start as nat, bytes@);
            assert forall|i: int| 0 <= i < goal.len() implies self.data@[i] == goal[i] by {
                if !(start <= i < start + count) {
                    assert(self.data@[i] == padded[i]);
                }
            }
            assert(self.data@ =~= goal);
        }
        true
    }

    /// Moves the cursor to `offset`, counted from the start. Any offset is
    /// accepted, before or beyond the end; the bytes stay as they are.
    pub fn seek(&mut self, offset: u64)
        ensures
            final(self).position() == offset,
            final(self).bytes() == old(self).bytes(),
    {
        self.cursor = offset;
    }

    /// The position of the cursor, counted from the start.
    pub fn tell(&self) -> (offset: u64)
        ensures
            offset == self.position(),
    {
        self.cursor
    }

    /// The number of bytes collected so far.
    pub fn len(&self) -> (count: usize)
        ensures
            count == self.bytes().len(),
    {
        self.data.len()
    }

    /// The bytes collected so far.
    pub fn as_slice(&self) -> (bytes: &[u8])
        ensures
            bytes@ == self.bytes(),
    {
        self.data.as_slice()
    }

    /// Gives up the sink for the bytes it collected.
    pub fn into_bytes(self) -> (bytes: Vec<u8>)
        ensures
            bytes@ == self.bytes(),
    {
        self.data
    }
}

/// A write leaves the buffer as long as the longer of what it was and where
/// the write ends, and a write that starts beyond the old end leaves zeros
/// between the old end and its start.
pub proof fn lemma_write_grows_and_fills(before: Seq<u8>, at: nat, bytes: Seq<u8>)
    ensures
        written(before, at, bytes).len() == if before.len() >= at + bytes.len() {
            before.len()
        } else {
            at + bytes.len()
        },
        forall|i: int| before.len() <= i < at ==> written(before, at, bytes)[i] == 0u8,
        forall|i: int| 0 <= i < before.len() && i < at ==> written(before, at, bytes)[i] == before[i],
        forall|i: int| at <= i < at + bytes.len() ==> written(before, at, bytes)[i] == bytes[i - at],
{
}

/// A write of `n` bytes at the start replaces the first `n` bytes and nothing
/// else: every byte that was there behind them is still there.
pub proof fn lemma_write_at_start_patches_prefix(before: Seq<u8>, bytes: Seq<u8>)
    ensures
        written(before, 0, bytes).len() >= before.len(),
        forall|i: int| 0 <= i < bytes.len() ==> written(before, 0, bytes)[i] == bytes[i],
        forall|i: int| bytes.len() <= i < before.len() ==> written(before, 0, bytes)[i] == before[i],
{
}

} // verus!
