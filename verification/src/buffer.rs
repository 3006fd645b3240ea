//! The buffer between the background thread that receives bytes and the caller that reads them.

use std::collections::VecDeque;
use vstd::prelude::*;

verus! {

/// How many bytes a read hands over: all that are there, as far as there is room.
pub open spec fn taken(available: Seq<u8>, room: int) -> int {
    if available.len() <= room {
        available.len() as int
    } else {
        room
    }
}

/// Bytes that have arrived and have not been read, the oldest first.
#[derive(Debug)]
pub struct ReadBuffer {
    bytes: VecDeque<u8>,
}

impl View for ReadBuffer {
    type V = Seq<u8>;

    closed spec fn view(&self) -> Seq<u8> {
        self.bytes@
    }
}

impl ReadBuffer {
    pub fn new() -> (buffer: ReadBuffer)
        ensures
            buffer@ == Seq::<u8>::empty(),
    {
        ReadBuffer { bytes: VecDeque::new() }
    }

    pub fn len(&self) -> (len: usize)
        ensures
            len == self@.len(),
    {
        self.bytes.len()
    }

    pub fn clear(&mut self)
        ensures
            final(self)@ == Seq::<u8>::empty(),
    {
        self.bytes.clear();
    }

    /// Appends the bytes.
    pub fn write(&mut self, bytes: &[u8])
        ensures
            final(self)@ == old(self)@ + bytes@,
    {
        let len: usize = bytes.len();
        let mut i: usize = 0;
        while i < len
            invariant
                i <= len,
                len == bytes@.len(),
                self@ == old(self)@ + bytes@.take(i as int),
            decreases len - i,
        {
            self.bytes.push_back(bytes[i]);
            i = i + 1;
        }
        assert(bytes@.take(len as int) == bytes@);
    }

    /// Moves the oldest bytes to `out`, from position `from` on, until the buffer is empty or
    /// `out` is full.
    pub fn read(&mut self, out: &mut [u8], from: usize) -> (count: usize)
        requires
            from <= old(out)@.len(),
        ensures
            count == taken(old(self)@, old(out)@.len() - from),
            final(self)@ == old(self)@.skip(count as int),
            final(out)@ == old(out)@.take(from as int) + old(self)@.take(count as int) + old(
                out,
            )@.skip(from + count),
    {
        let len: usize = out.len();
        let room: usize = len - from;
        let mut count: usize = 0;
        while count < room
            invariant
                len == old(out)@.len(),
                count <= room,
                room == old(out)@.len() - from,
                from <= old(out)@.len(),
                out@.len() == old(out)@.len(),
                count <= old(self)@.len(),
                self@ == old(self)@.skip(count as int),
                out@ == old(out)@.take(from as int) + old(self)@.take(count as int) + old(
                    out,
                )@.skip(from + count),
            ensures
                count == room || self@.len() == 0,
            decreases room - count,
        {
            match self.bytes.pop_front() {
                Some(byte) => {
                    out[from + count] = byte;
                    count = count + 1;
                },
                None => {
                    break;
                },
            }
        }
        count
    }
}

/// Bytes come out in the order in which they went in: what is read after a write continues
/// with the written bytes where the bytes that were there before end.
pub proof fn law_first_in_first_out(before: Seq<u8>, written: Seq<u8>, count: int)
    requires
        0 <= count <= before.len() + written.len(),
    ensures
        count <= before.len() ==> (before + written).take(count) == before.take(count),
        count >= before.len() ==> (before + written).take(count) == before + written.take(
            count - before.len(),
        ),
        (before + written).take(count) + (before + written).skip(count) == before + written,
{
    if count >= before.len() {
        assert((before + written).take(count) =~= before + written.take(count - before.len()));
    } else {
        assert((before + written).take(count) =~= before.take(count));
    }
    assert((before + written).take(count) + (before + written).skip(count) =~= before + written);
}

/// Two reads hand over what a single read with the room of both would have handed over.
pub proof fn law_reads_add_up(available: Seq<u8>, first: int, second: int)
    requires
        0 <= first,
        0 <= second,
    ensures
        ({
            let n = taken(available, first);
            let rest = available.skip(n);
            let m = taken(rest, second);
            &&& n + m == taken(available, first + second)
            &&& available.take(n) + rest.take(m) == available.take(n + m)
            &&& rest.skip(m) == available.skip(n + m)
        }),
{
    let n = taken(available, first);
    let rest = available.skip(n);
    let m = taken(rest, second);
    assert(available.take(n) + rest.take(m) =~= available.take(n + m));
    assert(rest.skip(m) =~= available.skip(n + m));
}

/// A read hands over as many bytes as possible: all that are there, unless there is less room.
pub proof fn law_taken(available: Seq<u8>, room: int)
    requires
        0 <= room,
    ensures
        taken(available, room) <= room,
        taken(available, room) <= available.len(),
        taken(available, room) == room || taken(available, room) == available.len(),
{
}

} // verus!
