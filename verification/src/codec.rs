//! Wire framing: one message per line. An encoded message is its bytes
//! followed by a single newline; the decoder buffers bytes until a newline
//! is found and hands back everything before it. Message boundaries are
//! exactly newline-delimited, whatever the payload size; turning a line's
//! bytes into a message value (and back) is the surrounding process's job.

use core::marker::PhantomData;

use vstd::prelude::*;

verus! {

/// The frame delimiter.
pub const NEWLINE: u8 = 10;

/// The line-delimited framing codec for the messages of a payload type.
pub struct MessagesCodec<T> {
    /// The scan offset kept across decode calls.
    pub next_index: usize,
    /// Marks the codec with the payload type its frames carry.
    pub phantom: PhantomData<T>,
}

impl<T> MessagesCodec<T> {
    /// Creates a codec with an empty scan state.
    pub fn new() -> (r: Self)
        ensures
            r.next_index == 0,
    {
        MessagesCodec { next_index: 0, phantom: PhantomData }
    }

    /// Extracts one frame from the buffer: when a newline is present, the
    /// bytes before the first one are returned and the frame (newline
    /// included) is removed from the buffer; otherwise the buffer is left
    /// untouched until more bytes arrive. The length of the returned line
    /// doubles as the index of the newline that ended it.
    pub fn decode(&mut self, buf: &mut Vec<u8>) -> (r: Option<Vec<u8>>)
        ensures
            *final(self) == *old(self),
            match r {
                Option::None => {
                    &&& final(buf)@ == old(buf)@
                    &&& forall|j: int| 0 <= j < old(buf)@.len() ==> old(buf)@[j] != NEWLINE
                },
                Option::Some(line) => {
                    let k = line@.len() as int;
                    &&& k < old(buf)@.len()
                    &&& old(buf)@[k] == NEWLINE
                    &&& forall|j: int| 0 <= j < k ==> old(buf)@[j] != NEWLINE
                    &&& line@ == old(buf)@.take(k)
                    &&& final(buf)@ == old(buf)@.skip(k + 1)
                },
            },
    {
        let mut i: usize = 0;
        let mut found = false;
        while i < buf.len() && !found
            invariant
                i <= buf@.len(),
                buf@ == old(buf)@,
                forall|j: int| 0 <= j < i ==> buf@[j] != NEWLINE,
                found ==> i < buf@.len() && buf@[i as int] == NEWLINE,
            decreases buf@.len() - i + (if found {
                0int
            } else {
                1int
            }),
        {
            if buf[i] == NEWLINE {
                found = true;
            } else {
                i = i + 1;
            }
        }
        if !found {
            return None;
        }
        let mut line: Vec<u8> = Vec::new();
        let mut j: usize = 0;
        while j < i
            invariant
                j <= i,
                i < buf@.len(),
                buf@ == old(buf)@,
                line@ == buf@.take(j as int),
            decreases i - j,
        {
            line.push(buf[j]);
            proof {
                assert(line@ =~= buf@.take(j + 1 as int));
            }
            j = j + 1;
        }
        let mut rest: Vec<u8> = Vec::new();
        let mut k: usize = i + 1;
        while k < buf.len()
            invariant
                i + 1 <= k <= buf@.len(),
                buf@ == old(buf)@,
                rest@ == buf@.subrange(i + 1 as int, k as int),
            decreases buf@.len() - k,
        {
            rest.push(buf[k]);
            proof {
                assert(rest@ =~= buf@.subrange(i + 1 as int, k + 1 as int));
            }
            k = k + 1;
        }
        *buf = rest;
        proof {
            assert(buf@ =~= old(buf)@.skip(i + 1 as int));
        }
        Some(line)
    }

    /// Appends one frame to the outgoing buffer: the message bytes followed
    /// by a newline.
    pub fn encode(&mut self, msg: &Vec<u8>, buf: &mut Vec<u8>)
        ensures
            *final(self) == *old(self),
            final(buf)@ == old(buf)@ + msg@ + seq![NEWLINE],
    {
        let mut j: usize = 0;
        while j < msg.len()
            invariant
                j <= msg@.len(),
                buf@ == old(buf)@ + msg@.take(j as int),
            decreases msg@.len() - j,
        {
            buf.push(msg[j]);
            proof {
                assert(buf@ =~= old(buf)@ + msg@.take(j + 1 as int));
            }
            j = j + 1;
        }
        buf.push(NEWLINE);
        proof {
            assert(msg@.take(msg@.len() as int) =~= msg@);
            assert(buf@ =~= old(buf)@ + msg@ + seq![NEWLINE]);
        }
    }
}

} // verus!
