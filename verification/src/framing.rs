//! Newline-delimited framing of a byte stream.
//!
//! A sender writes each payload followed by one delimiter byte. A receiver
//! appends whatever arrives to a [`FrameBuffer`] and takes the complete
//! frames out of it; frames that hold no byte are skipped, and bytes behind
//! the last delimiter wait for more input.

use crate::buffer::{bytes_contents, bytes_mut_as_slice, bytes_mut_contents};
use bytes::{Buf, Bytes, BytesMut};
use vstd::prelude::*;

verus! {

/// The byte that ends a frame: a line feed.
pub const FRAME_DELIMITER: u8 = 10;

/// The capacity a fresh [`FrameBuffer`] starts with.
pub const FRAME_BUFFER_CAPACITY: usize = 4096;

/// The index of the first delimiter in `bytes`, if there is one.
pub open spec fn first_delimiter(bytes: Seq<u8>) -> Option<int>
    decreases bytes.len(),
{
    if bytes.len() == 0 {
        None
    } else if bytes[0] == FRAME_DELIMITER {
        Some(0)
    } else {
        match first_delimiter(bytes.drop_first()) {
            Some(i) => Some(i + 1),
            None => None,
        }
    }
}

/// The complete, non-empty frames in `bytes`, in order.
pub open spec fn frames(bytes: Seq<u8>) -> Seq<Seq<u8>>
    decreases bytes.len(),
{
    match first_delimiter(bytes) {
        Some(i) if 0 <= i < bytes.len() => {
            let head = bytes.subrange(0, i);
            let rest = frames(bytes.subrange(i + 1, bytes.len() as int));
            if head.len() == 0 {
                rest
            } else {
                seq![head] + rest
            }
        },
        _ => Seq::empty(),
    }
}

/// What is left of `bytes` behind its last delimiter: the start of a frame
/// that is not complete yet.
pub open spec fn remainder(bytes: Seq<u8>) -> Seq<u8>
    decreases bytes.len(),
{
    match first_delimiter(bytes) {
        Some(i) if 0 <= i < bytes.len() => remainder(bytes.subrange(i + 1, bytes.len() as int)),
        _ => bytes,
    }
}

/// What each of the given buffers holds.
pub open spec fn payloads(items: Seq<Bytes>) -> Seq<Seq<u8>> {
    Seq::new(items.len(), |i: int| bytes_contents(items[i]))
}

/// `first_delimiter` finds a delimiter, and there is none before it.
pub proof fn lemma_first_delimiter(bytes: Seq<u8>)
    ensures
        match first_delimiter(bytes) {
            Some(i) => {
                &&& 0 <= i < bytes.len()
                &&& bytes[i] == FRAME_DELIMITER
                &&& forall|j: int| 0 <= j < i ==> bytes[j] != FRAME_DELIMITER
            },
            None => forall|j: int| 0 <= j < bytes.len() ==> bytes[j] != FRAME_DELIMITER,
        },
    decreases bytes.len(),
{
    if bytes.len() > 0 && bytes[0] != FRAME_DELIMITER {
        let tail = bytes.drop_first();
        lemma_first_delimiter(tail);
        match first_delimiter(tail) {
            Some(i) => {
                assert forall|j: int| 0 <= j < i + 1 implies bytes[j] != FRAME_DELIMITER by {
                    if j > 0 {
                        assert(bytes[j] == tail[j - 1]);
                    }
                }
            },
            None => {
                assert forall|j: int| 0 <= j < bytes.len() implies bytes[j] != FRAME_DELIMITER by {
                    if j > 0 {
                        assert(bytes[j] == tail[j - 1]);
                    }
                }
            },
        }
    }
}

/// An index that holds a delimiter with none before it is the first one.
pub proof fn lemma_first_delimiter_at(bytes: Seq<u8>, i: int)
    requires
        0 <= i < bytes.len(),
        bytes[i] == FRAME_DELIMITER,
        forall|j: int| 0 <= j < i ==> bytes[j] != FRAME_DELIMITER,
    ensures
        first_delimiter(bytes) == Some(i),
{
    lemma_first_delimiter(bytes);
}

/// Reading a stream in pieces gives the frames that reading it whole gives:
/// the frames of `a` followed by `b` are those of `a`, then those of what
/// `a` left over followed by `b`.
pub proof fn lemma_frames_of_stream(a: Seq<u8>, b: Seq<u8>)
    ensures
        frames(a + b) == frames(a) + frames(remainder(a) + b),
        remainder(a + b) == remainder(remainder(a) + b),
    decreases a.len(),
{
    lemma_first_delimiter(a);
    match first_delimiter(a) {
        Some(i) => {
            lemma_first_delimiter_at(a + b, i);
            let rest = a.subrange(i + 1, a.len() as int);
            assert((a + b).subrange(i + 1, (a + b).len() as int) =~= rest + b);
            assert((a + b).subrange(0, i) =~= a.subrange(0, i));
            lemma_frames_of_stream(rest, b);
            assert(frames(a + b) =~= frames(a) + frames(remainder(a) + b));
        },
        None => {
            assert(frames(a) + frames(a + b) =~= frames(a + b));
        },
    }
}

/// A payload that is sent comes out as sent: a payload that holds at least
/// one byte and no delimiter is, once framed, the one frame of the stream,
/// and nothing is left over.
pub proof fn lemma_frame_round_trip(payload: Seq<u8>)
    requires
        payload.len() > 0,
        forall|i: int| 0 <= i < payload.len() ==> payload[i] != FRAME_DELIMITER,
    ensures
        frames(payload.push(FRAME_DELIMITER)) == seq![payload],
        remainder(payload.push(FRAME_DELIMITER)) == Seq::<u8>::empty(),
{
    let wire = payload.push(FRAME_DELIMITER);
    lemma_first_delimiter_at(wire, payload.len() as int);
    assert(wire.subrange(0, payload.len() as int) =~= payload);
    let rest = wire.subrange(payload.len() as int + 1, wire.len() as int);
    assert(rest =~= Seq::<u8>::empty());
    assert(frames(rest) =~= Seq::<Seq<u8>>::empty());
    assert(frames(wire) =~= seq![payload]);
    assert(remainder(rest) == rest);
    assert(remainder(wire) == remainder(rest));
}

/// The position of the first delimiter in `bytes`.
pub fn find_delimiter(bytes: &[u8]) -> (found: Option<usize>)
    ensures
        match found {
            Some(i) => first_delimiter(bytes@) == Some(i as int),
            None => first_delimiter(bytes@) is None,
        },
{
    let mut i: usize = 0;
    while i < bytes.len()
        invariant
            i <= bytes.len(),
            forall|j: int| 0 <= j < i ==> bytes@[j] != FRAME_DELIMITER,
        decreases bytes.len() - i,
    {
        if bytes[i] == FRAME_DELIMITER {
            proof {
                lemma_first_delimiter_at(bytes@, i as int);
            }
            return Some(i);
        }
        i += 1;
    }
    proof {
        lemma_first_delimiter(bytes@);
    }
    None
}

/// A payload as it goes on the wire: its bytes, then one delimiter.
pub fn encode_frame(payload: &[u8]) -> (frame: Vec<u8>)
    ensures
        frame@ == payload@.push(FRAME_DELIMITER),
{
    let mut frame: Vec<u8> = Vec::new();
    let mut i: usize = 0;
    while i < payload.len()
        invariant
            i <= payload.len(),
            frame@ == payload@.subrange(0, i as int),
        decreases payload.len() - i,
    {
        frame.push(payload[i]);
        i += 1;
    }
    assert(payload@.subrange(0, payload.len() as int) == payload@);
    frame.push(FRAME_DELIMITER);
    frame
}

/// The receiving end of a framed byte stream: bytes that have arrived and
/// have not been handed out as frames yet.
pub struct FrameBuffer {
    buffer: BytesMut,
}

impl FrameBuffer {
    /// The bytes that wait in the buffer, oldest first.
    pub closed spec fn pending(&self) -> Seq<u8> {
        bytes_mut_contents(self.buffer)
    }

    /// An empty buffer.
    pub fn new() -> (fb: Self)
        ensures
            fb.pending() == Seq::<u8>::empty(),
    {
        FrameBuffer { buffer: BytesMut::with_capacity(FRAME_BUFFER_CAPACITY) }
    }

    /// The number of bytes that wait in the buffer.
    pub fn len(&self) -> (n: usize)
        ensures
            n == self.pending().len(),
    {
        self.buffer.len()
    }

    /// Appends a chunk that was read from the stream. Buffer and chunk
    /// together must not hold more bytes than can be counted.
    pub fn extend(&mut self, chunk: &[u8])
        requires
            old(self).pending().len() + chunk@.len() <= usize::MAX,
        ensures
            final(self).pending() == old(self).pending() + chunk@,
    {
        self.buffer.extend_from_slice(chunk);
    }

    /// Takes every complete frame out of the buffer, skipping those that
    /// hold no byte, and keeps what follows the last delimiter.
    pub fn drain_frames(&mut self) -> (out: Vec<Bytes>)
        ensures
            payloads(out@) == frames(old(self).pending()),
            final(self).pending() == remainder(old(self).pending()),
    {
        let mut out: Vec<Bytes> = Vec::new();
        let mut next = find_delimiter(bytes_mut_as_slice(&self.buffer));
        assert(payloads(out@) + frames(self.pending()) == frames(old(self).pending()));
        while next.is_some()
            invariant
                payloads(out@) + frames(self.pending()) == frames(old(self).pending()),
                remainder(self.pending()) == remainder(old(self).pending()),
                match next {
                    Some(i) => first_delimiter(self.pending()) == Some(i as int),
                    None => first_delimiter(self.pending()) is None,
                },
            decreases self.pending().len(),
        {
            let pos = next.unwrap();
            let ghost before = self.pending();
            let ghost taken = payloads(out@);
            proof {
                lemma_first_delimiter(before);
            }
            let frame = self.buffer.split_to(pos);
            self.buffer.advance(1);
            assert(self.pending() == before.subrange(pos + 1, before.len() as int));
            if !frame.is_empty() {
                let frozen = frame.freeze();
                out.push(frozen);
                assert(payloads(out@) == taken + seq![before.subrange(0, pos as int)]);
            }
            assert(payloads(out@) + frames(self.pending()) == taken + frames(before));
            next = find_delimiter(bytes_mut_as_slice(&self.buffer));
        }
        assert(frames(self.pending()) == Seq::<Seq<u8>>::empty());
        out
    }
}

} // verus!
