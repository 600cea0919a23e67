//! The wire format, as mathematics: a frame is a four-byte length, most
//! significant byte first, and then that many bytes of payload. A decoder is
//! a small machine over a buffer of received bytes.

use vstd::prelude::*;

verus! {

/// The bytes of a frame's length prefix.
pub const HEAD_LEN: usize = 4;

/// The largest payload that is framed or accepted: eight mebibytes.
pub const MAX_FRAME_LEN: usize = 8_388_608;

/// The length prefix for a payload of `n` bytes.
pub open spec fn length_prefix(n: nat) -> Seq<u8> {
    seq![
        ((n / 0x100_0000) % 0x100) as u8,
        ((n / 0x1_0000) % 0x100) as u8,
        ((n / 0x100) % 0x100) as u8,
        (n % 0x100) as u8,
    ]
}

/// The length that the four bytes `head` declare.
pub open spec fn prefix_value(head: Seq<u8>) -> nat
    recommends
        head.len() == HEAD_LEN,
{
    (head[0] * 0x100_0000 + head[1] * 0x1_0000 + head[2] * 0x100 + head[3]) as nat
}

/// The frame that carries `payload`.
pub open spec fn frame(payload: Seq<u8>) -> Seq<u8> {
    length_prefix(payload.len()) + payload
}

/// What one attempt to decode gives.
pub enum Outcome {
    /// A whole frame was there: this is its payload.
    Frame(Seq<u8>),
    /// The buffer ends before the frame does.
    NeedMore,
    /// The length prefix declares more than [`MAX_FRAME_LEN`] bytes.
    TooLarge,
}

/// A decoder and its buffer after one attempt to decode.
pub struct Step {
    /// The payload length of the frame whose prefix has been taken from the
    /// buffer while its payload has not; `None` between frames.
    pub awaited: Option<usize>,
    /// The bytes left in the buffer.
    pub rest: Seq<u8>,
    /// What the attempt gave.
    pub outcome: Outcome,
}

/// An attempt to take a payload of `n` bytes from the front of `buf`.
pub open spec fn take_payload(n: usize, buf: Seq<u8>) -> Step {
    if buf.len() < n {
        Step { awaited: Some(n), rest: buf, outcome: Outcome::NeedMore }
    } else {
        Step { awaited: None, rest: buf.skip(n as int), outcome: Outcome::Frame(buf.take(n as int)) }
    }
}

/// One attempt to decode: a decoder that stands at `awaited` looks at the
/// buffer `buf`.
///
/// Between frames it needs the whole prefix before it does anything. A prefix
/// that declares too much is an error and is left in the buffer. Any other
/// prefix is taken out, and the decoder then waits for that many bytes of
/// payload, which it hands out in one piece.
pub open spec fn decode_step(awaited: Option<usize>, buf: Seq<u8>) -> Step {
    match awaited {
        Some(n) => take_payload(n, buf),
        None => {
            if buf.len() < HEAD_LEN {
                Step { awaited: None, rest: buf, outcome: Outcome::NeedMore }
            } else if prefix_value(buf.take(HEAD_LEN as int)) > MAX_FRAME_LEN {
                Step { awaited: None, rest: buf, outcome: Outcome::TooLarge }
            } else {
                take_payload(
                    prefix_value(buf.take(HEAD_LEN as int)) as usize,
                    buf.skip(HEAD_LEN as int),
                )
            }
        },
    }
}

/// A length that fits in four bytes is read back from its prefix.
pub proof fn lemma_prefix_value_of_length_prefix(n: nat)
    requires
        n < 0x1_0000_0000,
    ensures
        length_prefix(n).len() == HEAD_LEN,
        prefix_value(length_prefix(n)) == n,
{
    assert(n == (n / 0x100_0000) * 0x100_0000 + ((n / 0x1_0000) % 0x100) * 0x1_0000 + ((n
        / 0x100) % 0x100) * 0x100 + n % 0x100) by (nonlinear_arith)
        requires
            n < 0x1_0000_0000,
    ;
    assert((n / 0x100_0000) % 0x100 == n / 0x100_0000) by (nonlinear_arith)
        requires
            n < 0x1_0000_0000,
    ;
}

/// Decoding gives back what was framed: a decoder between frames that finds
/// the frame of `payload` at the front of its buffer hands out `payload`,
/// whole and unchanged, and leaves in the buffer exactly what followed the
/// frame. This holds for the empty payload and for the largest one.
pub proof fn lemma_decode_inverts_frame(payload: Seq<u8>, tail: Seq<u8>)
    requires
        payload.len() <= MAX_FRAME_LEN,
    ensures
        decode_step(None, frame(payload) + tail) == (Step {
            awaited: None,
            rest: tail,
            outcome: Outcome::Frame(payload),
        }),
{
    let buf = frame(payload) + tail;
    lemma_prefix_value_of_length_prefix(payload.len());
    assert(buf.take(HEAD_LEN as int) == length_prefix(payload.len()));
    assert(buf.skip(HEAD_LEN as int) == payload + tail);
    assert((payload + tail).take(payload.len() as int) == payload);
    assert((payload + tail).skip(payload.len() as int) == tail);
}

/// A frame that arrives in two pieces is decoded once, when the second piece
/// is there: from the first `k` bytes of the frame of `payload`, for any `k`
/// short of the whole frame, a decoder gets no frame; once the remaining
/// bytes have been added to its buffer, it hands out `payload` and the buffer
/// is empty.
pub proof fn lemma_partial_frame_waits(payload: Seq<u8>, k: int)
    requires
        payload.len() <= MAX_FRAME_LEN,
        0 <= k < frame(payload).len(),
    ensures
        decode_step(None, frame(payload).take(k)).outcome == Outcome::NeedMore,
        ({
            let first = decode_step(None, frame(payload).take(k));
            decode_step(first.awaited, first.rest + frame(payload).skip(k)) == (Step {
                awaited: None,
                rest: Seq::<u8>::empty(),
                outcome: Outcome::Frame(payload),
            })
        }),
{
    let whole = frame(payload);
    let early = whole.take(k);
    let late = whole.skip(k);
    let first = decode_step(None, early);
    lemma_prefix_value_of_length_prefix(payload.len());
    lemma_decode_inverts_frame(payload, Seq::<u8>::empty());
    assert(whole + Seq::<u8>::empty() == whole);
    if k < HEAD_LEN {
        assert(first.rest + late == whole);
    } else {
        assert(early.take(HEAD_LEN as int) == length_prefix(payload.len()));
        assert(early.skip(HEAD_LEN as int) == payload.take(k - HEAD_LEN));
        assert(first.rest + late == payload);
        assert(payload.take(payload.len() as int) == payload);
        assert(payload.skip(payload.len() as int) == Seq::<u8>::empty());
    }
}

/// Two decoders do not mix their streams: let each of two decoders between
/// frames get the frame of its own payload in two pieces, the four pieces
/// arriving in turn. Then each hands out its own payload, and nothing else.
pub proof fn lemma_streams_stay_apart(one: Seq<u8>, other: Seq<u8>, k: int, l: int)
    requires
        one.len() <= MAX_FRAME_LEN,
        other.len() <= MAX_FRAME_LEN,
        0 <= k < frame(one).len(),
        0 <= l < frame(other).len(),
    ensures
        ({
            let a1 = decode_step(None, frame(one).take(k));
            let b1 = decode_step(None, frame(other).take(l));
            let a2 = decode_step(a1.awaited, a1.rest + frame(one).skip(k));
            let b2 = decode_step(b1.awaited, b1.rest + frame(other).skip(l));
            &&& a1.outcome == Outcome::NeedMore
            &&& b1.outcome == Outcome::NeedMore
            &&& a2.outcome == Outcome::Frame(one)
            &&& b2.outcome == Outcome::Frame(other)
            &&& a2.awaited is None && a2.rest.len() == 0
            &&& b2.awaited is None && b2.rest.len() == 0
        }),
{
    lemma_partial_frame_waits(one, k);
    lemma_partial_frame_waits(other, l);
}

} // verus!
