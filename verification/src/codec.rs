//! Framing of messages on a byte stream: every message travels as a frame,
//! its length in four bytes and then its bytes. One codec serves one kind of
//! message; [`EnCodec`] writes frames, and the `Codec` of [`block`], [`tx`]
//! and [`proto`] reads them.

use vstd::prelude::*;
use bytes::BytesMut;
use tokio_util::codec::LengthDelimitedCodec;

pub mod block;
pub mod frame;
pub mod proto;
pub mod stream;
pub mod tx;

use frame::{decode_step, Outcome, MAX_FRAME_LEN};
use stream::{
    awaited_payload, buffered, decode_length_delimited, encode_length_delimited,
    framing_is_default, new_length_delimited,
};

verus! {

/// Why a frame could not be written or read.
#[derive(Debug, Clone, Copy, PartialEq, Eq, Structural)]
pub enum CodecError {
    /// The payload to send is larger than a frame may carry.
    PayloadTooLarge,
    /// The stream announces a frame larger than any that is accepted.
    FrameTooLarge,
}

/// What a result of decoding means for the stream.
pub open spec fn outcome_of(res: Result<Option<Vec<u8>>, CodecError>) -> Outcome {
    match res {
        Ok(Some(payload)) => Outcome::Frame(payload@),
        Ok(None) => Outcome::NeedMore,
        Err(_) => Outcome::TooLarge,
    }
}

/// One attempt to take a frame from the front of `src`.
pub(crate) fn decode_frame(codec: &mut LengthDelimitedCodec, src: &mut BytesMut) -> (res: Result<
    Option<Vec<u8>>,
    CodecError,
>)
    requires
        framing_is_default(*old(codec)),
    ensures
        framing_is_default(*final(codec)),
        awaited_payload(*final(codec)) == decode_step(
            awaited_payload(*old(codec)),
            buffered(*old(src)),
        ).awaited,
        buffered(*final(src)) == decode_step(
            awaited_payload(*old(codec)),
            buffered(*old(src)),
        ).rest,
        outcome_of(res) == decode_step(awaited_payload(*old(codec)), buffered(*old(src))).outcome,
        res matches Err(e) ==> e == CodecError::FrameTooLarge,
{
    match decode_length_delimited(codec, src) {
        Ok(found) => Ok(found),
        Err(_) => Err(CodecError::FrameTooLarge),
    }
}

/// The writing side of every connection: it turns payloads into frames.
pub struct EnCodec(pub LengthDelimitedCodec);

impl EnCodec {
    /// Whether the codec frames as this crate's wire format says.
    pub open spec fn wf(&self) -> bool {
        framing_is_default(self.0)
    }

    /// A codec for a new connection.
    pub fn new() -> (codec: Self)
        ensures
            codec.wf(),
    {
        EnCodec(new_length_delimited())
    }

    /// Appends the frame of the payload `data` to `dst`.
    ///
    /// A payload of more than [`MAX_FRAME_LEN`] bytes is refused, and `dst`
    /// stays as it is. Nothing else fails.
    pub fn encode(&mut self, data: Vec<u8>, dst: &mut BytesMut) -> (res: Result<(), CodecError>)
        requires
            old(self).wf(),
        ensures
            final(self).wf(),
            res is Ok <==> data@.len() <= MAX_FRAME_LEN,
            res is Ok ==> buffered(*final(dst)) == buffered(*old(dst)) + frame::frame(data@),
            res matches Err(e) ==> e == CodecError::PayloadTooLarge && buffered(*final(dst))
                == buffered(*old(dst)),
    {
        match encode_length_delimited(&mut self.0, data, dst) {
            Ok(()) => Ok(()),
            Err(_) => Err(CodecError::PayloadTooLarge),
        }
    }
}

impl Clone for EnCodec {
    /// A duplicate is a codec for a new connection.
    fn clone(&self) -> (dup: Self)
        ensures
            dup.wf(),
    {
        EnCodec::new()
    }
}

} // verus!
