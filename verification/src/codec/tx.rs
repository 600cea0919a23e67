//! The reading side of a connection that carries transactions.

use vstd::prelude::*;
use bytes::BytesMut;
use tokio_util::codec::LengthDelimitedCodec;
use super::frame::decode_step;
use super::stream::{awaited_payload, buffered, framing_is_default, new_length_delimited};
use super::{decode_frame, outcome_of, CodecError};

verus! {

/// The decoder of one connection that carries transactions. A replica reads the transactions that clients send it.
pub struct Codec(pub LengthDelimitedCodec);

impl Codec {
    /// Whether the codec frames as this crate's wire format says.
    pub open spec fn wf(&self) -> bool {
        framing_is_default(self.0)
    }

    /// Where the decoder stands: the payload length of the frame whose
    /// length prefix it has taken from the buffer already, or `None` between
    /// frames.
    pub open spec fn awaited(&self) -> Option<usize> {
        awaited_payload(self.0)
    }

    /// A decoder for a new connection. It stands between frames.
    pub fn new() -> (codec: Self)
        ensures
            codec.wf(),
            codec.awaited() is None,
    {
        Codec(new_length_delimited())
    }

    /// Tries to take one frame from the front of `src`, the bytes received
    /// and not yet decoded, and hands out its payload.
    ///
    /// The decoder and the buffer go through one [`decode_step`]. While a
    /// frame is incomplete the answer is `Ok(None)`, and the call can be
    /// repeated when more bytes have come in. A length prefix above the limit
    /// ends the connection: it gives `FrameTooLarge`, now and on every later
    /// call.
    pub fn decode(&mut self, src: &mut BytesMut) -> (res: Result<Option<Vec<u8>>, CodecError>)
        requires
            old(self).wf(),
        ensures
            final(self).wf(),
            final(self).awaited() == decode_step(old(self).awaited(), buffered(*old(src))).awaited,
            buffered(*final(src)) == decode_step(old(self).awaited(), buffered(*old(src))).rest,
            outcome_of(res) == decode_step(old(self).awaited(), buffered(*old(src))).outcome,
            res matches Err(e) ==> e == CodecError::FrameTooLarge,
    {
        decode_frame(&mut self.0, src)
    }
}

impl Clone for Codec {
    /// A duplicate is a decoder for a new connection: it stands between
    /// frames, wherever the original stands.
    fn clone(&self) -> (dup: Self)
        ensures
            dup.wf(),
            dup.awaited() is None,
    {
        Codec::new()
    }
}

} // verus!
