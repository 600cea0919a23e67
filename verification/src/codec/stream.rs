//! The length-delimited codec of `tokio_util` and the byte buffer of `bytes`,
//! as far as the framing relies on them. Nothing in this file is proved: each
//! contract states what the named function does, and the rest of the crate
//! builds on it.

use vstd::prelude::*;
use bytes::Bytes;
use bytes::BytesMut;
use tokio_util::codec::Decoder;
use tokio_util::codec::Encoder;
use tokio_util::codec::LengthDelimitedCodec;
use super::frame::{decode_step, frame, Outcome, MAX_FRAME_LEN};

verus! {

/// `bytes::BytesMut`, a growable buffer of bytes. Its contents are
/// [`buffered`].
#[verifier::external_type_specification]
#[verifier::external_body]
pub struct ExBytesMut(bytes::BytesMut);

/// `tokio_util::codec::LengthDelimitedCodec`. What matters of one is whether
/// its settings are the default ones ([`framing_is_default`]) and where it
/// stands in its stream ([`awaited_payload`]).
#[verifier::external_type_specification]
#[verifier::external_body]
pub struct ExLengthDelimitedCodec(tokio_util::codec::LengthDelimitedCodec);

/// `std::io::Error`, the error of the codec. It is only carried.
#[verifier::external_type_specification]
#[verifier::external_body]
pub struct ExIoError(std::io::Error);

/// The bytes that the buffer holds, first to last.
pub uninterp spec fn buffered(buf: BytesMut) -> Seq<u8>;

/// Whether the codec has the settings that `LengthDelimitedCodec::new` gives:
/// a length field of four bytes at the start of the frame, most significant
/// byte first, which counts the payload alone and is not part of what is
/// handed out, and a limit of eight mebibytes on the payload.
pub uninterp spec fn framing_is_default(codec: LengthDelimitedCodec) -> bool;

/// The decoding state of the codec: `Some(n)` once it has taken a length
/// prefix that declares `n` bytes out of its buffer and has not handed out
/// the payload yet, `None` otherwise.
pub uninterp spec fn awaited_payload(codec: LengthDelimitedCodec) -> Option<usize>;

/// `LengthDelimitedCodec::new`: the codec has the default settings and
/// stands between frames.
#[verifier::external_body]
pub(crate) fn new_length_delimited() -> (codec: LengthDelimitedCodec)
    ensures
        framing_is_default(codec),
        awaited_payload(codec) is None,
{
    LengthDelimitedCodec::new()
}

/// `<LengthDelimitedCodec as Encoder<Bytes>>::encode`, with the payload
/// turned into `Bytes`. With the default settings it fails exactly on a
/// payload above the limit, and then writes nothing; otherwise it appends the
/// payload's frame to the buffer. The codec itself is left as it was.
#[verifier::external_body]
pub(crate) fn encode_length_delimited(
    codec: &mut LengthDelimitedCodec,
    data: Vec<u8>,
    dst: &mut BytesMut,
) -> (res: Result<(), std::io::Error>)
    requires
        framing_is_default(*old(codec)),
    ensures
        framing_is_default(*final(codec)),
        awaited_payload(*final(codec)) == awaited_payload(*old(codec)),
        res is Ok <==> data@.len() <= MAX_FRAME_LEN,
        res is Ok ==> buffered(*final(dst)) == buffered(*old(dst)) + frame(data@),
        res is Err ==> buffered(*final(dst)) == buffered(*old(dst)),
{
    codec.encode(Bytes::from(data), dst)
}

/// `<LengthDelimitedCodec as Decoder>::decode`, with the payload copied out
/// of the `BytesMut` it comes in. With the default settings the codec and its
/// buffer go through one [`decode_step`]: the result is the payload of a
/// whole frame, nothing while the frame is incomplete, and an error for a
/// length prefix above the limit.
#[verifier::external_body]
pub(crate) fn decode_length_delimited(codec: &mut LengthDelimitedCodec, src: &mut BytesMut) -> (res:
    Result<Option<Vec<u8>>, std::io::Error>)
    requires
        framing_is_default(*old(codec)),
    ensures
        framing_is_default(*final(codec)),
        awaited_payload(*final(codec)) == decode_step(
            awaited_payload(*old(codec)),
            buffered(*old(src)),
        ).awaited,
        buffered(*final(src)) == decode_step(
            awaited_payload(*old(codec)),
            buffered(*old(src)),
        ).rest,
        decode_step(awaited_payload(*old(codec)), buffered(*old(src))).outcome == match res {
            Ok(Some(payload)) => Outcome::Frame(payload@),
            Ok(None) => Outcome::NeedMore,
            Err(_) => Outcome::TooLarge,
        },
{
    match codec.decode(src) {
        Ok(Some(payload)) => Ok(Some(payload.to_vec())),
        Ok(None) => Ok(None),
        Err(e) => Err(e),
    }
}

} // verus!
