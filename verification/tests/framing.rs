use bft_node::codec::block;
use bft_node::codec::frame::{HEAD_LEN, MAX_FRAME_LEN};
use bft_node::codec::proto;
use bft_node::codec::tx;
use bft_node::codec::{CodecError, EnCodec};
use bytes::BytesMut;

fn framed(payload: &[u8]) -> Vec<u8> {
    let mut dst = BytesMut::new();
    EnCodec::new().encode(payload.to_vec(), &mut dst).unwrap();
    dst.to_vec()
}

fn sample(len: usize) -> Vec<u8> {
    (0..len).map(|i| (i * 31 + 7) as u8).collect()
}

#[test]
fn limits_of_the_format() {
    assert_eq!(HEAD_LEN, 4);
    assert_eq!(MAX_FRAME_LEN, 8 * 1024 * 1024);
}

#[test]
fn frame_is_big_endian_length_then_payload() {
    assert_eq!(framed(&[1, 2, 3]), vec![0, 0, 0, 3, 1, 2, 3]);
    assert_eq!(framed(b"hello world"), b"\x00\x00\x00\x0bhello world".to_vec());
    let long = framed(&sample(0x1_02_03));
    assert_eq!(&long[..4], &[0x00, 0x01, 0x02, 0x03]);
    assert_eq!(&long[4..], &sample(0x1_02_03)[..]);
}

#[test]
fn empty_payload_is_a_frame_of_four_zero_bytes() {
    assert_eq!(framed(&[]), vec![0, 0, 0, 0]);
    let mut src = BytesMut::from(&[0u8, 0, 0, 0][..]);
    assert_eq!(tx::Codec::new().decode(&mut src), Ok(Some(Vec::new())));
    assert!(src.is_empty());
}

#[test]
fn encoding_appends_to_what_is_there() {
    let mut codec = EnCodec::new();
    let mut dst = BytesMut::from(&[9u8, 9][..]);
    assert_eq!(codec.encode(vec![5], &mut dst), Ok(()));
    assert_eq!(codec.encode(vec![6, 7], &mut dst), Ok(()));
    assert_eq!(dst.to_vec(), vec![9, 9, 0, 0, 0, 1, 5, 0, 0, 0, 2, 6, 7]);
}

#[test]
fn largest_payload_is_framed_and_read_back() {
    let payload = sample(MAX_FRAME_LEN);
    let mut dst = BytesMut::new();
    assert_eq!(EnCodec::new().encode(payload.clone(), &mut dst), Ok(()));
    assert_eq!(dst.len(), MAX_FRAME_LEN + 4);
    assert_eq!(&dst[..4], &[0x00, 0x80, 0x00, 0x00]);
    assert_eq!(block::Codec::new().decode(&mut dst), Ok(Some(payload)));
    assert!(dst.is_empty());
}

#[test]
fn payload_above_the_limit_is_refused() {
    let mut codec = EnCodec::new();
    let mut dst = BytesMut::from(&[1u8, 2, 3][..]);
    assert_eq!(
        codec.encode(vec![0u8; MAX_FRAME_LEN + 1], &mut dst),
        Err(CodecError::PayloadTooLarge)
    );
    assert_eq!(dst.to_vec(), vec![1, 2, 3]);
    // the codec goes on working
    assert_eq!(codec.encode(vec![4], &mut dst), Ok(()));
    assert_eq!(dst.to_vec(), vec![1, 2, 3, 0, 0, 0, 1, 4]);
}

#[test]
fn decode_gives_back_what_was_encoded() {
    for len in [0usize, 1, 2, 3, 4, 5, 255, 256, 257, 65535, 65536, 70000] {
        let payload = sample(len);
        let mut buf = BytesMut::from(&framed(&payload)[..]);
        assert_eq!(tx::Codec::new().decode(&mut buf), Ok(Some(payload.clone())));
        assert!(buf.is_empty());
        let mut buf = BytesMut::from(&framed(&payload)[..]);
        assert_eq!(block::Codec::new().decode(&mut buf), Ok(Some(payload.clone())));
        assert!(buf.is_empty());
        let mut buf = BytesMut::from(&framed(&payload)[..]);
        assert_eq!(proto::Codec::new().decode(&mut buf), Ok(Some(payload)));
        assert!(buf.is_empty());
    }
}

#[test]
fn frames_come_out_in_the_order_they_went_in() {
    let mut enc = EnCodec::new();
    let mut wire = BytesMut::new();
    let payloads = [sample(3), sample(0), sample(300), sample(1)];
    for p in payloads.iter() {
        enc.encode(p.clone(), &mut wire).unwrap();
    }
    let mut dec = proto::Codec::new();
    for p in payloads.iter() {
        assert_eq!(dec.decode(&mut wire), Ok(Some(p.clone())));
    }
    assert_eq!(dec.decode(&mut wire), Ok(None));
    assert!(wire.is_empty());
}

#[test]
fn decoding_leaves_what_follows_the_frame() {
    let mut buf = BytesMut::from(&[0u8, 0, 0, 2, 10, 20, 0, 0, 0][..]);
    let mut dec = tx::Codec::new();
    assert_eq!(dec.decode(&mut buf), Ok(Some(vec![10, 20])));
    assert_eq!(buf.to_vec(), vec![0, 0, 0]);
    assert_eq!(dec.decode(&mut buf), Ok(None));
    assert_eq!(buf.to_vec(), vec![0, 0, 0]);
}

#[test]
fn nothing_to_decode_in_an_empty_buffer() {
    let mut buf = BytesMut::new();
    let mut dec = block::Codec::new();
    assert_eq!(dec.decode(&mut buf), Ok(None));
    assert_eq!(dec.decode(&mut buf), Ok(None));
    assert!(buf.is_empty());
}

#[test]
fn every_proper_prefix_of_a_frame_gives_no_frame_yet() {
    for len in [0usize, 1, 5, 40] {
        let payload = sample(len);
        let wire = framed(&payload);
        for k in 0..wire.len() {
            let mut dec = tx::Codec::new();
            let mut buf = BytesMut::from(&wire[..k]);
            assert_eq!(dec.decode(&mut buf), Ok(None), "payload {} split at {}", len, k);
            assert_eq!(dec.decode(&mut buf), Ok(None));
            buf.extend_from_slice(&wire[k..]);
            assert_eq!(dec.decode(&mut buf), Ok(Some(payload.clone())));
            assert!(buf.is_empty());
            assert_eq!(dec.decode(&mut buf), Ok(None));
        }
    }
}

#[test]
fn length_prefix_is_taken_out_before_the_payload_is_there() {
    let mut dec = block::Codec::new();
    let mut buf = BytesMut::from(&[0u8, 0, 0, 3, 1][..]);
    assert_eq!(dec.decode(&mut buf), Ok(None));
    assert_eq!(buf.to_vec(), vec![1]);
    buf.extend_from_slice(&[2]);
    assert_eq!(dec.decode(&mut buf), Ok(None));
    assert_eq!(buf.to_vec(), vec![1, 2]);
    buf.extend_from_slice(&[3, 0]);
    assert_eq!(dec.decode(&mut buf), Ok(Some(vec![1, 2, 3])));
    assert_eq!(buf.to_vec(), vec![0]);
}

#[test]
fn frame_fed_byte_by_byte() {
    let payload = sample(9);
    let wire = framed(&payload);
    let mut dec = proto::Codec::new();
    let mut buf = BytesMut::new();
    for (i, byte) in wire.iter().enumerate() {
        buf.extend_from_slice(&[*byte]);
        let got = dec.decode(&mut buf);
        if i + 1 < wire.len() {
            assert_eq!(got, Ok(None));
        } else {
            assert_eq!(got, Ok(Some(payload.clone())));
        }
    }
}

#[test]
fn announced_frame_above_the_limit_is_an_error() {
    let mut dec = tx::Codec::new();
    let mut buf = BytesMut::from(&[0x00u8, 0x80, 0x00, 0x01, 1, 2, 3][..]);
    assert_eq!(dec.decode(&mut buf), Err(CodecError::FrameTooLarge));
    // nothing was consumed, and the error stays
    assert_eq!(buf.len(), 7);
    assert_eq!(dec.decode(&mut buf), Err(CodecError::FrameTooLarge));
    let mut buf = BytesMut::from(&[0xffu8, 0xff, 0xff, 0xff][..]);
    assert_eq!(block::Codec::new().decode(&mut buf), Err(CodecError::FrameTooLarge));
    assert_eq!(proto::Codec::new().decode(&mut buf), Err(CodecError::FrameTooLarge));
}

#[test]
fn announced_frame_at_the_limit_is_awaited() {
    let mut dec = tx::Codec::new();
    let mut buf = BytesMut::from(&[0x00u8, 0x80, 0x00, 0x00, 1, 2, 3][..]);
    assert_eq!(dec.decode(&mut buf), Ok(None));
    assert_eq!(buf.to_vec(), vec![1, 2, 3]);
}

#[test]
fn duplicate_starts_between_frames() {
    let mut original = tx::Codec::new();
    let mut a = BytesMut::from(&[0u8, 0, 0, 2, 7][..]);
    assert_eq!(original.decode(&mut a), Ok(None));
    // the original waits for two bytes of payload; its duplicate does not
    let mut copy = original.clone();
    let mut b = BytesMut::from(&[0u8, 0, 0, 1, 9][..]);
    assert_eq!(copy.decode(&mut b), Ok(Some(vec![9])));
    a.extend_from_slice(&[8]);
    assert_eq!(original.decode(&mut a), Ok(Some(vec![7, 8])));
}

#[test]
fn duplicates_keep_their_streams_apart() {
    let one = sample(20);
    let other: Vec<u8> = sample(33).into_iter().rev().collect();
    let wire_one = framed(&one);
    let wire_other = framed(&other);
    for k in [0usize, 1, 3, 4, 5, 23] {
        for l in [0usize, 2, 4, 10, 36] {
            let mut first = block::Codec::new();
            let mut second = first.clone();
            let mut buf_one = BytesMut::new();
            let mut buf_other = BytesMut::new();
            buf_one.extend_from_slice(&wire_one[..k]);
            assert_eq!(first.decode(&mut buf_one), Ok(None));
            buf_other.extend_from_slice(&wire_other[..l]);
            assert_eq!(second.decode(&mut buf_other), Ok(None));
            buf_one.extend_from_slice(&wire_one[k..]);
            assert_eq!(first.decode(&mut buf_one), Ok(Some(one.clone())));
            buf_other.extend_from_slice(&wire_other[l..]);
            assert_eq!(second.decode(&mut buf_other), Ok(Some(other.clone())));
            assert!(buf_one.is_empty() && buf_other.is_empty());
        }
    }
}

#[test]
fn duplicate_encoder_frames_alike() {
    let mut enc = EnCodec::new();
    let mut copy = enc.clone();
    let mut a = BytesMut::new();
    let mut b = BytesMut::new();
    enc.encode(vec![1, 2], &mut a).unwrap();
    copy.encode(vec![1, 2], &mut b).unwrap();
    assert_eq!(a, b);
    assert_eq!(a.to_vec(), vec![0, 0, 0, 2, 1, 2]);
}
