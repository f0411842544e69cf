//! Framing on concrete bytes, and a round trip through every supported
//! serialization format.

use tower_rpc::codec::{Codec, SerdeCodec};
use tower_rpc::frame::{decode_frame, encode_frame};
use tower_rpc::router::{keyed_codec, routed_codec, Keyed, RoutedRequest, Unkeyed};

#[test]
fn frame_layout_is_length_then_payload() {
    let payload: Vec<u8> = vec![1, 2, 3];
    let framed = encode_frame(&payload);
    assert_eq!(framed, vec![0, 0, 0, 3, 1, 2, 3]);
}

#[test]
fn frame_round_trips() {
    let payload: Vec<u8> = vec![9, 8, 7, 6, 5];
    let framed = encode_frame(&payload);
    let (decoded, consumed) = decode_frame(&framed).unwrap();
    assert_eq!(decoded, payload);
    assert_eq!(consumed, framed.len());
}

#[test]
fn empty_frame_round_trips() {
    let payload: Vec<u8> = Vec::new();
    let framed = encode_frame(&payload);
    assert_eq!(framed, vec![0, 0, 0, 0]);
    let (decoded, consumed) = decode_frame(&framed).unwrap();
    assert_eq!(decoded, payload);
    assert_eq!(consumed, 4);
}

#[test]
fn partial_frames_wait_for_more_bytes() {
    assert!(decode_frame(&vec![0, 0]).is_none());
    assert!(decode_frame(&vec![0, 0, 0, 5, 1, 2]).is_none());
}

#[test]
fn back_to_back_frames_decode_one_at_a_time() {
    let mut buf = encode_frame(&vec![1, 2]);
    buf.extend_from_slice(&encode_frame(&vec![3]));
    let (first, consumed) = decode_frame(&buf).unwrap();
    assert_eq!(first, vec![1, 2]);
    let rest: Vec<u8> = buf[consumed..].to_vec();
    let (second, consumed2) = decode_frame(&rest).unwrap();
    assert_eq!(second, vec![3]);
    assert_eq!(consumed + consumed2, buf.len());
}

#[test]
fn json_round_trips() {
    let value: (String, Vec<u64>) = (String::from("hello"), vec![1, 2, 3]);
    let bytes = serde_json::to_vec(&value).unwrap();
    let back: (String, Vec<u64>) = serde_json::from_slice(&bytes).unwrap();
    assert_eq!(back, value);
}

#[test]
fn bincode_round_trips() {
    let value: (String, Vec<u64>) = (String::from("hello"), vec![1, 2, 3]);
    let bytes = bincode::serialize(&value).unwrap();
    let back: (String, Vec<u64>) = bincode::deserialize(&bytes).unwrap();
    assert_eq!(back, value);
}

#[test]
fn messagepack_round_trips() {
    let value: (String, Vec<u64>) = (String::from("hello"), vec![1, 2, 3]);
    let bytes = rmp_serde::to_vec(&value).unwrap();
    let back: (String, Vec<u64>) = rmp_serde::from_slice(&bytes).unwrap();
    assert_eq!(back, value);
}

#[test]
fn cbor_round_trips() {
    let value: (String, Vec<u64>) = (String::from("hello"), vec![1, 2, 3]);
    let mut bytes: Vec<u8> = Vec::new();
    ciborium::into_writer(&value, &mut bytes).unwrap();
    let back: (String, Vec<u64>) = ciborium::from_reader(bytes.as_slice()).unwrap();
    assert_eq!(back, value);
}

#[test]
fn codec_builders_record_their_format() {
    let builder: SerdeCodec<u64, u64> = SerdeCodec::new(Codec::MessagePack);
    assert_eq!(builder.kind(), Codec::MessagePack);

    let routed: SerdeCodec<RoutedRequest<u64, Unkeyed>, u64> = routed_codec(Codec::Json);
    assert_eq!(routed.kind(), Codec::Json);

    let keyed: SerdeCodec<RoutedRequest<u64, Keyed<u64>>, u64> = keyed_codec(Codec::Cbor);
    assert_eq!(keyed.kind(), Codec::Cbor);

    let raw: SerdeCodec<Vec<u8>, Vec<u8>> = SerdeCodec::new(Codec::Bincode);
    assert_eq!(raw.kind(), Codec::Bincode);
}

#[test]
fn frame_header_is_big_endian() {
    let payload: Vec<u8> = vec![0; 300];
    let framed = encode_frame(&payload);
    assert_eq!(&framed[..4], &[0, 0, 1, 44]);
    let (decoded, consumed) = decode_frame(&framed).unwrap();
    assert_eq!(decoded.len(), 300);
    assert_eq!(consumed, 304);
}
