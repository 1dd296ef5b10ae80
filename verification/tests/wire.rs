use lnx_distribute::bytes::{decode_tag, encode_empty, encode_tag, AsBytes, FromBytes, WireError};
use lnx_distribute::raft_network::network::{EmptyResponse, Response};
use lnx_distribute::raft_network::request::PeerRequest;
use lnx_distribute::rpc;

#[test]
fn request_tags_are_little_endian_variant_indices() {
    assert_eq!(PeerRequest::HeartBeat.as_bytes(), vec![0u8, 0, 0, 0]);
    assert_eq!(PeerRequest::HelloWorld.as_bytes(), vec![1u8, 0, 0, 0]);
    assert_eq!(rpc::PeerRequest::HeartBeat.as_bytes(), vec![0u8, 0, 0, 0]);
}

#[test]
fn request_roundtrip() {
    for req in [PeerRequest::HeartBeat, PeerRequest::HelloWorld] {
        let bytes = req.as_bytes();
        assert_eq!(PeerRequest::from_bytes(&bytes), Ok(req));
    }
    let bytes = rpc::PeerRequest::HeartBeat.as_bytes();
    assert_eq!(rpc::PeerRequest::from_bytes(&bytes), Ok(rpc::PeerRequest::HeartBeat));
}

#[test]
fn request_decoding_allows_trailing_bytes() {
    assert_eq!(PeerRequest::from_bytes(&[1, 0, 0, 0, 9, 9]), Ok(PeerRequest::HelloWorld));
}

#[test]
fn truncated_request_is_refused() {
    assert_eq!(PeerRequest::from_bytes(&[1, 0, 0]), Err(WireError::Truncated));
    assert_eq!(PeerRequest::from_bytes(&[]), Err(WireError::Truncated));
    assert_eq!(rpc::PeerRequest::from_bytes(&[0]), Err(WireError::Truncated));
}

#[test]
fn unknown_variant_is_refused() {
    assert_eq!(PeerRequest::from_bytes(&[2, 0, 0, 0]), Err(WireError::UnknownVariant { tag: 2, variants: 2 }));
    assert_eq!(rpc::PeerRequest::from_bytes(&[1, 0, 0, 0]), Err(WireError::UnknownVariant { tag: 1, variants: 1 }));
    assert_eq!(
        PeerRequest::from_bytes(&[0, 1, 0, 0]),
        Err(WireError::UnknownVariant { tag: 256, variants: 2 })
    );
}

#[test]
fn tags_encode_and_decode() {
    assert_eq!(encode_tag(0x0403_0201), vec![1u8, 2, 3, 4]);
    assert_eq!(decode_tag(&[1, 2, 3, 4, 5]), Ok(0x0403_0201));
    assert_eq!(decode_tag(&[1, 2]), Err(WireError::Truncated));
}

#[test]
fn empty_messages_have_no_bytes() {
    assert!(encode_empty().is_empty());
    assert!(EmptyResponse.as_bytes().is_empty());
    assert!(Response {}.as_bytes().is_empty());
    assert!(rpc::HeartBeatResponse {}.as_bytes().is_empty());
    assert!(rpc::Response {}.as_bytes().is_empty());
}

#[test]
fn empty_messages_decode_from_anything() {
    assert_eq!(EmptyResponse::from_bytes(&[]), Ok(EmptyResponse));
    assert_eq!(EmptyResponse::from_bytes(&[7, 7]), Ok(EmptyResponse));
    assert_eq!(Response::from_bytes(&[1]), Ok(Response {}));
    assert_eq!(rpc::HeartBeatResponse::from_bytes(&[]), Ok(rpc::HeartBeatResponse {}));
    assert_eq!(rpc::Response::from_bytes(&[3, 4]), Ok(rpc::Response {}));
}
