//! Requests exchanged between peers of the network.

use crate::bytes::{
    decode_tag, encode_tag, lemma_tag_canonical, lemma_tag_roundtrip, leading_tag, tag_bytes,
    AsBytes, FromBytes, WireError, WireFormat,
};
use vstd::prelude::*;

verus! {

/// A request one peer sends another.
#[derive(Debug, Clone, Copy, PartialEq, Eq, Structural)]
pub enum PeerRequest {
    HeartBeat,
    HelloWorld,
}

impl PeerRequest {
    /// The variant tag a request is framed with: its position in the enum.
    pub open spec fn tag(self) -> u32 {
        match self {
            PeerRequest::HeartBeat => 0,
            PeerRequest::HelloWorld => 1,
        }
    }

    /// The request a variant tag names, where it names one.
    pub open spec fn from_tag(tag: u32) -> Option<PeerRequest> {
        if tag == 0 {
            Some(PeerRequest::HeartBeat)
        } else if tag == 1 {
            Some(PeerRequest::HelloWorld)
        } else {
            None
        }
    }
}

impl AsBytes for PeerRequest {
    open spec fn spec_as_bytes(&self) -> Seq<u8> {
        tag_bytes(self.tag())
    }

    fn as_bytes(&self) -> (b: Vec<u8>) {
        match self {
            PeerRequest::HeartBeat => encode_tag(0),
            PeerRequest::HelloWorld => encode_tag(1),
        }
    }
}

impl FromBytes for PeerRequest {
    open spec fn spec_from_bytes(data: Seq<u8>) -> Option<PeerRequest> {
        match leading_tag(data) {
            Some(t) => PeerRequest::from_tag(t),
            None => None,
        }
    }

    fn from_bytes(data: &[u8]) -> (r: Result<PeerRequest, WireError>)
        ensures
            leading_tag(data@) is None ==> r == Err::<PeerRequest, WireError>(WireError::Truncated),
            leading_tag(data@) matches Some(t) ==> (t >= 2 ==> r == Err::<PeerRequest, WireError>(
                WireError::UnknownVariant { tag: t, variants: 2 },
            )),
    {
        let tag = decode_tag(data)?;
        if tag == 0 {
            Ok(PeerRequest::HeartBeat)
        } else if tag == 1 {
            Ok(PeerRequest::HelloWorld)
        } else {
            Err(WireError::UnknownVariant { tag, variants: 2 })
        }
    }
}

impl WireFormat for PeerRequest {
    proof fn lemma_wire_roundtrip(v: PeerRequest, rest: Seq<u8>) {
        lemma_peer_request_roundtrip(v, rest);
    }
}

/// Every request reads back as itself from its encoding, whatever bytes follow it.
pub proof fn lemma_peer_request_roundtrip(req: PeerRequest, rest: Seq<u8>)
    ensures
        PeerRequest::spec_from_bytes(req.spec_as_bytes() + rest) == Some(req),
{
    lemma_tag_roundtrip(req.tag(), rest);
}

/// A request that decodes from some bytes is encoded by exactly the bytes it was read from:
/// no two different encodings stand for the same request.
pub proof fn lemma_peer_request_canonical(data: Seq<u8>)
    requires
        PeerRequest::spec_from_bytes(data) is Some,
    ensures
        PeerRequest::spec_from_bytes(data)->0.spec_as_bytes() == data.subrange(0, 4),
{
    lemma_tag_canonical(data);
}

} // verus!
