//! The heartbeat protocol between nodes.

use crate::bytes::{
    decode_empty, decode_tag, encode_empty, encode_tag, lemma_tag_roundtrip, leading_tag, tag_bytes,
    AsBytes, FromBytes, WireError, WireFormat,
};
use crate::error::NodeId;
use crate::net::peers::PeersHandle;
use vstd::prelude::*;

verus! {

/// Seconds between two heartbeats a node sends its peers.
pub const HEARTBEAT_INTERVAL: u64 = 30;

/// A request one node sends another.
#[derive(Debug, Clone, Copy, PartialEq, Eq, Structural)]
pub enum PeerRequest {
    HeartBeat,
}

/// The answer to a heartbeat.
#[derive(Debug, Clone, Copy, PartialEq, Eq, Structural)]
pub struct HeartBeatResponse {}

/// A response without fields.
#[derive(Debug, Clone, Copy, PartialEq, Eq, Structural)]
pub struct Response {}

impl AsBytes for PeerRequest {
    open spec fn spec_as_bytes(&self) -> Seq<u8> {
        tag_bytes(0)
    }

    fn as_bytes(&self) -> (b: Vec<u8>) {
        encode_tag(0)
    }
}

impl FromBytes for PeerRequest {
    open spec fn spec_from_bytes(data: Seq<u8>) -> Option<PeerRequest> {
        match leading_tag(data) {
            Some(t) => if t == 0 {
                Some(PeerRequest::HeartBeat)
            } else {
                None
            },
            None => None,
        }
    }

    fn from_bytes(data: &[u8]) -> (r: Result<PeerRequest, WireError>)
        ensures
            leading_tag(data@) is None ==> r == Err::<PeerRequest, WireError>(WireError::Truncated),
            leading_tag(data@) matches Some(t) ==> (t != 0 ==> r == Err::<PeerRequest, WireError>(
                WireError::UnknownVariant { tag: t, variants: 1 },
            )),
    {
        let tag = decode_tag(data)?;
        if tag == 0 {
            Ok(PeerRequest::HeartBeat)
        } else {
            Err(WireError::UnknownVariant { tag, variants: 1 })
        }
    }
}

impl AsBytes for HeartBeatResponse {
    open spec fn spec_as_bytes(&self) -> Seq<u8> {
        Seq::empty()
    }

    fn as_bytes(&self) -> (b: Vec<u8>) {
        encode_empty()
    }
}

impl FromBytes for HeartBeatResponse {
    open spec fn spec_from_bytes(data: Seq<u8>) -> Option<HeartBeatResponse> {
        Some(HeartBeatResponse {  })
    }

    fn from_bytes(data: &[u8]) -> (r: Result<HeartBeatResponse, WireError>) {
        decode_empty(data)?;
        Ok(HeartBeatResponse {  })
    }
}

impl AsBytes for Response {
    open spec fn spec_as_bytes(&self) -> Seq<u8> {
        Seq::empty()
    }

    fn as_bytes(&self) -> (b: Vec<u8>) {
        encode_empty()
    }
}

impl FromBytes for Response {
    open spec fn spec_from_bytes(data: Seq<u8>) -> Option<Response> {
        Some(Response {  })
    }

    fn from_bytes(data: &[u8]) -> (r: Result<Response, WireError>) {
        decode_empty(data)?;
        Ok(Response {  })
    }
}

/// Every request reads back as itself from its encoding, whatever bytes follow it.
pub proof fn lemma_rpc_request_roundtrip(req: PeerRequest, rest: Seq<u8>)
    ensures
        PeerRequest::spec_from_bytes(req.spec_as_bytes() + rest) == Some(req),
{
    lemma_tag_roundtrip(0, rest);
}

impl WireFormat for PeerRequest {
    proof fn lemma_wire_roundtrip(v: PeerRequest, rest: Seq<u8>) {
        lemma_rpc_request_roundtrip(v, rest);
    }
}

impl WireFormat for HeartBeatResponse {
    proof fn lemma_wire_roundtrip(v: HeartBeatResponse, rest: Seq<u8>) {
    }
}

impl WireFormat for Response {
    proof fn lemma_wire_roundtrip(v: Response, rest: Seq<u8>) {
    }
}

/// The empty responses read back from their (empty) encoding, and from any
/// bytes at all.
pub proof fn lemma_rpc_response_roundtrip(rest: Seq<u8>)
    ensures
        HeartBeatResponse::spec_from_bytes((HeartBeatResponse {  }).spec_as_bytes() + rest) == Some(
            HeartBeatResponse {  },
        ),
        Response::spec_from_bytes((Response {  }).spec_as_bytes() + rest) == Some(Response {  }),
{
}

/// The answer of a node to a request: a heartbeat is acknowledged with an
/// empty heartbeat response.
pub fn handle_event(request: PeerRequest) -> (reply: Vec<u8>)
    ensures
        reply@ == (HeartBeatResponse {  }).spec_as_bytes(),
{
    match request {
        PeerRequest::HeartBeat => HeartBeatResponse {  }.as_bytes(),
    }
}

/// A node's view of the heartbeat network: the connection to each of its peers.
///
/// `C` is the transport's handle on one peer connection.
pub struct RaftNetwork<C> {
    peers: PeersHandle<C>,
}

impl<C> RaftNetwork<C> {
    /// The connections are well formed.
    pub closed spec fn wf(&self) -> bool {
        self.peers.wf()
    }

    /// The connection of each peer, by node id.
    pub closed spec fn view(&self) -> Map<NodeId, C> {
        self.peers.view()
    }

    /// The network over the given peer connections.
    pub fn new(peers: PeersHandle<C>) -> (n: RaftNetwork<C>)
        requires
            peers.wf(),
        ensures
            n.wf(),
            n.view() == peers.view(),
    {
        RaftNetwork { peers }
    }

    /// The peer connections.
    pub fn handle(&self) -> (h: &PeersHandle<C>)
        requires
            self.wf(),
        ensures
            h.wf(),
            h.view() == self.view(),
    {
        &self.peers
    }
}

} // verus!
