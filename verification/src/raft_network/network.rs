//! How a node of the peer network answers the requests of its peers.

use crate::bytes::{decode_empty, encode_empty, AsBytes, FromBytes, WireError, WireFormat};
use crate::error::{Error, NodeId};
use crate::net::peers::PeersHandle;
use crate::raft_network::request::PeerRequest;
use vstd::prelude::*;

verus! {

/// Seconds between two heartbeats a node sends its peers.
pub const HEARTBEAT_INTERVAL: u64 = 30;

/// The answer to a request that carries no data.
#[derive(Debug, Clone, Copy, PartialEq, Eq, Structural)]
pub struct EmptyResponse;

/// A response without fields.
#[derive(Debug, Clone, Copy, PartialEq, Eq, Structural)]
pub struct Response {}

impl AsBytes for EmptyResponse {
    open spec fn spec_as_bytes(&self) -> Seq<u8> {
        Seq::empty()
    }

    fn as_bytes(&self) -> (b: Vec<u8>) {
        encode_empty()
    }
}

impl FromBytes for EmptyResponse {
    open spec fn spec_from_bytes(data: Seq<u8>) -> Option<EmptyResponse> {
        Some(EmptyResponse)
    }

    fn from_bytes(data: &[u8]) -> (r: Result<EmptyResponse, WireError>) {
        decode_empty(data)?;
        Ok(EmptyResponse)
    }
}

impl AsBytes for Response {
    open spec fn spec_as_bytes(&self) -> Seq<u8> {
        Seq::empty()
    }

    fn as_bytes(&self) -> (b: Vec<u8>) {
        encode_empty()
    }
}

impl FromBytes for Response {
    open spec fn spec_from_bytes(data: Seq<u8>) -> Option<Response> {
        Some(Response {  })
    }

    fn from_bytes(data: &[u8]) -> (r: Result<Response, WireError>) {
        decode_empty(data)?;
        Ok(Response {  })
    }
}

impl WireFormat for EmptyResponse {
    proof fn lemma_wire_roundtrip(v: EmptyResponse, rest: Seq<u8>) {
    }
}

impl WireFormat for Response {
    proof fn lemma_wire_roundtrip(v: Response, rest: Seq<u8>) {
    }
}

/// The empty responses read back from their (empty) encoding, and from any
/// bytes at all.
pub proof fn lemma_empty_response_roundtrip(rest: Seq<u8>)
    ensures
        EmptyResponse::spec_from_bytes(EmptyResponse.spec_as_bytes() + rest) == Some(EmptyResponse),
        Response::spec_from_bytes((Response {  }).spec_as_bytes() + rest) == Some(Response {  }),
{
}

/// What a node does with a request of a peer: whether it first wakes every
/// peer whose connection failed, and the bytes it answers with.
pub struct EventPlan {
    pub wake_peers: bool,
    pub reply: Vec<u8>,
}

/// Decides how a node answers a request.
///
/// A greeting makes the node retry the connections to all of its peers before
/// it answers; a heartbeat is answered at once. Both are answered with an
/// empty response.
pub fn handle_event(request: PeerRequest) -> (plan: EventPlan)
    ensures
        plan.wake_peers <==> request == PeerRequest::HelloWorld,
        plan.reply@ == EmptyResponse.spec_as_bytes(),
{
    match request {
        PeerRequest::HelloWorld => EventPlan { wake_peers: true, reply: EmptyResponse.as_bytes() },
        PeerRequest::HeartBeat => EventPlan { wake_peers: false, reply: EmptyResponse.as_bytes() },
    }
}

/// A node's view of the peer network: the connection to each of its peers.
///
/// `C` is the transport's handle on one peer connection.
pub struct PeerNetwork<C> {
    peers: PeersHandle<C>,
}

impl<C> PeerNetwork<C> {
    /// The connections are well formed.
    pub closed spec fn wf(&self) -> bool {
        self.peers.wf()
    }

    /// The connection of each peer, by node id.
    pub closed spec fn view(&self) -> Map<NodeId, C> {
        self.peers.view()
    }

    /// The network over the given peer connections.
    pub fn new(peers: PeersHandle<C>) -> (n: PeerNetwork<C>)
        requires
            peers.wf(),
        ensures
            n.wf(),
            n.view() == peers.view(),
    {
        PeerNetwork { peers }
    }

    /// The peer connections.
    pub fn handle(&self) -> (h: &PeersHandle<C>)
        requires
            self.wf(),
        ensures
            h.wf(),
            h.view() == self.view(),
    {
        &self.peers
    }

    /// Where a request to peer `node_id` goes and the bytes it is sent as;
    /// a request to a peer the node does not know is refused.
    pub fn send_request(&self, node_id: NodeId, req: &PeerRequest) -> (r: Result<(&C, Vec<u8>), Error>)
        requires
            self.wf(),
        ensures
            match r {
                Ok((c, bytes)) => self.view().dom().contains(node_id) && *c == self.view()[node_id]
                    && bytes@ == req.spec_as_bytes(),
                Err(e) => !self.view().dom().contains(node_id) && e == Error::UnknownNode(node_id),
            },
    {
        let client = self.peers.peer(node_id)?;
        Ok((client, req.as_bytes()))
    }
}

} // verus!
