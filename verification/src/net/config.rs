//! The socket configuration of a node, and the endpoints it calls for.

use crate::error::NodeId;
use vstd::prelude::*;

verus! {

/// How a peer is reached over TLS.
#[derive(Debug, Clone, PartialEq, Eq)]
pub struct TlsAddress {
    /// The server socket address of the peer.
    pub address: String,
    /// The DNS name of the peer's certificate.
    pub dns_name: String,
    /// The file of the peer's certificate.
    pub cert_file: String,
}

/// The node's address and peers socket configuration: either entirely
/// insecure or entirely secured by TLS.
#[derive(Debug, Clone, PartialEq, Eq)]
pub enum SocketKind {
    /// An insecure socket configuration and peers.
    Insecure { bind_address: String, peers: Vec<(NodeId, String)> },
    /// A secure socket configuration and peers.
    Secure {
        bind_address: String,
        cert_file: String,
        key_file: String,
        peers: Vec<(NodeId, TlsAddress)>,
    },
}

/// The server endpoint a node opens: where it binds, and the certificate and
/// key files it serves TLS with, if it does.
#[derive(Debug, Clone, PartialEq, Eq)]
pub struct ServerPlan {
    pub bind_address: String,
    pub tls: Option<(String, String)>,
}

/// The client endpoint a node opens towards one peer: the peer's address,
/// the server name it expects, and the certificate it trusts, if any.
#[derive(Debug, Clone, PartialEq, Eq)]
pub struct ClientPlan {
    pub node_id: NodeId,
    pub address: String,
    pub server_name: Option<String>,
    pub cert_file: Option<String>,
}

impl SocketKind {
    /// The number of configured peers.
    pub open spec fn peer_count(self) -> nat {
        match self {
            SocketKind::Insecure { peers, .. } => peers@.len(),
            SocketKind::Secure { peers, .. } => peers@.len(),
        }
    }
}

/// The server endpoint a configuration calls for.
pub open spec fn server_plan_of(kind: SocketKind) -> (Seq<char>, Option<(Seq<char>, Seq<char>)>) {
    match kind {
        SocketKind::Insecure { bind_address, .. } => (bind_address@, None),
        SocketKind::Secure { bind_address, cert_file, key_file, .. } => (
            bind_address@,
            Some((cert_file@, key_file@)),
        ),
    }
}

/// The client endpoint a configuration calls for towards its `i`-th peer.
pub open spec fn client_plan_of(kind: SocketKind, i: int) -> (
    NodeId,
    Seq<char>,
    Option<Seq<char>>,
    Option<Seq<char>>,
) {
    match kind {
        SocketKind::Insecure { peers, .. } => (peers@[i].0, peers@[i].1@, None, None),
        SocketKind::Secure { peers, .. } => (
            peers@[i].0,
            peers@[i].1.address@,
            Some(peers@[i].1.dns_name@),
            Some(peers@[i].1.cert_file@),
        ),
    }
}

impl ServerPlan {
    pub open spec fn spec_view(self) -> (Seq<char>, Option<(Seq<char>, Seq<char>)>) {
        (
            self.bind_address@,
            match self.tls {
                Some((c, k)) => Some((c@, k@)),
                None => None,
            },
        )
    }
}

impl ClientPlan {
    pub open spec fn spec_view(self) -> (NodeId, Seq<char>, Option<Seq<char>>, Option<Seq<char>>) {
        (
            self.node_id,
            self.address@,
            match self.server_name {
                Some(n) => Some(n@),
                None => None,
            },
            match self.cert_file {
                Some(c) => Some(c@),
                None => None,
            },
        )
    }
}

/// A node is either entirely insecure or entirely secured by TLS: its server
/// serves TLS exactly when every peer is reached under a DNS name with a
/// trusted certificate.
pub proof fn lemma_tls_all_or_nothing(kind: SocketKind, i: int)
    requires
        0 <= i < kind.peer_count(),
    ensures
        server_plan_of(kind).1 is Some <==> client_plan_of(kind, i).2 is Some,
        server_plan_of(kind).1 is Some <==> client_plan_of(kind, i).3 is Some,
{
}

/// Each client plan is made from its own configured peer: the `i`-th plan
/// has the node id, the address and, when secured, the DNS name and the
/// certificate of the `i`-th configured peer, and of no other.
pub proof fn lemma_plan_follows_peer(kind: SocketKind, i: int)
    requires
        0 <= i < kind.peer_count(),
    ensures
        (kind matches SocketKind::Secure { peers, .. } ==> client_plan_of(kind, i) == (
            peers@[i].0,
            peers@[i].1.address@,
            Some(peers@[i].1.dns_name@),
            Some(peers@[i].1.cert_file@),
        )),
        (kind matches SocketKind::Insecure { peers, .. } ==> client_plan_of(kind, i) == (
            peers@[i].0,
            peers@[i].1@,
            None::<Seq<char>>,
            None::<Seq<char>>,
        )),
{
}

/// Requests for a peer go to that peer: where node ids are distinct, the
/// plan for node `id` reaches the address, and expects the DNS name and the
/// certificate, that the configuration gives node `id`.
pub proof fn lemma_plan_for_node_reaches_that_node(kind: SocketKind, i: int, j: int)
    requires
        (kind matches SocketKind::Secure { peers, .. } && 0 <= i < peers@.len() && 0 <= j
            < peers@.len() && (forall|a: int, b: int|
            0 <= a < b < peers@.len() ==> peers@[a].0 != peers@[b].0)),
        client_plan_of(kind, j).0 == kind->Secure_peers@[i].0,
    ensures
        i == j,
        client_plan_of(kind, j).1 == kind->Secure_peers@[i].1.address@,
        client_plan_of(kind, j).2 == Some(kind->Secure_peers@[i].1.dns_name@),
        client_plan_of(kind, j).3 == Some(kind->Secure_peers@[i].1.cert_file@),
{
    lemma_plan_follows_peer(kind, j);
    let peers = kind->Secure_peers@;
    if i < j {
        assert(peers[i].0 != peers[j].0);
    } else if j < i {
        assert(peers[j].0 != peers[i].0);
    }
}

/// The endpoints a configuration calls for: one server, and one client per
/// configured peer, in the order of the configuration.
///
/// A secure configuration serves with its certificate and key, and reaches
/// each peer under the peer's DNS name, trusting the peer's certificate. An
/// insecure one does neither.
pub fn plan_endpoints(kind: &SocketKind) -> (r: (ServerPlan, Vec<ClientPlan>))
    ensures
        r.0.spec_view() == server_plan_of(*kind),
        r.1@.len() == kind.peer_count(),
        forall|i: int| 0 <= i < r.1@.len() ==> #[trigger] r.1@[i].spec_view() == client_plan_of(*kind, i),
{
    match kind {
        SocketKind::Insecure { bind_address, peers } => {
            let server = ServerPlan { bind_address: bind_address.clone(), tls: None };
            let mut clients: Vec<ClientPlan> = Vec::new();
            let mut i: usize = 0;
            while i < peers.len()
                invariant
                    *kind == (SocketKind::Insecure { bind_address: *bind_address, peers: *peers }),
                    i <= peers@.len(),
                    clients@.len() == i,
                    forall|j: int| 0 <= j < i ==> #[trigger] clients@[j].spec_view() == client_plan_of(*kind, j),
                decreases peers@.len() - i,
            {
                let (node_id, address) = &peers[i];
                clients.push(ClientPlan {
                    node_id: *node_id,
                    address: address.clone(),
                    server_name: None,
                    cert_file: None,
                });
                i = i + 1;
            }
            (server, clients)
        },
        SocketKind::Secure { bind_address, cert_file, key_file, peers } => {
            let server = ServerPlan {
                bind_address: bind_address.clone(),
                tls: Some((cert_file.clone(), key_file.clone())),
            };
            let mut clients: Vec<ClientPlan> = Vec::new();
            let mut i: usize = 0;
            while i < peers.len()
                invariant
                    *kind == (SocketKind::Secure {
                        bind_address: *bind_address,
                        cert_file: *cert_file,
                        key_file: *key_file,
                        peers: *peers,
                    }),
                    i <= peers@.len(),
                    clients@.len() == i,
                    forall|j: int| 0 <= j < i ==> #[trigger] clients@[j].spec_view() == client_plan_of(*kind, j),
                decreases peers@.len() - i,
            {
                let (node_id, peer) = &peers[i];
                clients.push(ClientPlan {
                    node_id: *node_id,
                    address: peer.address.clone(),
                    server_name: Some(peer.dns_name.clone()),
                    cert_file: Some(peer.cert_file.clone()),
                });
                i = i + 1;
            }
            (server, clients)
        },
    }
}

} // verus!
