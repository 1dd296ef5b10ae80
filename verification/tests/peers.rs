use lnx_distribute::bytes::AsBytes;
use lnx_distribute::error::Error;
use lnx_distribute::net::peers::PeersHandle;
use lnx_distribute::raft_network::network::PeerNetwork;
use lnx_distribute::raft_network::request::PeerRequest;
use lnx_distribute::rpc::RaftNetwork;

#[test]
fn known_peers_are_found() {
    let h = PeersHandle::new(vec![7, 3, 11], vec!["a", "b", "c"]);
    assert_eq!(h.peer(7), Ok(&"a"));
    assert_eq!(h.peer(3), Ok(&"b"));
    assert_eq!(h.peer(11), Ok(&"c"));
    assert_eq!(h.all().len(), 3);
}

#[test]
fn unknown_peer_is_refused() {
    let h = PeersHandle::new(vec![1], vec!["a"]);
    assert_eq!(h.peer(2), Err(Error::UnknownNode(2)));
    let empty: PeersHandle<&str> = PeersHandle::new(vec![], vec![]);
    assert_eq!(empty.peer(0), Err(Error::UnknownNode(0)));
    assert!(empty.all().is_empty());
}

#[test]
fn request_is_routed_and_framed() {
    let net = PeerNetwork::new(PeersHandle::new(vec![4, 5], vec![40u32, 50u32]));
    let (client, bytes) = net.send_request(5, &PeerRequest::HelloWorld).unwrap();
    assert_eq!(*client, 50);
    assert_eq!(bytes, PeerRequest::HelloWorld.as_bytes());
    assert_eq!(net.send_request(6, &PeerRequest::HeartBeat).err(), Some(Error::UnknownNode(6)));
    assert_eq!(net.handle().all().len(), 2);
}

#[test]
fn raft_network_keeps_peers() {
    let net = RaftNetwork::new(PeersHandle::new(vec![9], vec![()]));
    assert_eq!(net.handle().peer(9), Ok(&()));
}
