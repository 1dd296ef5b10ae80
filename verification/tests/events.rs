use lnx_distribute::bytes::AsBytes;
use lnx_distribute::raft_network::network::{handle_event, EmptyResponse, HEARTBEAT_INTERVAL};
use lnx_distribute::raft_network::request::PeerRequest;
use lnx_distribute::rpc;

#[test]
fn greeting_wakes_peers_and_gets_empty_reply() {
    let plan = handle_event(PeerRequest::HelloWorld);
    assert!(plan.wake_peers);
    assert_eq!(plan.reply, EmptyResponse.as_bytes());
    assert!(plan.reply.is_empty());
}

#[test]
fn heartbeat_gets_empty_reply_without_waking() {
    let plan = handle_event(PeerRequest::HeartBeat);
    assert!(!plan.wake_peers);
    assert!(plan.reply.is_empty());
}

#[test]
fn rpc_heartbeat_is_acknowledged() {
    assert!(rpc::handle_event(rpc::PeerRequest::HeartBeat).is_empty());
}

#[test]
fn heartbeat_interval_is_thirty_seconds() {
    assert_eq!(HEARTBEAT_INTERVAL, 30);
    assert_eq!(rpc::HEARTBEAT_INTERVAL, 30);
}
