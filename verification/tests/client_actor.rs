use lnx_distribute::net::client::{
    backoff_for, effective_server_name, give_up_message, ClientAction, ClientEvent, ClientPhase, EventKind,
    CLIENT_QUEUE_CAPACITY, MAX_BUFFER_SIZE, MAX_CONNECTION_FAILURES,
};

fn backoff(s: u64) -> ClientAction {
    ClientAction::Backoff { seconds: s }
}

#[test]
fn backoff_doubles() {
    let expected = [1u64, 2, 4, 8, 16, 32];
    for (n, e) in expected.iter().enumerate() {
        assert_eq!(backoff_for(n as u32), *e);
    }
}

#[test]
fn gives_up_after_five_failures() {
    let mut phase = ClientPhase::start();
    let mut waits = Vec::new();
    for _ in 0..MAX_CONNECTION_FAILURES {
        let (next, action) = phase.step(ClientEvent::ConnectFailed);
        waits.push(action);
        phase = next;
    }
    assert_eq!(waits, vec![backoff(2), backoff(4), backoff(8), backoff(16), backoff(32)]);
    assert_eq!(phase, ClientPhase::Waiting);
}

#[test]
fn four_failures_still_connecting() {
    let mut phase = ClientPhase::start();
    for _ in 0..4 {
        phase = phase.step(ClientEvent::ConnectFailed).0;
    }
    assert_eq!(phase, ClientPhase::Connecting { failures: 4 });
}

#[test]
fn connection_resets_failures() {
    let phase = ClientPhase::Connecting { failures: 3 };
    let (phase, a) = phase.step(ClientEvent::Connected);
    assert_eq!((phase, a), (ClientPhase::Driving, ClientAction::Idle));
    let (phase, a) = phase.step(ClientEvent::StreamFailed);
    assert_eq!(phase, ClientPhase::Connecting { failures: 1 });
    assert_eq!(a, backoff(2));
}

#[test]
fn connected_actor_forwards_messages() {
    let (p, a) = ClientPhase::Driving.step(ClientEvent::Op(EventKind::Message));
    assert_eq!((p, a), (ClientPhase::Driving, ClientAction::OpenStream));
}

#[test]
fn wake_while_connected_is_noop() {
    let (p, a) = ClientPhase::Driving.step(ClientEvent::Op(EventKind::Retry));
    assert_eq!((p, a), (ClientPhase::Driving, ClientAction::Idle));
}

#[test]
fn shutdown_and_closed_queue_stop() {
    for phase in [ClientPhase::Driving, ClientPhase::Waiting] {
        assert_eq!(phase.step(ClientEvent::Op(EventKind::Shutdown)).0, ClientPhase::Stopped);
        assert_eq!(phase.step(ClientEvent::QueueClosed).0, ClientPhase::Stopped);
    }
}

#[test]
fn pending_messages_sent_before_shutdown() {
    let mut phase = ClientPhase::Driving;
    let mut actions = Vec::new();
    for ev in [
        ClientEvent::Op(EventKind::Message),
        ClientEvent::Op(EventKind::Message),
        ClientEvent::Op(EventKind::Shutdown),
    ] {
        let (p, a) = phase.step(ev);
        actions.push(a);
        phase = p;
    }
    assert_eq!(actions, vec![ClientAction::OpenStream, ClientAction::OpenStream, ClientAction::Idle]);
    assert_eq!(phase, ClientPhase::Stopped);
}

#[test]
fn waiting_actor_drops_messages_and_retries() {
    let (p, a) = ClientPhase::Waiting.step(ClientEvent::Op(EventKind::Message));
    assert_eq!((p, a), (ClientPhase::Waiting, ClientAction::DropMessage));
    let (p, a) = ClientPhase::Waiting.step(ClientEvent::Op(EventKind::Retry));
    assert_eq!((p, a), (ClientPhase::Connecting { failures: 0 }, ClientAction::Idle));
}

#[test]
fn stopped_stays_stopped() {
    for ev in [
        ClientEvent::ConnectFailed,
        ClientEvent::Connected,
        ClientEvent::Op(EventKind::Retry),
        ClientEvent::QueueClosed,
        ClientEvent::StreamFailed,
    ] {
        assert_eq!(ClientPhase::Stopped.step(ev), (ClientPhase::Stopped, ClientAction::Idle));
    }
}

#[test]
fn impossible_events_change_nothing() {
    let p = ClientPhase::Connecting { failures: 2 };
    assert_eq!(p.step(ClientEvent::Op(EventKind::Message)), (p, ClientAction::Idle));
    assert_eq!(ClientPhase::Driving.step(ClientEvent::Connected), (ClientPhase::Driving, ClientAction::Idle));
    assert_eq!(ClientPhase::Waiting.step(ClientEvent::StreamFailed), (ClientPhase::Waiting, ClientAction::Idle));
}

#[test]
fn server_name_defaults_to_localhost() {
    assert_eq!(effective_server_name(None), "localhost");
    assert_eq!(effective_server_name(Some("node-2".to_string())), "node-2");
}

#[test]
fn client_limits() {
    assert_eq!(MAX_BUFFER_SIZE, 262_144);
    assert_eq!(CLIENT_QUEUE_CAPACITY, 5);
}

#[test]
fn giving_up_is_reported() {
    let mut phase = ClientPhase::start();
    let mut gave_up = Vec::new();
    for _ in 0..MAX_CONNECTION_FAILURES {
        let (next, _) = phase.step(ClientEvent::ConnectFailed);
        gave_up.push(phase.gives_up(&next));
        phase = next;
    }
    assert_eq!(gave_up, vec![false, false, false, false, true]);
    assert!(!ClientPhase::Waiting.gives_up(&ClientPhase::Waiting));
    assert_eq!(
        give_up_message(),
        "aborting connection reties. Failed to establish a connection within the maximum retry threshold."
    );
}
