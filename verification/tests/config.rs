use lnx_distribute::net::config::{plan_endpoints, ClientPlan, ServerPlan, SocketKind, TlsAddress};
use lnx_distribute::net::tls::{
    insecure_cert_subject, SkipServerVerification, CLIENT_BIND_IP, CLIENT_BIND_PORT, IDLE_TIMEOUT_MILLIS,
    MAX_CONCURRENT_UNI_STREAMS,
};

#[test]
fn insecure_config_plans_plain_endpoints() {
    let kind = SocketKind::Insecure {
        bind_address: "127.0.0.1:8000".to_string(),
        peers: vec![(2, "127.0.0.1:8001".to_string()), (3, "127.0.0.1:8002".to_string())],
    };
    let (server, clients) = plan_endpoints(&kind);
    assert_eq!(server, ServerPlan { bind_address: "127.0.0.1:8000".to_string(), tls: None });
    assert_eq!(
        clients,
        vec![
            ClientPlan { node_id: 2, address: "127.0.0.1:8001".to_string(), server_name: None, cert_file: None },
            ClientPlan { node_id: 3, address: "127.0.0.1:8002".to_string(), server_name: None, cert_file: None },
        ]
    );
}

#[test]
fn secure_config_plans_tls_endpoints() {
    let kind = SocketKind::Secure {
        bind_address: "0.0.0.0:9000".to_string(),
        cert_file: "node.crt".to_string(),
        key_file: "node.key".to_string(),
        peers: vec![(
            5,
            TlsAddress {
                address: "10.0.0.5:9000".to_string(),
                dns_name: "node5.example".to_string(),
                cert_file: "node5.crt".to_string(),
            },
        )],
    };
    let (server, clients) = plan_endpoints(&kind);
    assert_eq!(server.bind_address, "0.0.0.0:9000");
    assert_eq!(server.tls, Some(("node.crt".to_string(), "node.key".to_string())));
    assert_eq!(
        clients,
        vec![ClientPlan {
            node_id: 5,
            address: "10.0.0.5:9000".to_string(),
            server_name: Some("node5.example".to_string()),
            cert_file: Some("node5.crt".to_string()),
        }]
    );
}

#[test]
fn config_without_peers_plans_only_a_server() {
    let kind = SocketKind::Insecure { bind_address: "[::1]:1".to_string(), peers: vec![] };
    let (server, clients) = plan_endpoints(&kind);
    assert_eq!(server.tls, None);
    assert!(clients.is_empty());
}

#[test]
fn tls_settings() {
    assert_eq!(IDLE_TIMEOUT_MILLIS, 120_000);
    assert_eq!(MAX_CONCURRENT_UNI_STREAMS, 0);
    assert_eq!(CLIENT_BIND_IP.to_be_bytes(), [127, 0, 0, 1]);
    assert_eq!(CLIENT_BIND_PORT, 0);
    assert_eq!(insecure_cert_subject(), "localhost");
}

#[test]
fn insecure_verifier_accepts_everything() {
    let v = SkipServerVerification::new();
    assert_eq!(*v, SkipServerVerification);
    assert!(v.verify_server_cert());
}
