use lnx_distribute::raft::ClientResponse;
use lnx_distribute::raft_store::logs::{keyspace, log_key, log_records, log_value, request_bytes, LogEntry, LogPayload};
use lnx_distribute::raft_store::structures::{ClientRequest, LogId};

fn req() -> ClientRequest {
    ClientRequest { client: "cé".to_string(), serial: 7, payload: vec![9, 8] }
}

#[test]
fn keyspace_name() {
    assert_eq!(keyspace(), "raft_log_store");
}

#[test]
fn key_is_term_then_index() {
    assert_eq!(log_key(1, 2), vec![1, 0, 0, 0, 0, 0, 0, 0, 2, 0, 0, 0, 0, 0, 0, 0]);
    assert_ne!(log_key(1, 2), log_key(2, 1));
}

#[test]
fn request_bytes_are_length_prefixed() {
    let mut expected = vec![3u8, 0, 0, 0, 0, 0, 0, 0, b'c', 0xc3, 0xa9];
    expected.extend_from_slice(&[7, 0, 0, 0, 0, 0, 0, 0]);
    expected.extend_from_slice(&[2, 0, 0, 0, 0, 0, 0, 0, 9, 8]);
    assert_eq!(request_bytes(&req()), expected);
}

#[test]
fn payload_values_are_tagged() {
    assert_eq!(log_value(&LogPayload::Blank), vec![0, 0, 0, 0]);
    let mut normal = vec![1u8, 0, 0, 0];
    normal.extend(request_bytes(&req()));
    assert_eq!(log_value(&LogPayload::Normal(req())), normal);
    let membership = log_value(&LogPayload::Membership { configs: vec![vec![1, 2]], all_nodes: vec![1, 2] });
    let mut expected = vec![2u8, 0, 0, 0];
    expected.extend_from_slice(&[1, 0, 0, 0, 0, 0, 0, 0]);
    expected.extend_from_slice(&[2, 0, 0, 0, 0, 0, 0, 0]);
    expected.extend_from_slice(&[1, 0, 0, 0, 0, 0, 0, 0, 2, 0, 0, 0, 0, 0, 0, 0]);
    expected.extend_from_slice(&[2, 0, 0, 0, 0, 0, 0, 0]);
    expected.extend_from_slice(&[1, 0, 0, 0, 0, 0, 0, 0, 2, 0, 0, 0, 0, 0, 0, 0]);
    assert_eq!(membership, expected);
}

#[test]
fn records_follow_entries() {
    let entries = vec![
        LogEntry { term: 1, index: 1, payload: LogPayload::Blank },
        LogEntry { term: 1, index: 2, payload: LogPayload::Normal(req()) },
    ];
    let records = log_records(&entries);
    assert_eq!(records.len(), 2);
    assert_eq!(records[0], (log_key(1, 1), log_value(&LogPayload::Blank)));
    assert_eq!(records[1], (log_key(1, 2), log_value(&LogPayload::Normal(req()))));
    assert!(log_records(&vec![]).is_empty());
}

#[test]
fn plain_data_types() {
    assert_eq!(LogId(3), LogId(3));
    assert_eq!(ClientResponse(Some(vec![1])).0, Some(vec![1]));
}
