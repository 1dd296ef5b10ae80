# lnx_distribute

The node-to-node layer of a distributed lnx deployment: nodes keep a QUIC
connection to each of their peers, greet them, send them heartbeats and answer
their requests; raft log entries are stored as bincode records.

- `src/` is the verified library (Verus):
  - `bytes`: byte framing of messages (bincode's encoding) and the
    `AsBytes`/`FromBytes` traits, with their round-trip laws;
  - `raft_network`, `rpc`: the requests of the two peer protocols, how a node
    answers them, and the routing of a request to a peer;
  - `net::client`: the state machine of the client actor (connect, forward,
    back off, give up, retry, shut down);
  - `net::server`: reading a request from a stream, and the handshake-first
    protocol of a peer connection;
  - `net::peers`: the peer directory (a `hashbrown` map) and the connections
    it indexes;
  - `net::config`, `net::tls`: socket configuration, the endpoints it calls
    for, and transport settings;
  - `raft_store`: the key and value a raft log entry is stored as;
  - `error`, `text`: errors and their messages.
- `app/` is the program around it: the QUIC transport (quinn, rustls, rcgen),
  the tokio tasks that run the state machines, the sled log store, openraft
  types, and `main`.
- `tests/` exercises the library on concrete values.
