//! The records a raft log entry is stored as: a key made of the entry's log
//! id and a value made of its payload, both in bincode's encoding.

use crate::bytes::{encode_tag, lemma_tag_roundtrip, tag_bytes};
use crate::raft_store::structures::ClientRequest;
use vstd::bytes::spec_u64_to_le_bytes;
use vstd::prelude::*;
use vstd::string::StringSliceAdditionalSpecFns;
use vstd::utf8::encode_utf8;

verus! {

/// The name of the tree the log is stored in.
pub fn keyspace() -> (name: &'static str)
    ensures
        name@ == "raft_log_store"@,
{
    "raft_log_store"
}

/// What a log entry carries.
#[derive(Debug, Clone, PartialEq, Eq)]
pub enum LogPayload {
    /// An empty entry committed by a new leader.
    Blank,
    /// A request of a client.
    Normal(ClientRequest),
    /// A change of membership: the node sets of each configuration, and all
    /// nodes, each in increasing order.
    Membership { configs: Vec<Vec<u64>>, all_nodes: Vec<u64> },
}

/// An entry of the raft log.
#[derive(Debug, Clone, PartialEq, Eq)]
pub struct LogEntry {
    pub term: u64,
    pub index: u64,
    pub payload: LogPayload,
}

/// The bytes of a `u64`: eight, little endian.
pub open spec fn u64_bytes(x: u64) -> Seq<u8> {
    spec_u64_to_le_bytes(x)
}

/// The bytes of a length: a `u64`.
pub open spec fn len_bytes(n: nat) -> Seq<u8> {
    u64_bytes(n as u64)
}

/// The bytes of a sequence of `u64`: its length, then each element.
pub open spec fn u64_seq_bytes(s: Seq<u64>) -> Seq<u8> {
    len_bytes(s.len()) + s.map_values(|x: u64| u64_bytes(x)).flatten()
}

/// The bytes of a sequence of sequences of `u64`: its length, then each element.
pub open spec fn nested_u64_seq_bytes(s: Seq<Vec<u64>>) -> Seq<u8> {
    len_bytes(s.len()) + s.map_values(|v: Vec<u64>| u64_seq_bytes(v@)).flatten()
}

/// The key an entry is stored under: its term, then its index.
pub open spec fn spec_log_key(term: u64, index: u64) -> Seq<u8> {
    u64_bytes(term) + u64_bytes(index)
}

/// The bytes of a client request: the client's UTF-8 text with its length,
/// the serial, and the payload with its length.
pub open spec fn spec_request_bytes(r: ClientRequest) -> Seq<u8> {
    let client = r.client@;
    len_bytes(encode_utf8(client).len()) + encode_utf8(client) + u64_bytes(r.serial) + len_bytes(
        r.payload@.len(),
    ) + r.payload@
}

/// The value an entry is stored as: the payload's variant tag, then its fields.
pub open spec fn spec_log_value(p: LogPayload) -> Seq<u8> {
    match p {
        LogPayload::Blank => tag_bytes(0),
        LogPayload::Normal(r) => tag_bytes(1) + spec_request_bytes(r),
        LogPayload::Membership { configs, all_nodes } => tag_bytes(2) + nested_u64_seq_bytes(configs@)
            + u64_seq_bytes(all_nodes@),
    }
}

/// `bincode::serialize` applied to a pair of `u64`: the two integers one
/// after the other, each fixed width and little endian. Bincode's default
/// options have no size limit and the output is a `Vec`, so it cannot fail.
#[verifier::external_body]
fn bincode_serialize_u64_pair(a: u64, b: u64) -> (r: Result<Vec<u8>, bincode::Error>)
    ensures
        r is Ok,
        r matches Ok(bytes) ==> bytes@ == u64_bytes(a) + u64_bytes(b),
{
    bincode::serialize(&(a, b))
}

/// `bincode::serialize` applied to a text, an integer and a byte slice:
/// the text's UTF-8 bytes after their length, the integer, and the bytes
/// after their length; lengths and the integer are `u64`, fixed width and
/// little endian. It cannot fail.
#[verifier::external_body]
fn bincode_serialize_request(client: &str, serial: u64, payload: &[u8]) -> (r: Result<
    Vec<u8>,
    bincode::Error,
>)
    ensures
        r is Ok,
        r matches Ok(bytes) ==> bytes@ == len_bytes(client.spec_bytes().len()) + client.spec_bytes()
            + u64_bytes(serial) + len_bytes(payload@.len()) + payload@,
{
    bincode::serialize(&(client, serial, payload))
}

/// `bincode::serialize` applied to a slice of `u64` vectors and a slice of
/// `u64`: each sequence is its length followed by its elements, lengths and
/// elements being `u64`, fixed width and little endian. It cannot fail.
#[verifier::external_body]
fn bincode_serialize_membership(configs: &[Vec<u64>], all_nodes: &[u64]) -> (r: Result<
    Vec<u8>,
    bincode::Error,
>)
    ensures
        r is Ok,
        r matches Ok(bytes) ==> bytes@ == nested_u64_seq_bytes(configs@) + u64_seq_bytes(all_nodes@),
{
    bincode::serialize(&(configs, all_nodes))
}

/// The key an entry with this log id is stored under.
pub fn log_key(term: u64, index: u64) -> (key: Vec<u8>)
    ensures
        key@ == spec_log_key(term, index),
{
    match bincode_serialize_u64_pair(term, index) {
        Ok(key) => key,
        Err(_) => {
            proof {
                assert(false);
            }
            Vec::new()
        },
    }
}

/// Different log ids are stored under different keys, so no entry
/// overwrites another.
pub proof fn lemma_log_key_injective(t1: u64, i1: u64, t2: u64, i2: u64)
    requires
        spec_log_key(t1, i1) == spec_log_key(t2, i2),
    ensures
        t1 == t2,
        i1 == i2,
{
    vstd::bytes::lemma_auto_spec_u64_to_from_le_bytes();
    let k1 = spec_log_key(t1, i1);
    let k2 = spec_log_key(t2, i2);
    assert(k1.subrange(0, 8) =~= u64_bytes(t1));
    assert(k2.subrange(0, 8) =~= u64_bytes(t2));
    assert(k1.subrange(8, 16) =~= u64_bytes(i1));
    assert(k2.subrange(8, 16) =~= u64_bytes(i2));
    assert(vstd::bytes::spec_u64_from_le_bytes(u64_bytes(t1)) == t1);
    assert(vstd::bytes::spec_u64_from_le_bytes(u64_bytes(t2)) == t2);
    assert(vstd::bytes::spec_u64_from_le_bytes(u64_bytes(i1)) == i1);
    assert(vstd::bytes::spec_u64_from_le_bytes(u64_bytes(i2)) == i2);
}

/// The `u64`s of a sequence one after the other, without its length.
pub open spec fn u64_flat(s: Seq<u64>) -> Seq<u8>
    decreases s.len(),
{
    if s.len() == 0 {
        Seq::empty()
    } else {
        u64_bytes(s[0]) + u64_flat(s.drop_first())
    }
}

/// The sequences of a sequence one after the other, each with its length.
pub open spec fn nested_flat(c: Seq<Vec<u64>>) -> Seq<u8>
    decreases c.len(),
{
    if c.len() == 0 {
        Seq::empty()
    } else {
        u64_seq_bytes(c[0]@) + nested_flat(c.drop_first())
    }
}

/// Every length in a payload fits the `u64` it is written as, as the length
/// of any vector or string in memory does.
pub open spec fn payload_fits(p: LogPayload) -> bool {
    match p {
        LogPayload::Blank => true,
        LogPayload::Normal(r) => encode_utf8(r.client@).len() <= u64::MAX && r.payload@.len()
            <= u64::MAX,
        LogPayload::Membership { configs, all_nodes } => configs@.len() <= u64::MAX
            && all_nodes@.len() <= u64::MAX && (forall|i: int|
            0 <= i < configs@.len() ==> #[trigger] configs@[i]@.len() <= u64::MAX),
    }
}

/// Two payloads carry the same data.
pub open spec fn same_payload(p1: LogPayload, p2: LogPayload) -> bool {
    match (p1, p2) {
        (LogPayload::Blank, LogPayload::Blank) => true,
        (LogPayload::Normal(a), LogPayload::Normal(b)) => a.client@ == b.client@ && a.serial
            == b.serial && a.payload@ == b.payload@,
        (
            LogPayload::Membership { configs: c1, all_nodes: a1 },
            LogPayload::Membership { configs: c2, all_nodes: a2 },
        ) => c1@.len() == c2@.len() && (forall|i: int|
            0 <= i < c1@.len() ==> #[trigger] c1@[i]@ == c2@[i]@) && a1@ == a2@,
        _ => false,
    }
}

/// Two byte sequences that are equal, each split after the same length, have equal parts.
proof fn lemma_split(a1: Seq<u8>, r1: Seq<u8>, a2: Seq<u8>, r2: Seq<u8>)
    requires
        a1.len() == a2.len(),
        a1 + r1 == a2 + r2,
    ensures
        a1 == a2,
        r1 == r2,
{
    assert(a1 =~= (a1 + r1).subrange(0, a1.len() as int));
    assert(a2 =~= (a2 + r2).subrange(0, a2.len() as int));
    assert(r1 =~= (a1 + r1).subrange(a1.len() as int, (a1 + r1).len() as int));
    assert(r2 =~= (a2 + r2).subrange(a2.len() as int, (a2 + r2).len() as int));
}

/// A `u64` is eight bytes, and different `u64`s have different bytes.
proof fn lemma_u64_bytes(x: u64, y: u64)
    ensures
        u64_bytes(x).len() == 8,
        u64_bytes(x) == u64_bytes(y) ==> x == y,
{
    vstd::bytes::lemma_auto_spec_u64_to_from_le_bytes();
    assert(vstd::bytes::spec_u64_from_le_bytes(u64_bytes(x)) == x);
    assert(vstd::bytes::spec_u64_from_le_bytes(u64_bytes(y)) == y);
}

/// The mapped and flattened `u64`s are the `u64`s one after the other.
proof fn lemma_u64_flat_is(s: Seq<u64>)
    ensures
        s.map_values(|x: u64| u64_bytes(x)).flatten() == u64_flat(s),
        u64_flat(s).len() == 8 * s.len(),
    decreases s.len(),
{
    if s.len() > 0 {
        lemma_u64_flat_is(s.drop_first());
        lemma_u64_bytes(s[0], s[0]);
        let m = s.map_values(|x: u64| u64_bytes(x));
        assert(m.drop_first() =~= s.drop_first().map_values(|x: u64| u64_bytes(x)));
        assert(m.first() == u64_bytes(s[0]));
    } else {
        assert(s.map_values(|x: u64| u64_bytes(x)) =~= Seq::<Seq<u8>>::empty());
    }
}

/// The `u64`s one after the other, followed by anything, determine the
/// `u64`s of a sequence of known length and what follows them.
proof fn lemma_u64_flat_inj(s1: Seq<u64>, r1: Seq<u8>, s2: Seq<u64>, r2: Seq<u8>)
    requires
        s1.len() == s2.len(),
        u64_flat(s1) + r1 == u64_flat(s2) + r2,
    ensures
        s1 == s2,
        r1 == r2,
    decreases s1.len(),
{
    if s1.len() == 0 {
        assert(u64_flat(s1) + r1 =~= r1);
        assert(u64_flat(s2) + r2 =~= r2);
        assert(s1 =~= s2);
    } else {
        let (d1, d2) = (s1.drop_first(), s2.drop_first());
        lemma_u64_bytes(s1[0], s2[0]);
        lemma_u64_bytes(s2[0], s1[0]);
        assert(u64_flat(s1) + r1 =~= u64_bytes(s1[0]) + (u64_flat(d1) + r1));
        assert(u64_flat(s2) + r2 =~= u64_bytes(s2[0]) + (u64_flat(d2) + r2));
        lemma_split(u64_bytes(s1[0]), u64_flat(d1) + r1, u64_bytes(s2[0]), u64_flat(d2) + r2);
        lemma_u64_flat_inj(d1, r1, d2, r2);
        assert(s1 =~= s2) by {
            assert forall|i: int| 0 <= i < s1.len() implies s1[i] == s2[i] by {
                if i > 0 {
                    assert(s1[i] == d1[i - 1]);
                    assert(s2[i] == d2[i - 1]);
                }
            }
        }
    }
}

/// A length-prefixed sequence of `u64`, followed by anything, determines the
/// sequence and what follows it.
proof fn lemma_u64_seq_inj(s1: Seq<u64>, r1: Seq<u8>, s2: Seq<u64>, r2: Seq<u8>)
    requires
        s1.len() <= u64::MAX,
        s2.len() <= u64::MAX,
        u64_seq_bytes(s1) + r1 == u64_seq_bytes(s2) + r2,
    ensures
        s1 == s2,
        r1 == r2,
{
    lemma_u64_flat_is(s1);
    lemma_u64_flat_is(s2);
    lemma_u64_bytes(s1.len() as u64, s2.len() as u64);
    lemma_u64_bytes(s2.len() as u64, s1.len() as u64);
    assert(u64_seq_bytes(s1) + r1 =~= len_bytes(s1.len()) + (u64_flat(s1) + r1));
    assert(u64_seq_bytes(s2) + r2 =~= len_bytes(s2.len()) + (u64_flat(s2) + r2));
    lemma_split(len_bytes(s1.len()), u64_flat(s1) + r1, len_bytes(s2.len()), u64_flat(s2) + r2);
    assert(s1.len() == s2.len());
    lemma_u64_flat_inj(s1, r1, s2, r2);
}

/// The mapped and flattened sequences are the sequences one after the other.
proof fn lemma_nested_flat_is(c: Seq<Vec<u64>>)
    ensures
        c.map_values(|v: Vec<u64>| u64_seq_bytes(v@)).flatten() == nested_flat(c),
    decreases c.len(),
{
    if c.len() > 0 {
        lemma_nested_flat_is(c.drop_first());
        let m = c.map_values(|v: Vec<u64>| u64_seq_bytes(v@));
        assert(m.drop_first() =~= c.drop_first().map_values(|v: Vec<u64>| u64_seq_bytes(v@)));
        assert(m.first() == u64_seq_bytes(c[0]@));
    } else {
        assert(c.map_values(|v: Vec<u64>| u64_seq_bytes(v@)) =~= Seq::<Seq<u8>>::empty());
    }
}

/// Length-prefixed sequences one after the other, followed by anything,
/// determine each sequence, when their number is known, and what follows.
proof fn lemma_nested_flat_inj(c1: Seq<Vec<u64>>, r1: Seq<u8>, c2: Seq<Vec<u64>>, r2: Seq<u8>)
    requires
        c1.len() == c2.len(),
        forall|i: int| 0 <= i < c1.len() ==> #[trigger] c1[i]@.len() <= u64::MAX,
        forall|i: int| 0 <= i < c2.len() ==> #[trigger] c2[i]@.len() <= u64::MAX,
        nested_flat(c1) + r1 == nested_flat(c2) + r2,
    ensures
        forall|i: int| 0 <= i < c1.len() ==> #[trigger] c1[i]@ == c2[i]@,
        r1 == r2,
    decreases c1.len(),
{
    if c1.len() == 0 {
        assert(nested_flat(c1) + r1 =~= r1);
        assert(nested_flat(c2) + r2 =~= r2);
    } else {
        let (d1, d2) = (c1.drop_first(), c2.drop_first());
        assert(nested_flat(c1) + r1 =~= u64_seq_bytes(c1[0]@) + (nested_flat(d1) + r1));
        assert(nested_flat(c2) + r2 =~= u64_seq_bytes(c2[0]@) + (nested_flat(d2) + r2));
        lemma_u64_seq_inj(c1[0]@, nested_flat(d1) + r1, c2[0]@, nested_flat(d2) + r2);
        assert forall|i: int| 0 <= i < d1.len() implies #[trigger] d1[i]@.len() <= u64::MAX by {
            assert(d1[i] == c1[i + 1]);
        }
        assert forall|i: int| 0 <= i < d2.len() implies #[trigger] d2[i]@.len() <= u64::MAX by {
            assert(d2[i] == c2[i + 1]);
        }
        lemma_nested_flat_inj(d1, r1, d2, r2);
        assert forall|i: int| 0 <= i < c1.len() implies #[trigger] c1[i]@ == c2[i]@ by {
            if i > 0 {
                assert(c1[i] == d1[i - 1]);
                assert(c2[i] == d2[i - 1]);
            }
        }
    }
}

/// A length-prefixed sequence of sequences, followed by anything, determines
/// every inner sequence and what follows.
proof fn lemma_nested_seq_inj(c1: Seq<Vec<u64>>, r1: Seq<u8>, c2: Seq<Vec<u64>>, r2: Seq<u8>)
    requires
        c1.len() <= u64::MAX,
        c2.len() <= u64::MAX,
        forall|i: int| 0 <= i < c1.len() ==> #[trigger] c1[i]@.len() <= u64::MAX,
        forall|i: int| 0 <= i < c2.len() ==> #[trigger] c2[i]@.len() <= u64::MAX,
        nested_u64_seq_bytes(c1) + r1 == nested_u64_seq_bytes(c2) + r2,
    ensures
        c1.len() == c2.len(),
        forall|i: int| 0 <= i < c1.len() ==> #[trigger] c1[i]@ == c2[i]@,
        r1 == r2,
{
    lemma_nested_flat_is(c1);
    lemma_nested_flat_is(c2);
    lemma_u64_bytes(c1.len() as u64, c2.len() as u64);
    lemma_u64_bytes(c2.len() as u64, c1.len() as u64);
    assert(nested_u64_seq_bytes(c1) + r1 =~= len_bytes(c1.len()) + (nested_flat(c1) + r1));
    assert(nested_u64_seq_bytes(c2) + r2 =~= len_bytes(c2.len()) + (nested_flat(c2) + r2));
    lemma_split(len_bytes(c1.len()), nested_flat(c1) + r1, len_bytes(c2.len()), nested_flat(c2) + r2);
    lemma_nested_flat_inj(c1, r1, c2, r2);
}

/// Different client requests have different bytes.
proof fn lemma_request_bytes_inj(a: ClientRequest, b: ClientRequest)
    requires
        encode_utf8(a.client@).len() <= u64::MAX,
        encode_utf8(b.client@).len() <= u64::MAX,
        a.payload@.len() <= u64::MAX,
        b.payload@.len() <= u64::MAX,
        spec_request_bytes(a) == spec_request_bytes(b),
    ensures
        a.client@ == b.client@,
        a.serial == b.serial,
        a.payload@ == b.payload@,
{
    let (ua, ub) = (encode_utf8(a.client@), encode_utf8(b.client@));
    let ta = ua + (u64_bytes(a.serial) + (len_bytes(a.payload@.len()) + a.payload@));
    let tb = ub + (u64_bytes(b.serial) + (len_bytes(b.payload@.len()) + b.payload@));
    assert(spec_request_bytes(a) =~= len_bytes(ua.len()) + ta);
    assert(spec_request_bytes(b) =~= len_bytes(ub.len()) + tb);
    lemma_u64_bytes(ua.len() as u64, ub.len() as u64);
    lemma_u64_bytes(ub.len() as u64, ua.len() as u64);
    lemma_split(len_bytes(ua.len()), ta, len_bytes(ub.len()), tb);
    lemma_split(
        ua,
        u64_bytes(a.serial) + (len_bytes(a.payload@.len()) + a.payload@),
        ub,
        u64_bytes(b.serial) + (len_bytes(b.payload@.len()) + b.payload@),
    );
    vstd::utf8::encode_utf8_decode_utf8(a.client@);
    vstd::utf8::encode_utf8_decode_utf8(b.client@);
    lemma_u64_bytes(a.serial, b.serial);
    lemma_u64_bytes(b.serial, a.serial);
    lemma_split(
        u64_bytes(a.serial),
        len_bytes(a.payload@.len()) + a.payload@,
        u64_bytes(b.serial),
        len_bytes(b.payload@.len()) + b.payload@,
    );
    lemma_u64_bytes(a.payload@.len() as u64, b.payload@.len() as u64);
    lemma_u64_bytes(b.payload@.len() as u64, a.payload@.len() as u64);
    lemma_split(len_bytes(a.payload@.len()), a.payload@, len_bytes(b.payload@.len()), b.payload@);
}

/// The stored value loses nothing of a payload: two payloads stored as the
/// same bytes carry the same data. In particular a membership change keeps
/// every one of its configurations, in order, and all of its nodes.
pub proof fn lemma_log_value_injective(p1: LogPayload, p2: LogPayload)
    requires
        payload_fits(p1),
        payload_fits(p2),
        spec_log_value(p1) == spec_log_value(p2),
    ensures
        same_payload(p1, p2),
{
    let (t1, x1) = payload_parts(p1);
    let (t2, x2) = payload_parts(p2);
    assert(spec_log_value(p1) =~= tag_bytes(t1) + x1);
    assert(spec_log_value(p2) =~= tag_bytes(t2) + x2);
    lemma_tag_roundtrip(t1, x1);
    lemma_tag_roundtrip(t2, x2);
    assert(t1 == t2);
    lemma_split(tag_bytes(t1), x1, tag_bytes(t2), x2);
    match (p1, p2) {
        (LogPayload::Normal(a), LogPayload::Normal(b)) => {
            lemma_request_bytes_inj(a, b);
        },
        (
            LogPayload::Membership { configs: c1, all_nodes: a1 },
            LogPayload::Membership { configs: c2, all_nodes: a2 },
        ) => {
            assert(x1 =~= nested_u64_seq_bytes(c1@) + (u64_seq_bytes(a1@) + Seq::<u8>::empty()));
            assert(x2 =~= nested_u64_seq_bytes(c2@) + (u64_seq_bytes(a2@) + Seq::<u8>::empty()));
            lemma_nested_seq_inj(
                c1@,
                u64_seq_bytes(a1@) + Seq::<u8>::empty(),
                c2@,
                u64_seq_bytes(a2@) + Seq::<u8>::empty(),
            );
            lemma_u64_seq_inj(a1@, Seq::<u8>::empty(), a2@, Seq::<u8>::empty());
        },
        _ => {},
    }
}

/// The tag of a payload and the bytes of its fields.
spec fn payload_parts(p: LogPayload) -> (u32, Seq<u8>) {
    match p {
        LogPayload::Blank => (0, Seq::empty()),
        LogPayload::Normal(r) => (1, spec_request_bytes(r)),
        LogPayload::Membership { configs, all_nodes } => (
            2,
            nested_u64_seq_bytes(configs@) + u64_seq_bytes(all_nodes@),
        ),
    }
}

/// The bytes of a client request.
pub fn request_bytes(r: &ClientRequest) -> (bytes: Vec<u8>)
    ensures
        bytes@ == spec_request_bytes(*r),
{
    match bincode_serialize_request(r.client.as_str(), r.serial, r.payload.as_slice()) {
        Ok(bytes) => bytes,
        Err(_) => {
            proof {
                assert(false);
            }
            Vec::new()
        },
    }
}

/// The value a payload is stored as.
pub fn log_value(p: &LogPayload) -> (value: Vec<u8>)
    ensures
        value@ == spec_log_value(*p),
{
    match p {
        LogPayload::Blank => encode_tag(0),
        LogPayload::Normal(r) => {
            let mut value = encode_tag(1);
            let mut fields = request_bytes(r);
            value.append(&mut fields);
            value
        },
        LogPayload::Membership { configs, all_nodes } => {
            let mut value = encode_tag(2);
            let mut fields = match bincode_serialize_membership(
                configs.as_slice(),
                all_nodes.as_slice(),
            ) {
                Ok(bytes) => bytes,
                Err(_) => {
                    proof {
                        assert(false);
                    }
                    Vec::new()
                },
            };
            value.append(&mut fields);
            proof {
                assert(value@ == tag_bytes(2) + (nested_u64_seq_bytes(configs@) + u64_seq_bytes(
                    all_nodes@,
                )));
            }
            value
        },
    }
}

/// The key and value each entry is stored as, in order.
pub fn log_records(entries: &Vec<LogEntry>) -> (records: Vec<(Vec<u8>, Vec<u8>)>)
    ensures
        records@.len() == entries@.len(),
        forall|i: int|
            0 <= i < entries@.len() ==> (#[trigger] records@[i]).0@ == spec_log_key(
                entries@[i].term,
                entries@[i].index,
            ) && records@[i].1@ == spec_log_value(entries@[i].payload),
{
    let mut records: Vec<(Vec<u8>, Vec<u8>)> = Vec::new();
    let mut i: usize = 0;
    while i < entries.len()
        invariant
            i <= entries@.len(),
            records@.len() == i,
            forall|j: int|
                0 <= j < i ==> (#[trigger] records@[j]).0@ == spec_log_key(
                    entries@[j].term,
                    entries@[j].index,
                ) && records@[j].1@ == spec_log_value(entries@[j].payload),
        decreases entries@.len() - i,
    {
        let entry = &entries[i];
        records.push((log_key(entry.term, entry.index), log_value(&entry.payload)));
        i = i + 1;
    }
    records
}

} // verus!
