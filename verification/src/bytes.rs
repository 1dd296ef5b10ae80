//! Byte framing of the values that travel between nodes.
//!
//! The encoding is bincode's default one (fixed-width little-endian
//! integers, trailing bytes allowed when decoding). The library calls bincode
//! on plain values and builds the framing of its own message types on top.

use vstd::bytes::{spec_u32_from_le_bytes, spec_u32_to_le_bytes};
use crate::text::{decimal, decimal_text};
use vstd::prelude::*;
use vstd::string::StringExecFns;

verus! {

#[verifier::external_type_specification]
#[verifier::external_body]
pub struct ExBincodeErrorKind(bincode::ErrorKind);

/// Why a byte sequence could not be decoded into a message.
#[derive(Debug, Clone, Copy, PartialEq, Eq)]
pub enum WireError {
    /// Fewer bytes were available than the message needs.
    Truncated,
    /// The variant tag `tag` names none of the `variants` variants of the message.
    UnknownVariant { tag: u32, variants: u32 },
}

impl WireError {
    /// The text a decoding error is reported with.
    pub open spec fn spec_message(self) -> Seq<char> {
        match self {
            WireError::Truncated => "io error: unexpected end of file"@,
            WireError::UnknownVariant { tag, variants } => "invalid value: integer `"@ + decimal(
                tag as nat,
            ) + "`, expected variant index 0 <= i < "@ + decimal(variants as nat),
        }
    }

    /// The text a decoding error is reported with.
    pub fn message(&self) -> (m: String)
        ensures
            m@ == self.spec_message(),
    {
        match self {
            WireError::Truncated => String::from_str("io error: unexpected end of file"),
            WireError::UnknownVariant { tag, variants } => String::from_str(
                "invalid value: integer `",
            ).concat(decimal_text(*tag as u64).as_str()).concat(
                "`, expected variant index 0 <= i < ",
            ).concat(decimal_text(*variants as u64).as_str()),
        }
    }
}

/// `bincode::serialize` applied to a `u32`.
///
/// With bincode's default options an integer is written in fixed width,
/// little endian; the size limit is infinite and the output is a `Vec`, so
/// the call cannot fail.
#[verifier::external_body]
fn bincode_serialize_u32(v: u32) -> (r: Result<Vec<u8>, bincode::Error>)
    ensures
        r is Ok,
        r matches Ok(b) ==> b@ == spec_u32_to_le_bytes(v),
{
    bincode::serialize(&v)
}

/// `bincode::deserialize::<u32>` applied to a byte slice.
///
/// Bincode reads the first four bytes as a little-endian integer and fails
/// when fewer are present; trailing bytes are allowed.
#[verifier::external_body]
fn bincode_deserialize_u32(data: &[u8]) -> (r: Result<u32, bincode::Error>)
    ensures
        r is Ok <==> data@.len() >= 4,
        r matches Ok(v) ==> v == spec_u32_from_le_bytes(data@.subrange(0, 4)),
{
    bincode::deserialize::<u32>(data)
}

/// `bincode::serialize` applied to the unit value `()`.
///
/// A unit value is written as nothing at all, and the call cannot fail.
#[verifier::external_body]
fn bincode_serialize_unit() -> (r: Result<Vec<u8>, bincode::Error>)
    ensures
        r is Ok,
        r matches Ok(b) ==> b@.len() == 0,
{
    bincode::serialize(&())
}

/// `bincode::deserialize::<()>` applied to a byte slice.
///
/// A unit value reads no bytes, and trailing bytes are allowed, so every
/// input decodes.
#[verifier::external_body]
fn bincode_deserialize_unit(data: &[u8]) -> (r: Result<(), bincode::Error>)
    ensures
        r is Ok,
{
    bincode::deserialize::<()>(data)
}

/// The bytes of a variant tag.
pub open spec fn tag_bytes(tag: u32) -> Seq<u8> {
    spec_u32_to_le_bytes(tag)
}

/// The variant tag at the front of `data`, where there is one.
pub open spec fn leading_tag(data: Seq<u8>) -> Option<u32> {
    if data.len() >= 4 {
        Some(spec_u32_from_le_bytes(data.subrange(0, 4)))
    } else {
        None
    }
}

/// Encodes a variant tag.
pub fn encode_tag(tag: u32) -> (b: Vec<u8>)
    ensures
        b@ == tag_bytes(tag),
{
    match bincode_serialize_u32(tag) {
        Ok(b) => b,
        Err(_) => {
            proof {
                assert(false);
            }
            Vec::new()
        },
    }
}

/// Reads the variant tag at the front of `data`.
pub fn decode_tag(data: &[u8]) -> (r: Result<u32, WireError>)
    ensures
        r is Ok <==> leading_tag(data@) is Some,
        r matches Ok(t) ==> leading_tag(data@) == Some(t),
        r is Err ==> r == Err::<u32, WireError>(WireError::Truncated),
{
    match bincode_deserialize_u32(data) {
        Ok(t) => Ok(t),
        Err(_) => Err(WireError::Truncated),
    }
}

/// Encodes a message without fields: no bytes.
pub fn encode_empty() -> (b: Vec<u8>)
    ensures
        b@ == Seq::<u8>::empty(),
{
    match bincode_serialize_unit() {
        Ok(b) => b,
        Err(_) => {
            proof {
                assert(false);
            }
            Vec::new()
        },
    }
}

/// Decodes a message without fields: every byte sequence holds one.
pub fn decode_empty(data: &[u8]) -> (r: Result<(), WireError>)
    ensures
        r is Ok,
{
    match bincode_deserialize_unit(data) {
        Ok(()) => Ok(()),
        Err(_) => {
            proof {
                assert(false);
            }
            Err(WireError::Truncated)
        },
    }
}

/// A tag survives encoding and decoding, whatever bytes follow it.
pub proof fn lemma_tag_roundtrip(tag: u32, rest: Seq<u8>)
    ensures
        tag_bytes(tag).len() == 4,
        leading_tag(tag_bytes(tag) + rest) == Some(tag),
{
    vstd::bytes::lemma_auto_spec_u32_to_from_le_bytes();
    assert((tag_bytes(tag) + rest).subrange(0, 4) =~= tag_bytes(tag));
}

/// The tag that decoding reads is encoded by exactly the bytes it was read from.
pub proof fn lemma_tag_canonical(data: Seq<u8>)
    requires
        leading_tag(data) is Some,
    ensures
        tag_bytes(leading_tag(data)->0) == data.subrange(0, 4),
{
    vstd::bytes::lemma_auto_spec_u32_to_from_le_bytes();
}

/// A value with a byte encoding.
pub trait AsBytes {
    /// The bytes that encode `self`.
    spec fn spec_as_bytes(&self) -> Seq<u8>;

    /// Encodes `self`.
    fn as_bytes(&self) -> (b: Vec<u8>)
        ensures
            b@ == self.spec_as_bytes(),
    ;
}

/// A value that can be read back from bytes.
pub trait FromBytes: Sized {
    /// The value that `data` decodes to, where it decodes.
    spec fn spec_from_bytes(data: Seq<u8>) -> Option<Self>;

    /// Decodes a value from the front of `data`.
    fn from_bytes(data: &[u8]) -> (r: Result<Self, WireError>)
        ensures
            r is Ok <==> Self::spec_from_bytes(data@) is Some,
            r matches Ok(v) ==> Self::spec_from_bytes(data@) == Some(v),
    ;
}

/// A value whose encoding reads back as itself, whatever bytes follow it.
pub trait WireFormat: AsBytes + FromBytes {
    /// Decoding undoes encoding, trailing bytes notwithstanding.
    proof fn lemma_wire_roundtrip(v: Self, rest: Seq<u8>)
        ensures
            Self::spec_from_bytes(v.spec_as_bytes() + rest) == Some(v),
    ;
}

/// For every message type of the wire format, decoding the bytes a value is
/// encoded as gives back that value.
pub proof fn lemma_from_bytes_undoes_as_bytes<T: WireFormat>(v: T)
    ensures
        T::spec_from_bytes(v.spec_as_bytes()) == Some(v),
{
    T::lemma_wire_roundtrip(v, Seq::empty());
    assert(v.spec_as_bytes() + Seq::<u8>::empty() =~= v.spec_as_bytes());
}

} // verus!
