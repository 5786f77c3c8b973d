//! A header value held once and handed to both a compression table and the headers it is
//! emitted into, with its UTF-8 validity decided once, when it is first shared.
use vstd::prelude::*;
use vstd::utf8::{decode_utf8_encode_utf8, encode_utf8, valid_utf8};
use crate::decoder::string_from_utf8;

verus! {

/// A header value: text when its bytes are valid UTF-8, raw bytes otherwise.
#[derive(Debug, PartialEq, Eq, Hash)]
pub enum SharedValue {
    Utf8(String),
    Bytes(Vec<u8>),
}

/// The bytes of a shared value.
pub open spec fn shared_bytes(value: SharedValue) -> Seq<u8> {
    match value {
        SharedValue::Utf8(s) => encode_utf8(s@),
        SharedValue::Bytes(b) => b@,
    }
}

impl SharedValue {
    /// The value's bytes.
    pub fn as_bytes(&self) -> (bytes: &[u8])
        ensures
            bytes@ == shared_bytes(*self),
    {
        match self {
            SharedValue::Utf8(s) => s.as_str().as_bytes(),
            SharedValue::Bytes(b) => b.as_slice(),
        }
    }

    /// Share owned bytes: as text when they are valid UTF-8.
    pub fn from_vec(bytes: Vec<u8>) -> (value: SharedValue)
        ensures
            shared_bytes(value) == bytes@,
            (value is Utf8) == valid_utf8(bytes@),
    {
        let ghost b = bytes@;
        match string_from_utf8(bytes) {
            Ok(s) => {
                proof {
                    decode_utf8_encode_utf8(b);
                }
                SharedValue::Utf8(s)
            },
            Err(raw) => SharedValue::Bytes(raw),
        }
    }

    /// Share a copy of borrowed bytes: as text when they are valid UTF-8.
    pub fn from_slice(bytes: &[u8]) -> (value: SharedValue)
        ensures
            shared_bytes(value) == bytes@,
            (value is Utf8) == valid_utf8(bytes@),
    {
        SharedValue::from_vec(vstd::slice::slice_to_vec(bytes))
    }
}

} // verus!
