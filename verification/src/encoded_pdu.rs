//! A PDU as the bytes that go over the wire.

use crate::wire;
use bytes::Bytes;
use std::sync::Arc;
use vstd::prelude::*;
use vstd::slice::slice_to_vec;
use vstd::std_specs::convert::FromSpecImpl;

verus! {

/// Something that is a PDU on the wire.
///
/// The spec functions have bodies only so that ordinary Rust can implement the trait without
/// them; a verified implementation gives its own.
pub trait EncodedPdu: Send + Sync {
    /// The bytes of the PDU.
    open spec fn wire_bytes(&self) -> Seq<u8> {
        arbitrary()
    }

    /// The sequence number, if it has one.
    open spec fn sequence_of(&self) -> Option<u32> {
        arbitrary()
    }

    /// The command, if it has one.
    open spec fn command_of(&self) -> Option<u32> {
        arbitrary()
    }

    fn as_bytes(&self) -> (bytes: &[u8])
        ensures
            bytes@ == self.wire_bytes(),
    ;

    fn sequence_id(&self) -> (id: Option<u32>)
        ensures
            id == self.sequence_of(),
    ;

    fn command_id(&self) -> (id: Option<u32>)
        ensures
            id == self.command_of(),
    ;
}

impl EncodedPdu for Arc<dyn EncodedPdu> {
    open spec fn wire_bytes(&self) -> Seq<u8> {
        (**self).wire_bytes()
    }

    open spec fn sequence_of(&self) -> Option<u32> {
        (**self).sequence_of()
    }

    open spec fn command_of(&self) -> Option<u32> {
        (**self).command_of()
    }

    fn as_bytes(&self) -> &[u8] {
        (**self).as_bytes()
    }

    fn sequence_id(&self) -> Option<u32> {
        (**self).sequence_id()
    }

    fn command_id(&self) -> Option<u32> {
        (**self).command_id()
    }
}

/// A PDU of any protocol, as bytes.
#[derive(Debug)]
pub struct RawPdu {
    data: Bytes,
}

impl Clone for RawPdu {
    fn clone(&self) -> (copy: Self)
        ensures
            copy@ == self@,
    {
        RawPdu { data: self.data.clone() }
    }
}

impl View for RawPdu {
    type V = Seq<u8>;

    closed spec fn view(&self) -> Seq<u8> {
        wire::shared_bytes(self.data)
    }
}

/// The big endian integer at `at`, if the bytes reach that far.
pub open spec fn field32(s: Seq<u8>, at: int) -> Option<u32> {
    if s.len() >= at + 4 {
        Some(wire::be32(s.skip(at)))
    } else {
        None
    }
}

impl RawPdu {
    pub fn new(data: Bytes) -> (pdu: Self)
        ensures
            pdu@ == wire::shared_bytes(data),
    {
        RawPdu { data }
    }

    pub fn from_vec(data: Vec<u8>) -> (pdu: Self)
        ensures
            pdu@ == data@,
    {
        RawPdu { data: wire::share_vec(data) }
    }

    pub fn as_bytes_ref(&self) -> (data: &Bytes)
        ensures
            wire::shared_bytes(*data) == self@,
    {
        &self.data
    }

    pub fn to_vec(&self) -> (data: Vec<u8>)
        ensures
            data@ == self@,
    {
        slice_to_vec(wire::shared_slice(&self.data))
    }

    pub fn len(&self) -> (len: usize)
        ensures
            len == self@.len(),
    {
        wire::shared_slice(&self.data).len()
    }

    pub fn is_empty(&self) -> (empty: bool)
        ensures
            empty == (self@.len() == 0),
    {
        wire::shared_slice(&self.data).len() == 0
    }

    pub fn as_slice(&self) -> (data: &[u8])
        ensures
            data@ == self@,
    {
        wire::shared_slice(&self.data)
    }
}

impl EncodedPdu for RawPdu {
    open spec fn wire_bytes(&self) -> Seq<u8> {
        self@
    }

    open spec fn sequence_of(&self) -> Option<u32> {
        field32(self@, 8)
    }

    open spec fn command_of(&self) -> Option<u32> {
        field32(self@, 4)
    }

    fn as_bytes(&self) -> &[u8] {
        wire::shared_slice(&self.data)
    }

    fn sequence_id(&self) -> Option<u32> {
        let data = wire::shared_slice(&self.data);
        if data.len() >= 12 {
            Some(wire::read_be32(data, 8))
        } else {
            None
        }
    }

    fn command_id(&self) -> Option<u32> {
        let data = wire::shared_slice(&self.data);
        if data.len() >= 8 {
            Some(wire::read_be32(data, 4))
        } else {
            None
        }
    }
}

impl From<Bytes> for RawPdu {
    fn from(data: Bytes) -> (pdu: Self) {
        RawPdu { data }
    }
}

impl FromSpecImpl<Bytes> for RawPdu {
    open spec fn obeys_from_spec() -> bool {
        true
    }

    closed spec fn from_spec(data: Bytes) -> RawPdu {
        RawPdu { data }
    }
}

impl From<Vec<u8>> for RawPdu {
    fn from(data: Vec<u8>) -> (pdu: Self)
        ensures
            pdu@ == data@,
    {
        RawPdu::from_vec(data)
    }
}

impl FromSpecImpl<Vec<u8>> for RawPdu {
    open spec fn obeys_from_spec() -> bool {
        false
    }

    open spec fn from_spec(data: Vec<u8>) -> RawPdu {
        arbitrary()
    }
}

/// Where a PDU has its command and its sequence number: at bytes 4 and 8, the high byte first. A
/// PDU that ends before has none.
pub proof fn law_fields_by_bytes(pdu: RawPdu)
    ensures
        ({
            let s = pdu@;
            &&& s.len() < 8 ==> pdu.command_of() is None
            &&& s.len() >= 8 ==> (pdu.command_of() matches Some(n) && n == s[4] * 16777216 + s[5]
                * 65536 + s[6] * 256 + s[7])
            &&& s.len() < 12 ==> pdu.sequence_of() is None
            &&& s.len() >= 12 ==> (pdu.sequence_of() matches Some(n) && n == s[8] * 16777216 + s[9]
                * 65536 + s[10] * 256 + s[11])
            &&& pdu.wire_bytes() == s
        }),
{
    if pdu@.len() >= 8 {
        wire::law_high_byte_first(0, 0, pdu@.skip(4));
    }
    if pdu@.len() >= 12 {
        wire::law_high_byte_first(0, 0, pdu@.skip(8));
    }
}

} // verus!
