//! Addresses.

use crate::smpp::codec;
use crate::smpp::codec::CodecError;
use crate::smpp::grammar;
use crate::smpp::grammar::{Scan, Written};
use crate::text;
use crate::wire;
use bytes::BytesMut;
use std::io::Cursor;
use vstd::prelude::*;
use vstd::string::*;
use vstd::utf8::*;

verus! {

/// The longest address.
pub const MAX_ADDRESS_LENGTH: usize = 20;

/// The field of an address.
pub const MAX_ADDRESS_BYTES: usize = 21;

/// An address with its type of number (TON) and numbering plan (NPI).
#[derive(Debug, Clone, PartialEq, Eq)]
pub struct Address {
    pub ton: u8,
    pub npi: u8,
    pub address: String,
}

/// An address as a mathematical value.
#[verifier::ext_equal]
pub struct AddressFields {
    pub ton: u8,
    pub npi: u8,
    pub address: Seq<char>,
}

impl View for Address {
    type V = AddressFields;

    open spec fn view(&self) -> AddressFields {
        AddressFields { ton: self.ton, npi: self.npi, address: self.address@ }
    }
}

impl AddressFields {
    /// The address on the wire.
    pub open spec fn written(self) -> Written {
        Written::new().byte(self.ton).byte(self.npi).string(self.address, MAX_ADDRESS_BYTES)
    }

    /// Where reading an address ends.
    pub open spec fn end(s: Seq<u8>) -> Scan {
        Scan::of(s).after_byte().after_byte().after_string(MAX_ADDRESS_BYTES as nat, "address"@)
    }

    /// The address that is read.
    pub open spec fn read(s: Seq<u8>) -> AddressFields {
        AddressFields {
            ton: Scan::of(s).byte(),
            npi: Scan::of(s).after_byte().byte(),
            address: Scan::of(s).after_byte().after_byte().string(),
        }
    }
}

impl Address {
    pub fn new(ton: u8, npi: u8, address: &str) -> (res: Self)
        ensures
            res@ == (AddressFields { ton, npi, address: address@ }),
    {
        Address { ton, npi, address: address.to_owned() }
    }

    /// Reads an address.
    pub fn decode(buf: &mut Cursor<&[u8]>) -> (res: Result<Self, CodecError>)
        ensures
            ({
                let s = wire::cursor_rest(*old(buf));
                let end = AddressFields::end(s);
                &&& res is Ok <==> end.ok()
                &&& res matches Ok(address) ==> address@ == AddressFields::read(s)
                &&& res matches Err(e) ==> e.is_fault(end.fault->0)
                &&& wire::cursor_rest(*final(buf)) == end.rest
            }),
    {
        let ton: u8 = match codec::read_byte(buf) {
            Ok(b) => b,
            Err(e) => {
                return Err(e.into_codec());
            },
        };
        let npi: u8 = match codec::read_byte(buf) {
            Ok(b) => b,
            Err(e) => {
                return Err(e.into_codec());
            },
        };
        match codec::decode_cstring(buf, MAX_ADDRESS_BYTES, "address") {
            Ok(address) => Ok(Address { ton, npi, address }),
            Err(e) => Err(e),
        }
    }

    /// Appends the address.
    pub fn encode(&self, buf: &mut BytesMut) -> (res: Result<(), CodecError>)
        ensures
            wire::buffer_bytes(*final(buf)) == wire::buffer_bytes(*old(buf))
                + self@.written().bytes,
            res is Ok <==> self@.written().ok(),
            res matches Err(e) ==> e.is_field(
                "cstring"@,
                codec::too_long_reason(MAX_ADDRESS_BYTES as nat),
            ),
    {
        let ghost start = wire::buffer_bytes(*buf);
        let ghost w = Written::new();
        assert(start + w.bytes =~= start);
        codec::write_byte(buf, self.ton, Ghost(start), Ghost(w));
        let ghost w = w.byte(self.ton);
        codec::write_byte(buf, self.npi, Ghost(start), Ghost(w));
        let ghost w = w.byte(self.npi);
        codec::write_string(buf, self.address.as_str(), MAX_ADDRESS_BYTES, Ghost(start), Ghost(w))
    }

    /// How many bytes the address takes on the wire.
    pub fn encoded_size(&self) -> (size: usize)
        requires
            encode_utf8(self.address@).len() + 3 <= usize::MAX,
        ensures
            size == encode_utf8(self.address@).len() + 3,
            self@.written().ok() ==> size == self@.written().bytes.len(),
    {
        2 + self.address.as_str().as_bytes().len() + 1
    }
}

/// An address that fits, written and read back, is the address.
pub proof fn law_address_roundtrip(address: AddressFields, tail: Seq<u8>)
    requires
        grammar::fits(address.address, MAX_ADDRESS_BYTES as nat),
    ensures
        address.written().ok(),
        AddressFields::end(address.written().bytes + tail) == Scan::of(tail),
        AddressFields::read(address.written().bytes + tail) == address,
{
    let c = crate::cstring::cstring_bytes(address.address) + tail;
    let b = seq![address.npi] + c;
    let w0 = Written::new();
    let w1 = w0.byte(address.ton);
    let w2 = w1.byte(address.npi);
    grammar::lemma_new(seq![address.ton] + b);
    grammar::lemma_then_byte(w0, address.ton, b);
    grammar::lemma_then_byte(w1, address.npi, c);
    grammar::lemma_then_string(w2, address.address, MAX_ADDRESS_BYTES, tail);
    grammar::lemma_read_byte(address.ton, b);
    grammar::lemma_read_byte(address.npi, c);
    grammar::lemma_read_string(address.address, MAX_ADDRESS_BYTES as nat, "address"@, tail);
}

/// What an address is read as: two bytes and a string of at most 20 bytes.
pub proof fn law_address_is_read(ton: u8, npi: u8, address: Seq<u8>, tail: Seq<u8>)
    requires
        !address.contains(0),
    ensures
        ({
            let from_address = address + seq![0u8] + tail;
            let from_npi = seq![npi] + from_address;
            let body = seq![ton] + from_npi;
            &&& AddressFields::end(body).ok() <==> address.len() < 21
            &&& address.len() >= 21 ==> AddressFields::end(body).fault == Some(
                grammar::Fault::TooLong { field: "address"@, max_len: 21 },
            )
            &&& AddressFields::end(body).ok() ==> AddressFields::end(body) == Scan::of(tail)
            &&& AddressFields::end(body).ok() ==> {
                let read = AddressFields::read(body);
                &&& read.ton == ton
                &&& read.npi == npi
                &&& read.address == text::lossy_chars(address)
            }
        }),
{
    let from_address = address + seq![0u8] + tail;
    let from_npi = seq![npi] + from_address;
    let body = seq![ton] + from_npi;
    grammar::lemma_read_byte(ton, from_npi);
    grammar::lemma_read_byte(npi, from_address);
    grammar::law_string_by_bytes(address, 21, "address"@, tail);
}

/// An address on the wire: two bytes, its text and a zero, if the text has at most 20 bytes.
pub proof fn law_address_on_wire(address: AddressFields)
    ensures
        address.written().ok() <==> encode_utf8(address.address).len() <= 20,
        address.written().ok() ==> address.written().bytes == seq![address.ton, address.npi]
            + encode_utf8(address.address) + seq![0u8],
{
    assert(seq![address.ton, address.npi] + encode_utf8(address.address) + seq![0u8]
        =~= Written::new().byte(address.ton).byte(address.npi).bytes + encode_utf8(
        address.address,
    ).push(0));
}

} // verus!
