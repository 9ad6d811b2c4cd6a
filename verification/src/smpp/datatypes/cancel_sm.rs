//! Cancelling a message.

use crate::cstring;
use crate::smpp::codec;
use crate::smpp::codec::{CodecError, Decodable, Encodable, PduHeader, ReadError};
use crate::smpp::datatypes::command_id::CommandId;
use crate::smpp::grammar;
use crate::smpp::grammar::{Scan, Written};
use crate::text;
use crate::wire;
use bytes::BytesMut;
use std::io::Cursor;
use vstd::prelude::*;
use vstd::string::*;
use vstd::utf8::*;

verus! {

/// Cancels a message that has not been delivered.
#[derive(Debug, Clone, PartialEq)]
pub struct CancelSm {
    pub service_type: String,
    pub message_id: String,
    pub source_addr_ton: u8,
    pub source_addr_npi: u8,
    pub source_addr: String,
    pub dest_addr_ton: u8,
    pub dest_addr_npi: u8,
    pub destination_addr: String,
}

/// The same as a mathematical value.
#[verifier::ext_equal]
pub struct CancelFields {
    pub service_type: Seq<char>,
    pub message_id: Seq<char>,
    pub source_addr_ton: u8,
    pub source_addr_npi: u8,
    pub source_addr: Seq<char>,
    pub dest_addr_ton: u8,
    pub dest_addr_npi: u8,
    pub destination_addr: Seq<char>,
}

impl View for CancelSm {
    type V = CancelFields;

    open spec fn view(&self) -> CancelFields {
        CancelFields {
            service_type: self.service_type@,
            message_id: self.message_id@,
            source_addr_ton: self.source_addr_ton,
            source_addr_npi: self.source_addr_npi,
            source_addr: self.source_addr@,
            dest_addr_ton: self.dest_addr_ton,
            dest_addr_npi: self.dest_addr_npi,
            destination_addr: self.destination_addr@,
        }
    }
}

impl CancelFields {
    /// The fields on the wire.
    pub open spec fn written(self) -> Written {
        Written::new().string(self.service_type, 6).string(self.message_id, 65).byte(self.source_addr_ton).byte(self.source_addr_npi).string(self.source_addr, 21).byte(self.dest_addr_ton).byte(self.dest_addr_npi).string(self.destination_addr, 21)
    }

    /// Where reading the fields ends.
    pub open spec fn end(body: Seq<u8>) -> Scan {
        Scan::of(body).after_string(6, "service_type"@).after_string(65, "message_id"@).after_byte().after_byte().after_string(21, "source_addr"@).after_byte().after_byte().after_string(21, "destination_addr"@)
    }

    /// The fields that are read.
    pub open spec fn read(body: Seq<u8>) -> CancelFields {
        let s0 = Scan::of(body);
        let s1 = s0.after_string(6, "service_type"@);
        let s2 = s1.after_string(65, "message_id"@);
        let s3 = s2.after_byte();
        let s4 = s3.after_byte();
        let s5 = s4.after_string(21, "source_addr"@);
        let s6 = s5.after_byte();
        let s7 = s6.after_byte();
        CancelFields {
            service_type: s0.string(),
            message_id: s1.string(),
            source_addr_ton: s2.byte(),
            source_addr_npi: s3.byte(),
            source_addr: s4.string(),
            dest_addr_ton: s5.byte(),
            dest_addr_npi: s6.byte(),
            destination_addr: s7.string(),
        }
    }

    /// The fields can be written and read back.
    pub open spec fn fits(self) -> bool {
        &&& grammar::fits(self.service_type, 6)
        &&& grammar::fits(self.message_id, 65)
        &&& grammar::fits(self.source_addr, 21)
        &&& grammar::fits(self.destination_addr, 21)
    }
}

impl CancelSm {
    /// Reads the fields.
    pub(crate) fn read(buf: &mut Cursor<&[u8]>) -> (res: Result<Self, ReadError>)
        ensures
            ({
                let body = wire::cursor_rest(*old(buf));
                let end = CancelFields::end(body);
                &&& res is Ok <==> end.ok()
                &&& res matches Ok(pdu) ==> pdu@ == CancelFields::read(body)
                &&& res matches Err(e) ==> e.is_fault(end.fault->0)
                &&& wire::cursor_rest(*final(buf)) == end.rest
            }),
    {
        let service_type = match codec::read_string(buf, 6, "service_type") {
            Ok(s) => s,
            Err(e) => {
                return Err(e);
            },
        };
        let message_id = match codec::read_string(buf, 65, "message_id") {
            Ok(s) => s,
            Err(e) => {
                return Err(e);
            },
        };
        let source_addr_ton: u8 = match codec::read_byte(buf) {
            Ok(b) => b,
            Err(e) => {
                return Err(e);
            },
        };
        let source_addr_npi: u8 = match codec::read_byte(buf) {
            Ok(b) => b,
            Err(e) => {
                return Err(e);
            },
        };
        let source_addr = match codec::read_string(buf, 21, "source_addr") {
            Ok(s) => s,
            Err(e) => {
                return Err(e);
            },
        };
        let dest_addr_ton: u8 = match codec::read_byte(buf) {
            Ok(b) => b,
            Err(e) => {
                return Err(e);
            },
        };
        let dest_addr_npi: u8 = match codec::read_byte(buf) {
            Ok(b) => b,
            Err(e) => {
                return Err(e);
            },
        };
        let destination_addr = match codec::read_string(buf, 21, "destination_addr") {
            Ok(s) => s,
            Err(e) => {
                return Err(e);
            },
        };
        Ok(
            CancelSm {
                service_type,
                message_id,
                source_addr_ton,
                source_addr_npi,
                source_addr,
                dest_addr_ton,
                dest_addr_npi,
                destination_addr,
            },
        )
    }
}

impl Encodable for CancelSm {
    open spec fn written(&self) -> Written {
        self@.written()
    }

    open spec fn size(&self) -> nat {
        117
    }

    fn encode(&self, buf: &mut BytesMut) -> Result<(), CodecError> {
        let ghost start = wire::buffer_bytes(*buf);
        let ghost w = Written::new();
        assert(start + w.bytes =~= start);
        match codec::write_string(buf, self.service_type.as_str(), 6, Ghost(start), Ghost(w)) {
            Ok(_) => {},
            Err(e) => {
                return Err(e);
            },
        }
        let ghost w = w.string(self.service_type@, 6);
        match codec::write_string(buf, self.message_id.as_str(), 65, Ghost(start), Ghost(w)) {
            Ok(_) => {},
            Err(e) => {
                return Err(e);
            },
        }
        let ghost w = w.string(self.message_id@, 65);
        codec::write_byte(buf, self.source_addr_ton, Ghost(start), Ghost(w));
        let ghost w = w.byte(self.source_addr_ton);
        codec::write_byte(buf, self.source_addr_npi, Ghost(start), Ghost(w));
        let ghost w = w.byte(self.source_addr_npi);
        match codec::write_string(buf, self.source_addr.as_str(), 21, Ghost(start), Ghost(w)) {
            Ok(_) => {},
            Err(e) => {
                return Err(e);
            },
        }
        let ghost w = w.string(self.source_addr@, 21);
        codec::write_byte(buf, self.dest_addr_ton, Ghost(start), Ghost(w));
        let ghost w = w.byte(self.dest_addr_ton);
        codec::write_byte(buf, self.dest_addr_npi, Ghost(start), Ghost(w));
        let ghost w = w.byte(self.dest_addr_npi);
        match codec::write_string(buf, self.destination_addr.as_str(), 21, Ghost(start), Ghost(w)) {
            Ok(_) => {},
            Err(e) => {
                return Err(e);
            },
        }
        Ok(())
    }

    fn encoded_size(&self) -> usize {
        6 + 65 + 1 + 1 + 21 + 1 + 1 + 21
    }
}

impl Decodable for CancelSm {
    open spec fn command() -> CommandId {
        CommandId::CANCEL_SM
    }

    open spec fn end(body: Seq<u8>) -> Scan {
        CancelFields::end(body)
    }

    open spec fn is_body(self, header: PduHeader, body: Seq<u8>) -> bool {
        self@ == CancelFields::read(body)
    }

    fn decode(header: PduHeader, buf: &mut Cursor<&[u8]>) -> Result<Self, CodecError> {
        if header.command_id != CommandId::CANCEL_SM {
            return Err(codec::command_mismatch());
        }
        match CancelSm::read(buf) {
            Ok(pdu) => Ok(pdu),
            Err(e) => Err(e.into_codec()),
        }
    }

    fn command_id() -> CommandId {
        CommandId::CANCEL_SM
    }
}

/// A cancellation that fits, written and read back, is the cancellation.
pub proof fn law_cancel_roundtrip(pdu: CancelFields, tail: Seq<u8>)
    requires
        pdu.fits(),
    ensures
        pdu.written().ok(),
        CancelFields::end(pdu.written().bytes + tail) == Scan::of(tail),
        CancelFields::read(pdu.written().bytes + tail) == pdu,
{
    let t8 = tail;
    let t7 = cstring::cstring_bytes(pdu.destination_addr) + t8;
    let t6 = seq![pdu.dest_addr_npi] + t7;
    let t5 = seq![pdu.dest_addr_ton] + t6;
    let t4 = cstring::cstring_bytes(pdu.source_addr) + t5;
    let t3 = seq![pdu.source_addr_npi] + t4;
    let t2 = seq![pdu.source_addr_ton] + t3;
    let t1 = cstring::cstring_bytes(pdu.message_id) + t2;
    let t0 = cstring::cstring_bytes(pdu.service_type) + t1;
    let w0 = Written::new();
    let w1 = w0.string(pdu.service_type, 6);
    let w2 = w1.string(pdu.message_id, 65);
    let w3 = w2.byte(pdu.source_addr_ton);
    let w4 = w3.byte(pdu.source_addr_npi);
    let w5 = w4.string(pdu.source_addr, 21);
    let w6 = w5.byte(pdu.dest_addr_ton);
    let w7 = w6.byte(pdu.dest_addr_npi);
    grammar::lemma_new(t0);
    grammar::lemma_then_string(w0, pdu.service_type, 6, t1);
    grammar::lemma_then_string(w1, pdu.message_id, 65, t2);
    grammar::lemma_then_byte(w2, pdu.source_addr_ton, t3);
    grammar::lemma_then_byte(w3, pdu.source_addr_npi, t4);
    grammar::lemma_then_string(w4, pdu.source_addr, 21, t5);
    grammar::lemma_then_byte(w5, pdu.dest_addr_ton, t6);
    grammar::lemma_then_byte(w6, pdu.dest_addr_npi, t7);
    grammar::lemma_then_string(w7, pdu.destination_addr, 21, t8);
    grammar::lemma_read_string(pdu.service_type, 6, "service_type"@, t1);
    grammar::lemma_read_string(pdu.message_id, 65, "message_id"@, t2);
    grammar::lemma_read_byte(pdu.source_addr_ton, t3);
    grammar::lemma_read_byte(pdu.source_addr_npi, t4);
    grammar::lemma_read_string(pdu.source_addr, 21, "source_addr"@, t5);
    grammar::lemma_read_byte(pdu.dest_addr_ton, t6);
    grammar::lemma_read_byte(pdu.dest_addr_npi, t7);
    grammar::lemma_read_string(pdu.destination_addr, 21, "destination_addr"@, t8);
}

impl CancelSm {
    pub fn new(message_id: &str, dest_addr: &str) -> (pdu: Self)
        ensures
            pdu@ == (CancelFields {
                service_type: Seq::empty(),
                message_id: message_id@,
                source_addr_ton: 0,
                source_addr_npi: 0,
                source_addr: Seq::empty(),
                dest_addr_ton: 0,
                dest_addr_npi: 0,
                destination_addr: dest_addr@,
            }),
    {
        CancelSm {
            service_type: String::new(),
            message_id: message_id.to_owned(),
            source_addr_ton: 0,
            source_addr_npi: 0,
            source_addr: String::new(),
            dest_addr_ton: 0,
            dest_addr_npi: 0,
            destination_addr: dest_addr.to_owned(),
        }
    }
}

/// A cancellation on the wire, field by field; every string ends in a zero.
pub proof fn law_cancel_on_wire(m: CancelFields)
    ensures
        m.written().ok() <==> encode_utf8(m.service_type).len() <= 5 && encode_utf8(
            m.message_id,
        ).len() <= 64 && encode_utf8(m.source_addr).len() <= 20 && encode_utf8(
            m.destination_addr,
        ).len() <= 20,
        m.written().ok() ==> m.written().bytes == (encode_utf8(m.service_type) + seq![0u8]) + (encode_utf8(m.message_id) + seq![0u8]) + seq![m.source_addr_ton, m.source_addr_npi] + (encode_utf8(m.source_addr) + seq![0u8]) + seq![m.dest_addr_ton, m.dest_addr_npi] + (encode_utf8(m.destination_addr) + seq![0u8]),
{
    if m.written().ok() {
        assert(m.written().bytes =~= (encode_utf8(m.service_type) + seq![0u8]) + (encode_utf8(m.message_id) + seq![0u8]) + seq![m.source_addr_ton, m.source_addr_npi] + (encode_utf8(m.source_addr) + seq![0u8]) + seq![m.dest_addr_ton, m.dest_addr_npi] + (encode_utf8(m.destination_addr) + seq![0u8]));
    }
}

/// What a cancellation is read as: the service, the id of the message, and both addresses.
pub proof fn law_cancel_is_read(service_type: Seq<u8>, message_id: Seq<u8>, source_addr_ton: u8, source_addr_npi: u8, source_addr: Seq<u8>, dest_addr_ton: u8, dest_addr_npi: u8, destination_addr: Seq<u8>, tail: Seq<u8>)
    requires
        !service_type.contains(0),
        !message_id.contains(0),
        !source_addr.contains(0),
        !destination_addr.contains(0),
    ensures
        ({
            let from_destination_addr = destination_addr + seq![0u8] + tail;
            let from_dest_addr_npi = seq![dest_addr_npi] + from_destination_addr;
            let from_dest_addr_ton = seq![dest_addr_ton] + from_dest_addr_npi;
            let from_source_addr = source_addr + seq![0u8] + from_dest_addr_ton;
            let from_source_addr_npi = seq![source_addr_npi] + from_source_addr;
            let from_source_addr_ton = seq![source_addr_ton] + from_source_addr_npi;
            let from_message_id = message_id + seq![0u8] + from_source_addr_ton;
            let body = service_type + seq![0u8] + from_message_id;
            &&& CancelFields::end(body).ok() <==> service_type.len() < 6 && message_id.len() < 65 && source_addr.len() < 21 && destination_addr.len() < 21
            &&& service_type.len() >= 6 ==> CancelFields::end(body).fault == Some(
                grammar::Fault::TooLong { field: "service_type"@, max_len: 6 },
            )
            &&& service_type.len() < 6 && message_id.len() >= 65 ==> CancelFields::end(body).fault == Some(
                grammar::Fault::TooLong { field: "message_id"@, max_len: 65 },
            )
            &&& service_type.len() < 6 && message_id.len() < 65 && source_addr.len() >= 21 ==> CancelFields::end(body).fault == Some(
                grammar::Fault::TooLong { field: "source_addr"@, max_len: 21 },
            )
            &&& service_type.len() < 6 && message_id.len() < 65 && source_addr.len() < 21 && destination_addr.len() >= 21 ==> CancelFields::end(body).fault == Some(
                grammar::Fault::TooLong { field: "destination_addr"@, max_len: 21 },
            )
            &&& CancelFields::end(body).ok() ==> CancelFields::end(body) == Scan::of(tail)
            &&& CancelFields::end(body).ok() ==> {
                let read = CancelFields::read(body);
                &&& read.service_type == text::lossy_chars(service_type)
                &&& read.message_id == text::lossy_chars(message_id)
                &&& read.source_addr_ton == source_addr_ton
                &&& read.source_addr_npi == source_addr_npi
                &&& read.source_addr == text::lossy_chars(source_addr)
                &&& read.dest_addr_ton == dest_addr_ton
                &&& read.dest_addr_npi == dest_addr_npi
                &&& read.destination_addr == text::lossy_chars(destination_addr)
            }
        }),
{
    let from_destination_addr = destination_addr + seq![0u8] + tail;
    let from_dest_addr_npi = seq![dest_addr_npi] + from_destination_addr;
    let from_dest_addr_ton = seq![dest_addr_ton] + from_dest_addr_npi;
    let from_source_addr = source_addr + seq![0u8] + from_dest_addr_ton;
    let from_source_addr_npi = seq![source_addr_npi] + from_source_addr;
    let from_source_addr_ton = seq![source_addr_ton] + from_source_addr_npi;
    let from_message_id = message_id + seq![0u8] + from_source_addr_ton;
    let body = service_type + seq![0u8] + from_message_id;
    grammar::law_string_by_bytes(service_type, 6, "service_type"@, from_message_id);
    grammar::law_string_by_bytes(message_id, 65, "message_id"@, from_source_addr_ton);
    grammar::lemma_read_byte(source_addr_ton, from_source_addr_npi);
    grammar::lemma_read_byte(source_addr_npi, from_source_addr);
    grammar::law_string_by_bytes(source_addr, 21, "source_addr"@, from_dest_addr_ton);
    grammar::lemma_read_byte(dest_addr_ton, from_dest_addr_npi);
    grammar::lemma_read_byte(dest_addr_npi, from_destination_addr);
    grammar::law_string_by_bytes(destination_addr, 21, "destination_addr"@, tail);
}

/// A cancellation is what its body is read as.
pub proof fn law_cancel_body(header: PduHeader, body: Seq<u8>, cancel: CancelSm)
    ensures
        CancelSm::end(body) == CancelFields::end(body),
        cancel.is_body(header, body) ==> {
            let read = CancelFields::read(body);
            &&& cancel.service_type@ == read.service_type
            &&& cancel.message_id@ == read.message_id
            &&& cancel.source_addr_ton == read.source_addr_ton
            &&& cancel.source_addr_npi == read.source_addr_npi
            &&& cancel.source_addr@ == read.source_addr
            &&& cancel.dest_addr_ton == read.dest_addr_ton
            &&& cancel.dest_addr_npi == read.dest_addr_npi
            &&& cancel.destination_addr@ == read.destination_addr
        },
{
}

} // verus!
