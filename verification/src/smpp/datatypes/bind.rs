//! Binding: the requests to bind as a transmitter, a receiver or both, and the responses.

use crate::smpp::codec;
use crate::smpp::codec::{CodecError, Decodable, Encodable, PduHeader, ReadError};
use crate::smpp::datatypes::command_id::CommandId;
use crate::smpp::grammar;
use crate::smpp::grammar::{Scan, Written};
use crate::text;
use crate::wire;
use bytes::BytesMut;
use std::io::Cursor;
use vstd::prelude::*;
use vstd::utf8::*;
use vstd::string::*;

verus! {

/// The field of a system id.
pub const MAX_SYSTEM_ID_LENGTH: usize = 16;

/// The field of a password.
pub const MAX_PASSWORD_LENGTH: usize = 9;

/// The field of a system type.
pub const MAX_SYSTEM_TYPE_LENGTH: usize = 13;

/// The field of an address range.
pub const MAX_ADDRESS_RANGE_LENGTH: usize = 41;

/// A request to bind, as a mathematical value.
#[verifier::ext_equal]
pub struct BindFields {
    pub system_id: Seq<char>,
    pub password: Seq<char>,
    pub system_type: Seq<char>,
    pub interface_version: u8,
    pub addr_ton: u8,
    pub addr_npi: u8,
    pub address_range: Seq<char>,
}

impl BindFields {
    /// The request on the wire.
    pub open spec fn written(self) -> Written {
        Written::new().string(self.system_id, MAX_SYSTEM_ID_LENGTH).string(
            self.password,
            MAX_PASSWORD_LENGTH,
        ).string(self.system_type, MAX_SYSTEM_TYPE_LENGTH).byte(self.interface_version).byte(
            self.addr_ton,
        ).byte(self.addr_npi).string(self.address_range, MAX_ADDRESS_RANGE_LENGTH)
    }

    /// Behind the strings in front of the interface version.
    pub open spec fn scan_strings(body: Seq<u8>) -> Scan {
        Scan::of(body).after_string(MAX_SYSTEM_ID_LENGTH as nat, "system_id"@).after_string(
            MAX_PASSWORD_LENGTH as nat,
            "password"@,
        ).after_string(MAX_SYSTEM_TYPE_LENGTH as nat, "system_type"@)
    }

    /// Where reading a request ends, with a field of `range_len` bytes for the address range.
    pub open spec fn end(body: Seq<u8>, range_len: nat) -> Scan {
        Self::scan_strings(body).after_byte().after_byte().after_byte().after_string(
            range_len,
            "address_range"@,
        )
    }

    /// The request that is read.
    pub open spec fn read(body: Seq<u8>) -> BindFields {
        let a = Scan::of(body);
        let b = a.after_string(MAX_SYSTEM_ID_LENGTH as nat, "system_id"@);
        let c = b.after_string(MAX_PASSWORD_LENGTH as nat, "password"@);
        let d = Self::scan_strings(body);
        BindFields {
            system_id: a.string(),
            password: b.string(),
            system_type: c.string(),
            interface_version: d.byte(),
            addr_ton: d.after_byte().byte(),
            addr_npi: d.after_byte().after_byte().byte(),
            address_range: d.after_byte().after_byte().after_byte().string(),
        }
    }

    /// The request can be written and read back, with a field of `range_len` bytes for the
    /// address range.
    pub open spec fn fits(self, range_len: nat) -> bool {
        &&& grammar::fits(self.system_id, MAX_SYSTEM_ID_LENGTH as nat)
        &&& grammar::fits(self.password, MAX_PASSWORD_LENGTH as nat)
        &&& grammar::fits(self.system_type, MAX_SYSTEM_TYPE_LENGTH as nat)
        &&& grammar::fits(self.address_range, range_len)
        &&& range_len <= MAX_ADDRESS_RANGE_LENGTH
    }
}

/// A request to bind, written and read back, is the request.
pub proof fn law_bind_roundtrip(bind: BindFields, range_len: nat, tail: Seq<u8>)
    requires
        bind.fits(range_len),
    ensures
        bind.written().ok(),
        BindFields::end(bind.written().bytes + tail, range_len) == Scan::of(tail),
        BindFields::read(bind.written().bytes + tail) == bind,
{
    let g = crate::cstring::cstring_bytes(bind.address_range) + tail;
    let f = seq![bind.addr_npi] + g;
    let e = seq![bind.addr_ton] + f;
    let d = seq![bind.interface_version] + e;
    let c = crate::cstring::cstring_bytes(bind.system_type) + d;
    let b = crate::cstring::cstring_bytes(bind.password) + c;
    let w0 = Written::new();
    let w1 = w0.string(bind.system_id, MAX_SYSTEM_ID_LENGTH);
    let w2 = w1.string(bind.password, MAX_PASSWORD_LENGTH);
    let w3 = w2.string(bind.system_type, MAX_SYSTEM_TYPE_LENGTH);
    let w4 = w3.byte(bind.interface_version);
    let w5 = w4.byte(bind.addr_ton);
    let w6 = w5.byte(bind.addr_npi);
    grammar::lemma_new(crate::cstring::cstring_bytes(bind.system_id) + b);
    grammar::lemma_then_string(w0, bind.system_id, MAX_SYSTEM_ID_LENGTH, b);
    grammar::lemma_then_string(w1, bind.password, MAX_PASSWORD_LENGTH, c);
    grammar::lemma_then_string(w2, bind.system_type, MAX_SYSTEM_TYPE_LENGTH, d);
    grammar::lemma_then_byte(w3, bind.interface_version, e);
    grammar::lemma_then_byte(w4, bind.addr_ton, f);
    grammar::lemma_then_byte(w5, bind.addr_npi, g);
    grammar::lemma_then_string(w6, bind.address_range, MAX_ADDRESS_RANGE_LENGTH, tail);
    grammar::lemma_read_string(bind.system_id, MAX_SYSTEM_ID_LENGTH as nat, "system_id"@, b);
    grammar::lemma_read_string(bind.password, MAX_PASSWORD_LENGTH as nat, "password"@, c);
    grammar::lemma_read_string(bind.system_type, MAX_SYSTEM_TYPE_LENGTH as nat, "system_type"@, d);
    grammar::lemma_read_byte(bind.interface_version, e);
    grammar::lemma_read_byte(bind.addr_ton, f);
    grammar::lemma_read_byte(bind.addr_npi, g);
    grammar::lemma_read_string(bind.address_range, range_len, "address_range"@, tail);
}

/// The fields of a request, as they are read.
pub(crate) struct BindParts {
    pub(crate) system_id: String,
    pub(crate) password: String,
    pub(crate) system_type: String,
    pub(crate) interface_version: u8,
    pub(crate) addr_ton: u8,
    pub(crate) addr_npi: u8,
    pub(crate) address_range: String,
}

impl BindParts {
    pub(crate) open spec fn fields(self) -> BindFields {
        BindFields {
            system_id: self.system_id@,
            password: self.password@,
            system_type: self.system_type@,
            interface_version: self.interface_version,
            addr_ton: self.addr_ton,
            addr_npi: self.addr_npi,
            address_range: self.address_range@,
        }
    }

    /// Reads the fields of a request, with a field of `range_len` bytes for the address range.
    pub(crate) fn decode(buf: &mut Cursor<&[u8]>, range_len: usize) -> (res: Result<
        BindParts,
        ReadError,
    >)
        requires
            range_len > 0,
        ensures
            ({
                let body = wire::cursor_rest(*old(buf));
                let end = BindFields::end(body, range_len as nat);
                &&& res is Ok <==> end.ok()
                &&& res matches Ok(parts) ==> parts.fields() == BindFields::read(body)
                &&& res matches Err(e) ==> e.is_fault(end.fault->0)
                &&& wire::cursor_rest(*final(buf)) == end.rest
            }),
    {
        let system_id = match codec::read_string(buf, MAX_SYSTEM_ID_LENGTH, "system_id") {
            Ok(s) => s,
            Err(e) => {
                return Err(e);
            },
        };
        let password = match codec::read_string(buf, MAX_PASSWORD_LENGTH, "password") {
            Ok(s) => s,
            Err(e) => {
                return Err(e);
            },
        };
        let system_type = match codec::read_string(buf, MAX_SYSTEM_TYPE_LENGTH, "system_type") {
            Ok(s) => s,
            Err(e) => {
                return Err(e);
            },
        };
        let interface_version: u8 = match codec::read_byte(buf) {
            Ok(b) => b,
            Err(e) => {
                return Err(e);
            },
        };
        let addr_ton: u8 = match codec::read_byte(buf) {
            Ok(b) => b,
            Err(e) => {
                return Err(e);
            },
        };
        let addr_npi: u8 = match codec::read_byte(buf) {
            Ok(b) => b,
            Err(e) => {
                return Err(e);
            },
        };
        let address_range = match codec::read_string(buf, range_len, "address_range") {
            Ok(s) => s,
            Err(e) => {
                return Err(e);
            },
        };
        Ok(
            BindParts {
                system_id,
                password,
                system_type,
                interface_version,
                addr_ton,
                addr_npi,
                address_range,
            },
        )
    }

    #[allow(clippy::too_many_arguments)]
    fn encode(
        buf: &mut BytesMut,
        system_id: &str,
        password: &str,
        system_type: &str,
        interface_version: u8,
        addr_ton: u8,
        addr_npi: u8,
        address_range: &str,
    ) -> (res: Result<(), CodecError>)
        ensures
            ({
                let written = (BindFields {
                    system_id: system_id@,
                    password: password@,
                    system_type: system_type@,
                    interface_version,
                    addr_ton,
                    addr_npi,
                    address_range: address_range@,
                }).written();
                &&& wire::buffer_bytes(*final(buf)) == wire::buffer_bytes(*old(buf))
                    + written.bytes
                &&& res is Ok <==> written.ok()
                &&& res matches Err(e) ==> e.is_field(
                    "cstring"@,
                    codec::too_long_reason(written.fault->0 as nat),
                )
            }),
    {
        let ghost start = wire::buffer_bytes(*buf);
        let ghost w = Written::new();
        assert(start + w.bytes =~= start);
        match codec::write_string(buf, system_id, MAX_SYSTEM_ID_LENGTH, Ghost(start), Ghost(w)) {
            Ok(_) => {},
            Err(e) => {
                return Err(e);
            },
        }
        let ghost w = w.string(system_id@, MAX_SYSTEM_ID_LENGTH);
        match codec::write_string(buf, password, MAX_PASSWORD_LENGTH, Ghost(start), Ghost(w)) {
            Ok(_) => {},
            Err(e) => {
                return Err(e);
            },
        }
        let ghost w = w.string(password@, MAX_PASSWORD_LENGTH);
        match codec::write_string(
            buf,
            system_type,
            MAX_SYSTEM_TYPE_LENGTH,
            Ghost(start),
            Ghost(w),
        ) {
            Ok(_) => {},
            Err(e) => {
                return Err(e);
            },
        }
        let ghost w = w.string(system_type@, MAX_SYSTEM_TYPE_LENGTH);
        codec::write_byte(buf, interface_version, Ghost(start), Ghost(w));
        let ghost w = w.byte(interface_version);
        codec::write_byte(buf, addr_ton, Ghost(start), Ghost(w));
        let ghost w = w.byte(addr_ton);
        codec::write_byte(buf, addr_npi, Ghost(start), Ghost(w));
        let ghost w = w.byte(addr_npi);
        codec::write_string(
            buf,
            address_range,
            MAX_ADDRESS_RANGE_LENGTH,
            Ghost(start),
            Ghost(w),
        )
    }
}

/// A response to a request to bind, as a mathematical value. The status goes into the header.
#[verifier::ext_equal]
pub struct BindRespFields {
    pub system_id: Seq<char>,
    pub sc_interface_version: u8,
    pub command_status: u32,
}

impl BindRespFields {
    /// The response on the wire.
    pub open spec fn written(self) -> Written {
        Written::new().string(self.system_id, MAX_SYSTEM_ID_LENGTH).byte(self.sc_interface_version)
    }

    /// Where reading a response ends.
    pub open spec fn end(body: Seq<u8>) -> Scan {
        Scan::of(body).after_string(MAX_SYSTEM_ID_LENGTH as nat, "system_id"@).after_byte()
    }

    /// The response that is read, with the status of its header.
    pub open spec fn read(body: Seq<u8>, command_status: u32) -> BindRespFields {
        BindRespFields {
            system_id: Scan::of(body).string(),
            sc_interface_version: Scan::of(body).after_string(
                MAX_SYSTEM_ID_LENGTH as nat,
                "system_id"@,
            ).byte(),
            command_status,
        }
    }
}

/// A response to a request to bind, written and read back, is the response.
pub proof fn law_bind_resp_roundtrip(resp: BindRespFields, tail: Seq<u8>)
    requires
        grammar::fits(resp.system_id, MAX_SYSTEM_ID_LENGTH as nat),
    ensures
        resp.written().ok(),
        BindRespFields::end(resp.written().bytes + tail) == Scan::of(tail),
        BindRespFields::read(resp.written().bytes + tail, resp.command_status) == resp,
{
    let b = seq![resp.sc_interface_version] + tail;
    let a = crate::cstring::cstring_bytes(resp.system_id) + b;
    assert(resp.written().bytes + tail =~= a);
    grammar::lemma_read_string(resp.system_id, MAX_SYSTEM_ID_LENGTH as nat, "system_id"@, b);
    grammar::lemma_read_byte(resp.sc_interface_version, tail);
}

/// Reads the fields of a response.
fn decode_bind_resp(buf: &mut Cursor<&[u8]>) -> (res: Result<(String, u8), CodecError>)
    requires
        BindRespFields::end(wire::cursor_rest(*old(buf))).fault != Some(grammar::Fault::NoByte),
    ensures
        ({
            let body = wire::cursor_rest(*old(buf));
            let end = BindRespFields::end(body);
            &&& res is Ok <==> end.ok()
            &&& res matches Ok((id, version)) ==> id@ == BindRespFields::read(body, 0).system_id
                && version == BindRespFields::read(body, 0).sc_interface_version
            &&& res matches Err(e) ==> e.is_fault(end.fault->0)
            &&& wire::cursor_rest(*final(buf)) == end.rest
        }),
{
    let system_id = match codec::decode_cstring(buf, MAX_SYSTEM_ID_LENGTH, "system_id") {
        Ok(s) => s,
        Err(e) => {
            return Err(e);
        },
    };
    let sc_interface_version: u8 = wire::get_u8(buf);
    Ok((system_id, sc_interface_version))
}

/// Writes the fields of a response.
fn encode_bind_resp(buf: &mut BytesMut, system_id: &str, sc_interface_version: u8) -> (res: Result<
    (),
    CodecError,
>)
    ensures
        ({
            let written = (BindRespFields {
                system_id: system_id@,
                sc_interface_version,
                command_status: 0,
            }).written();
            &&& wire::buffer_bytes(*final(buf)) == wire::buffer_bytes(*old(buf)) + written.bytes
            &&& res is Ok <==> written.ok()
            &&& res matches Err(e) ==> e.is_field(
                "cstring"@,
                codec::too_long_reason(written.fault->0 as nat),
            )
        }),
{
    let ghost start = wire::buffer_bytes(*buf);
    let ghost w = Written::new();
    assert(start + w.bytes =~= start);
    match codec::write_string(buf, system_id, MAX_SYSTEM_ID_LENGTH, Ghost(start), Ghost(w)) {
        Ok(_) => {},
        Err(e) => {
            return Err(e);
        },
    }
    let ghost w = w.string(system_id@, MAX_SYSTEM_ID_LENGTH);
    codec::write_byte(buf, sc_interface_version, Ghost(start), Ghost(w));
    Ok(())
}

/// A request to bind as a transmitter.
#[derive(Debug, Clone, PartialEq)]
pub struct BindTransmitter {
    pub system_id: String,
    pub password: String,
    pub system_type: String,
    pub interface_version: u8,
    pub addr_ton: u8,
    pub addr_npi: u8,
    pub address_range: String,
}

impl View for BindTransmitter {
    type V = BindFields;

    open spec fn view(&self) -> BindFields {
        BindFields {
            system_id: self.system_id@,
            password: self.password@,
            system_type: self.system_type@,
            interface_version: self.interface_version,
            addr_ton: self.addr_ton,
            addr_npi: self.addr_npi,
            address_range: self.address_range@,
        }
    }
}

impl BindTransmitter {
    pub fn new(system_id: &str, password: &str, system_type: &str, interface_version: u8) -> (bind:
        Self)
        ensures
            bind@ == (BindFields {
                system_id: system_id@,
                password: password@,
                system_type: system_type@,
                interface_version,
                addr_ton: 0,
                addr_npi: 0,
                address_range: Seq::empty(),
            }),
    {
        BindTransmitter {
            system_id: system_id.to_owned(),
            password: password.to_owned(),
            system_type: system_type.to_owned(),
            interface_version,
            addr_ton: 0,
            addr_npi: 0,
            address_range: String::new(),
        }
    }
}

impl Encodable for BindTransmitter {
    open spec fn written(&self) -> Written {
        self@.written()
    }

    open spec fn size(&self) -> nat {
        82
    }

    fn encode(&self, buf: &mut BytesMut) -> Result<(), CodecError> {
        BindParts::encode(
            buf,
            self.system_id.as_str(),
            self.password.as_str(),
            self.system_type.as_str(),
            self.interface_version,
            self.addr_ton,
            self.addr_npi,
            self.address_range.as_str(),
        )
    }

    fn encoded_size(&self) -> usize {
        MAX_SYSTEM_ID_LENGTH + MAX_PASSWORD_LENGTH + MAX_SYSTEM_TYPE_LENGTH + 1 + 1 + 1
            + MAX_ADDRESS_RANGE_LENGTH
    }
}

impl Decodable for BindTransmitter {
    open spec fn command() -> CommandId {
        CommandId::BIND_TRANSMITTER
    }

    open spec fn end(body: Seq<u8>) -> Scan {
        BindFields::end(body, MAX_ADDRESS_RANGE_LENGTH as nat)
    }

    open spec fn is_body(self, header: PduHeader, body: Seq<u8>) -> bool {
        self@ == BindFields::read(body)
    }

    fn decode(header: PduHeader, buf: &mut Cursor<&[u8]>) -> Result<Self, CodecError> {
        if header.command_id != CommandId::BIND_TRANSMITTER {
            return Err(codec::command_mismatch());
        }
        match BindParts::decode(buf, MAX_ADDRESS_RANGE_LENGTH) {
            Ok(parts) => Ok(
                BindTransmitter {
                    system_id: parts.system_id,
                    password: parts.password,
                    system_type: parts.system_type,
                    interface_version: parts.interface_version,
                    addr_ton: parts.addr_ton,
                    addr_npi: parts.addr_npi,
                    address_range: parts.address_range,
                },
            ),
            Err(e) => Err(e.into_codec()),
        }
    }

    fn command_id() -> CommandId {
        CommandId::BIND_TRANSMITTER
    }
}

/// The response to a request to bind as a transmitter.
#[derive(Debug, Clone, PartialEq)]
pub struct BindTransmitterResp {
    pub system_id: String,
    pub sc_interface_version: u8,
    /// The result, which goes into the header.
    pub command_status: u32,
}

impl View for BindTransmitterResp {
    type V = BindRespFields;

    open spec fn view(&self) -> BindRespFields {
        BindRespFields {
            system_id: self.system_id@,
            sc_interface_version: self.sc_interface_version,
            command_status: self.command_status,
        }
    }
}

impl Encodable for BindTransmitterResp {
    open spec fn written(&self) -> Written {
        self@.written()
    }

    open spec fn size(&self) -> nat {
        17
    }

    fn encode(&self, buf: &mut BytesMut) -> Result<(), CodecError> {
        encode_bind_resp(buf, self.system_id.as_str(), self.sc_interface_version)
    }

    fn encoded_size(&self) -> usize {
        MAX_SYSTEM_ID_LENGTH + 1
    }
}

impl Decodable for BindTransmitterResp {
    open spec fn command() -> CommandId {
        CommandId::BIND_TRANSMITTER_RESP
    }

    open spec fn end(body: Seq<u8>) -> Scan {
        BindRespFields::end(body)
    }

    open spec fn is_body(self, header: PduHeader, body: Seq<u8>) -> bool {
        self@ == BindRespFields::read(body, header.command_status.code())
    }

    fn decode(header: PduHeader, buf: &mut Cursor<&[u8]>) -> Result<Self, CodecError> {
        if header.command_id != CommandId::BIND_TRANSMITTER_RESP {
            return Err(codec::command_mismatch());
        }
        match decode_bind_resp(buf) {
            Ok((system_id, sc_interface_version)) => Ok(
                BindTransmitterResp {
                    system_id,
                    sc_interface_version,
                    command_status: header.command_status.as_u32(),
                },
            ),
            Err(e) => Err(e),
        }
    }

    fn command_id() -> CommandId {
        CommandId::BIND_TRANSMITTER_RESP
    }
}

/// A request to bind as a receiver.
#[derive(Debug, Clone, PartialEq)]
pub struct BindReceiver {
    pub system_id: String,
    pub password: String,
    pub system_type: String,
    pub interface_version: u8,
    pub addr_ton: u8,
    pub addr_npi: u8,
    pub address_range: String,
}

impl View for BindReceiver {
    type V = BindFields;

    open spec fn view(&self) -> BindFields {
        BindFields {
            system_id: self.system_id@,
            password: self.password@,
            system_type: self.system_type@,
            interface_version: self.interface_version,
            addr_ton: self.addr_ton,
            addr_npi: self.addr_npi,
            address_range: self.address_range@,
        }
    }
}

impl BindReceiver {
    pub fn new(system_id: &str, password: &str, system_type: &str, interface_version: u8) -> (bind:
        Self)
        ensures
            bind@ == (BindFields {
                system_id: system_id@,
                password: password@,
                system_type: system_type@,
                interface_version,
                addr_ton: 0,
                addr_npi: 0,
                address_range: Seq::empty(),
            }),
    {
        BindReceiver {
            system_id: system_id.to_owned(),
            password: password.to_owned(),
            system_type: system_type.to_owned(),
            interface_version,
            addr_ton: 0,
            addr_npi: 0,
            address_range: String::new(),
        }
    }
}

impl Encodable for BindReceiver {
    open spec fn written(&self) -> Written {
        self@.written()
    }

    open spec fn size(&self) -> nat {
        82
    }

    fn encode(&self, buf: &mut BytesMut) -> Result<(), CodecError> {
        BindParts::encode(
            buf,
            self.system_id.as_str(),
            self.password.as_str(),
            self.system_type.as_str(),
            self.interface_version,
            self.addr_ton,
            self.addr_npi,
            self.address_range.as_str(),
        )
    }

    fn encoded_size(&self) -> usize {
        MAX_SYSTEM_ID_LENGTH + MAX_PASSWORD_LENGTH + MAX_SYSTEM_TYPE_LENGTH + 1 + 1 + 1
            + MAX_ADDRESS_RANGE_LENGTH
    }
}

impl Decodable for BindReceiver {
    open spec fn command() -> CommandId {
        CommandId::BIND_RECEIVER
    }

    open spec fn end(body: Seq<u8>) -> Scan {
        BindFields::end(body, MAX_ADDRESS_RANGE_LENGTH as nat)
    }

    open spec fn is_body(self, header: PduHeader, body: Seq<u8>) -> bool {
        self@ == BindFields::read(body)
    }

    fn decode(header: PduHeader, buf: &mut Cursor<&[u8]>) -> Result<Self, CodecError> {
        if header.command_id != CommandId::BIND_RECEIVER {
            return Err(codec::command_mismatch());
        }
        match BindParts::decode(buf, MAX_ADDRESS_RANGE_LENGTH) {
            Ok(parts) => Ok(
                BindReceiver {
                    system_id: parts.system_id,
                    password: parts.password,
                    system_type: parts.system_type,
                    interface_version: parts.interface_version,
                    addr_ton: parts.addr_ton,
                    addr_npi: parts.addr_npi,
                    address_range: parts.address_range,
                },
            ),
            Err(e) => Err(e.into_codec()),
        }
    }

    fn command_id() -> CommandId {
        CommandId::BIND_RECEIVER
    }
}

/// The response to a request to bind as a receiver.
#[derive(Debug, Clone, PartialEq)]
pub struct BindReceiverResp {
    pub system_id: String,
    pub sc_interface_version: u8,
    /// The result, which goes into the header.
    pub command_status: u32,
}

impl View for BindReceiverResp {
    type V = BindRespFields;

    open spec fn view(&self) -> BindRespFields {
        BindRespFields {
            system_id: self.system_id@,
            sc_interface_version: self.sc_interface_version,
            command_status: self.command_status,
        }
    }
}

impl Encodable for BindReceiverResp {
    open spec fn written(&self) -> Written {
        self@.written()
    }

    open spec fn size(&self) -> nat {
        17
    }

    fn encode(&self, buf: &mut BytesMut) -> Result<(), CodecError> {
        encode_bind_resp(buf, self.system_id.as_str(), self.sc_interface_version)
    }

    fn encoded_size(&self) -> usize {
        MAX_SYSTEM_ID_LENGTH + 1
    }
}

impl Decodable for BindReceiverResp {
    open spec fn command() -> CommandId {
        CommandId::BIND_RECEIVER_RESP
    }

    open spec fn end(body: Seq<u8>) -> Scan {
        BindRespFields::end(body)
    }

    open spec fn is_body(self, header: PduHeader, body: Seq<u8>) -> bool {
        self@ == BindRespFields::read(body, header.command_status.code())
    }

    fn decode(header: PduHeader, buf: &mut Cursor<&[u8]>) -> Result<Self, CodecError> {
        if header.command_id != CommandId::BIND_RECEIVER_RESP {
            return Err(codec::command_mismatch());
        }
        match decode_bind_resp(buf) {
            Ok((system_id, sc_interface_version)) => Ok(
                BindReceiverResp {
                    system_id,
                    sc_interface_version,
                    command_status: header.command_status.as_u32(),
                },
            ),
            Err(e) => Err(e),
        }
    }

    fn command_id() -> CommandId {
        CommandId::BIND_RECEIVER_RESP
    }
}

/// A request to bind as a transceiver.
#[derive(Debug, Clone, PartialEq)]
pub struct BindTransceiver {
    pub system_id: String,
    pub password: String,
    pub system_type: String,
    pub interface_version: u8,
    pub addr_ton: u8,
    pub addr_npi: u8,
    pub address_range: String,
}

impl View for BindTransceiver {
    type V = BindFields;

    open spec fn view(&self) -> BindFields {
        BindFields {
            system_id: self.system_id@,
            password: self.password@,
            system_type: self.system_type@,
            interface_version: self.interface_version,
            addr_ton: self.addr_ton,
            addr_npi: self.addr_npi,
            address_range: self.address_range@,
        }
    }
}

impl BindTransceiver {
    pub fn new(system_id: &str, password: &str, system_type: &str, interface_version: u8) -> (bind:
        Self)
        ensures
            bind@ == (BindFields {
                system_id: system_id@,
                password: password@,
                system_type: system_type@,
                interface_version,
                addr_ton: 0,
                addr_npi: 0,
                address_range: Seq::empty(),
            }),
    {
        BindTransceiver {
            system_id: system_id.to_owned(),
            password: password.to_owned(),
            system_type: system_type.to_owned(),
            interface_version,
            addr_ton: 0,
            addr_npi: 0,
            address_range: String::new(),
        }
    }
}

impl Encodable for BindTransceiver {
    open spec fn written(&self) -> Written {
        self@.written()
    }

    open spec fn size(&self) -> nat {
        82
    }

    fn encode(&self, buf: &mut BytesMut) -> Result<(), CodecError> {
        BindParts::encode(
            buf,
            self.system_id.as_str(),
            self.password.as_str(),
            self.system_type.as_str(),
            self.interface_version,
            self.addr_ton,
            self.addr_npi,
            self.address_range.as_str(),
        )
    }

    fn encoded_size(&self) -> usize {
        MAX_SYSTEM_ID_LENGTH + MAX_PASSWORD_LENGTH + MAX_SYSTEM_TYPE_LENGTH + 1 + 1 + 1
            + MAX_ADDRESS_RANGE_LENGTH
    }
}

impl Decodable for BindTransceiver {
    open spec fn command() -> CommandId {
        CommandId::BIND_TRANSCEIVER
    }

    open spec fn end(body: Seq<u8>) -> Scan {
        BindFields::end(body, MAX_ADDRESS_RANGE_LENGTH as nat)
    }

    open spec fn is_body(self, header: PduHeader, body: Seq<u8>) -> bool {
        self@ == BindFields::read(body)
    }

    fn decode(header: PduHeader, buf: &mut Cursor<&[u8]>) -> Result<Self, CodecError> {
        if header.command_id != CommandId::BIND_TRANSCEIVER {
            return Err(codec::command_mismatch());
        }
        match BindParts::decode(buf, MAX_ADDRESS_RANGE_LENGTH) {
            Ok(parts) => Ok(
                BindTransceiver {
                    system_id: parts.system_id,
                    password: parts.password,
                    system_type: parts.system_type,
                    interface_version: parts.interface_version,
                    addr_ton: parts.addr_ton,
                    addr_npi: parts.addr_npi,
                    address_range: parts.address_range,
                },
            ),
            Err(e) => Err(e.into_codec()),
        }
    }

    fn command_id() -> CommandId {
        CommandId::BIND_TRANSCEIVER
    }
}

/// The response to a request to bind as a transceiver.
#[derive(Debug, Clone, PartialEq)]
pub struct BindTransceiverResp {
    pub system_id: String,
    pub sc_interface_version: u8,
    /// The result, which goes into the header.
    pub command_status: u32,
}

impl View for BindTransceiverResp {
    type V = BindRespFields;

    open spec fn view(&self) -> BindRespFields {
        BindRespFields {
            system_id: self.system_id@,
            sc_interface_version: self.sc_interface_version,
            command_status: self.command_status,
        }
    }
}

impl Encodable for BindTransceiverResp {
    open spec fn written(&self) -> Written {
        self@.written()
    }

    open spec fn size(&self) -> nat {
        17
    }

    fn encode(&self, buf: &mut BytesMut) -> Result<(), CodecError> {
        encode_bind_resp(buf, self.system_id.as_str(), self.sc_interface_version)
    }

    fn encoded_size(&self) -> usize {
        MAX_SYSTEM_ID_LENGTH + 1
    }
}

impl Decodable for BindTransceiverResp {
    open spec fn command() -> CommandId {
        CommandId::BIND_TRANSCEIVER_RESP
    }

    open spec fn end(body: Seq<u8>) -> Scan {
        BindRespFields::end(body)
    }

    open spec fn is_body(self, header: PduHeader, body: Seq<u8>) -> bool {
        self@ == BindRespFields::read(body, header.command_status.code())
    }

    fn decode(header: PduHeader, buf: &mut Cursor<&[u8]>) -> Result<Self, CodecError> {
        if header.command_id != CommandId::BIND_TRANSCEIVER_RESP {
            return Err(codec::command_mismatch());
        }
        match decode_bind_resp(buf) {
            Ok((system_id, sc_interface_version)) => Ok(
                BindTransceiverResp {
                    system_id,
                    sc_interface_version,
                    command_status: header.command_status.as_u32(),
                },
            ),
            Err(e) => Err(e),
        }
    }

    fn command_id() -> CommandId {
        CommandId::BIND_TRANSCEIVER_RESP
    }
}

/// A request to bind on the wire, field by field; every string ends in a zero. It can be written
/// if the name has at most 15 bytes, the password 8, the kind of system 12 and the range 40.
pub proof fn law_bind_on_wire(m: BindFields)
    ensures
        m.written().ok() <==> encode_utf8(m.system_id).len() <= 15 && encode_utf8(m.password).len()
            <= 8 && encode_utf8(m.system_type).len() <= 12 && encode_utf8(m.address_range).len()
            <= 40,
        m.written().ok() ==> m.written().bytes == (encode_utf8(m.system_id) + seq![0u8]) + (encode_utf8(m.password) + seq![0u8]) + (encode_utf8(m.system_type) + seq![0u8]) + seq![m.interface_version, m.addr_ton, m.addr_npi] + (encode_utf8(m.address_range) + seq![0u8]),
{
    if m.written().ok() {
        assert(m.written().bytes =~= (encode_utf8(m.system_id) + seq![0u8]) + (encode_utf8(m.password) + seq![0u8]) + (encode_utf8(m.system_type) + seq![0u8]) + seq![m.interface_version, m.addr_ton, m.addr_npi] + (encode_utf8(m.address_range) + seq![0u8]));
    }
}

/// The response to a request to bind on the wire: the name, which ends in a zero, and the version.
pub proof fn law_bind_resp_on_wire(m: BindRespFields)
    ensures
        m.written().ok() <==> encode_utf8(m.system_id).len() <= 15,
        m.written().ok() ==> m.written().bytes == (encode_utf8(m.system_id) + seq![0u8]) + seq![m.sc_interface_version],
{
    if m.written().ok() {
        assert(m.written().bytes =~= (encode_utf8(m.system_id) + seq![0u8]) + seq![m.sc_interface_version]);
    }
}

/// The fields of a request to bind stand for themselves.
pub proof fn law_bind_views(a: BindTransmitter, b: BindReceiver, c: BindTransceiver)
    ensures
        a@.system_id == a.system_id@,
        a@.password == a.password@,
        a@.system_type == a.system_type@,
        a@.address_range == a.address_range@,
        a@.interface_version == a.interface_version,
        a@.addr_ton == a.addr_ton,
        a@.addr_npi == a.addr_npi,
        b@.system_id == b.system_id@,
        b@.password == b.password@,
        b@.system_type == b.system_type@,
        b@.address_range == b.address_range@,
        b@.interface_version == b.interface_version,
        b@.addr_ton == b.addr_ton,
        b@.addr_npi == b.addr_npi,
        c@.system_id == c.system_id@,
        c@.password == c.password@,
        c@.system_type == c.system_type@,
        c@.address_range == c.address_range@,
        c@.interface_version == c.interface_version,
        c@.addr_ton == c.addr_ton,
        c@.addr_npi == c.addr_npi,
{
}

/// What a request to bind is read as: three strings of at most 15, 8 and 12 bytes, three bytes, and
/// the address range; a string that is longer makes it unreadable.
pub proof fn law_bind_is_read(system_id: Seq<u8>, password: Seq<u8>, system_type: Seq<u8>, interface_version: u8, addr_ton: u8, addr_npi: u8, address_range: Seq<u8>, tail: Seq<u8>, range_len: nat)
    requires
        !system_id.contains(0),
        !password.contains(0),
        !system_type.contains(0),
        !address_range.contains(0),
    ensures
        ({
            let from_address_range = address_range + seq![0u8] + tail;
            let from_addr_npi = seq![addr_npi] + from_address_range;
            let from_addr_ton = seq![addr_ton] + from_addr_npi;
            let from_interface_version = seq![interface_version] + from_addr_ton;
            let from_system_type = system_type + seq![0u8] + from_interface_version;
            let from_password = password + seq![0u8] + from_system_type;
            let body = system_id + seq![0u8] + from_password;
            &&& BindFields::end(body, range_len).ok() <==> system_id.len() < 16 && password.len() < 9 && system_type.len() < 13 && address_range.len() < range_len
            &&& system_id.len() >= 16 ==> BindFields::end(body, range_len).fault == Some(
                grammar::Fault::TooLong { field: "system_id"@, max_len: 16 },
            )
            &&& system_id.len() < 16 && password.len() >= 9 ==> BindFields::end(body, range_len).fault == Some(
                grammar::Fault::TooLong { field: "password"@, max_len: 9 },
            )
            &&& system_id.len() < 16 && password.len() < 9 && system_type.len() >= 13 ==> BindFields::end(body, range_len).fault == Some(
                grammar::Fault::TooLong { field: "system_type"@, max_len: 13 },
            )
            &&& system_id.len() < 16 && password.len() < 9 && system_type.len() < 13 && address_range.len() >= range_len ==> BindFields::end(body, range_len).fault == Some(
                grammar::Fault::TooLong { field: "address_range"@, max_len: range_len },
            )
            &&& BindFields::end(body, range_len).ok() ==> BindFields::end(body, range_len) == Scan::of(tail)
            &&& BindFields::end(body, range_len).ok() ==> {
                let read = BindFields::read(body);
                &&& read.system_id == text::lossy_chars(system_id)
                &&& read.password == text::lossy_chars(password)
                &&& read.system_type == text::lossy_chars(system_type)
                &&& read.interface_version == interface_version
                &&& read.addr_ton == addr_ton
                &&& read.addr_npi == addr_npi
                &&& read.address_range == text::lossy_chars(address_range)
            }
        }),
{
    let from_address_range = address_range + seq![0u8] + tail;
    let from_addr_npi = seq![addr_npi] + from_address_range;
    let from_addr_ton = seq![addr_ton] + from_addr_npi;
    let from_interface_version = seq![interface_version] + from_addr_ton;
    let from_system_type = system_type + seq![0u8] + from_interface_version;
    let from_password = password + seq![0u8] + from_system_type;
    let body = system_id + seq![0u8] + from_password;
    grammar::law_string_by_bytes(system_id, 16, "system_id"@, from_password);
    grammar::law_string_by_bytes(password, 9, "password"@, from_system_type);
    grammar::law_string_by_bytes(system_type, 13, "system_type"@, from_interface_version);
    grammar::lemma_read_byte(interface_version, from_addr_ton);
    grammar::lemma_read_byte(addr_ton, from_addr_npi);
    grammar::lemma_read_byte(addr_npi, from_address_range);
    grammar::law_string_by_bytes(address_range, range_len, "address_range"@, tail);
}

/// What a response to a request to bind is read as: the id of the system, and a byte for the
/// version.
pub proof fn law_bind_resp_is_read(system_id: Seq<u8>, sc_interface_version: u8, tail: Seq<u8>, command_status: u32)
    requires
        !system_id.contains(0),
    ensures
        ({
            let from_sc_interface_version = seq![sc_interface_version] + tail;
            let body = system_id + seq![0u8] + from_sc_interface_version;
            &&& BindRespFields::end(body).ok() <==> system_id.len() < 16
            &&& system_id.len() >= 16 ==> BindRespFields::end(body).fault == Some(
                grammar::Fault::TooLong { field: "system_id"@, max_len: 16 },
            )
            &&& BindRespFields::end(body).ok() ==> BindRespFields::end(body) == Scan::of(tail)
            &&& BindRespFields::end(body).ok() ==> {
                let read = BindRespFields::read(body, command_status);
                &&& read.system_id == text::lossy_chars(system_id)
                &&& read.sc_interface_version == sc_interface_version
                &&& read.command_status == command_status
            }
        }),
{
    let from_sc_interface_version = seq![sc_interface_version] + tail;
    let body = system_id + seq![0u8] + from_sc_interface_version;
    grammar::law_string_by_bytes(system_id, 16, "system_id"@, from_sc_interface_version);
    grammar::lemma_read_byte(sc_interface_version, tail);
}

/// The bind PDUs have 41 bytes for the address range, and the version and the status of a response
/// are those of its header and body.
pub proof fn law_bind_limits(body: Seq<u8>, header: PduHeader)
    ensures
        BindTransmitter::end(body) == BindFields::end(body, 41),
        BindReceiver::end(body) == BindFields::end(body, 41),
        BindTransceiver::end(body) == BindFields::end(body, 41),
        forall|r: BindTransmitterResp| #[trigger]
            r.is_body(header, body) ==> r.command_status == header.command_status.code(),
        forall|r: BindReceiverResp| #[trigger]
            r.is_body(header, body) ==> r.command_status == header.command_status.code(),
        forall|r: BindTransceiverResp| #[trigger]
            r.is_body(header, body) ==> r.command_status == header.command_status.code(),
{
}

} // verus!
