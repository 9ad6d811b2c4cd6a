//! PDUs without a body: enquiring a link, unbinding, and refusing a PDU as a whole.

use crate::smpp::codec;
use crate::smpp::codec::{CodecError, Decodable, Encodable, PduHeader};
use crate::smpp::datatypes::command_id::CommandId;
use crate::smpp::grammar::{Scan, Written};
use crate::wire;
use bytes::BytesMut;
use std::io::Cursor;
use vstd::prelude::*;

verus! {

/// Asks whether the peer is there.
#[derive(Debug, Clone, Copy, PartialEq, Eq, Structural)]
pub struct EnquireLink;

impl EnquireLink {
    pub fn new() -> (pdu: Self)
        ensures
            pdu == EnquireLink,
    {
        EnquireLink
    }
}

impl Default for EnquireLink {
    fn default() -> (pdu: Self)
        ensures
            pdu == EnquireLink,
    {
        EnquireLink
    }
}

impl Encodable for EnquireLink {
    open spec fn written(&self) -> Written {
        Written::new()
    }

    open spec fn size(&self) -> nat {
        0
    }

    fn encode(&self, buf: &mut BytesMut) -> Result<(), CodecError> {
        assert(wire::buffer_bytes(*buf) + self.written().bytes =~= wire::buffer_bytes(*buf));
        Ok(())
    }

    fn encoded_size(&self) -> usize {
        0
    }
}

impl Decodable for EnquireLink {
    open spec fn command() -> CommandId {
        CommandId::ENQUIRE_LINK
    }

    open spec fn end(body: Seq<u8>) -> Scan {
        Scan::of(body)
    }

    open spec fn is_body(self, header: PduHeader, body: Seq<u8>) -> bool {
        true
    }

    fn decode(header: PduHeader, buf: &mut Cursor<&[u8]>) -> Result<Self, CodecError> {
        if header.command_id != CommandId::ENQUIRE_LINK {
            return Err(codec::command_mismatch());
        }
        Ok(EnquireLink)
    }

    fn command_id() -> CommandId {
        CommandId::ENQUIRE_LINK
    }
}

/// Says that the peer is there.
#[derive(Debug, Clone, Copy, PartialEq, Eq, Structural)]
pub struct EnquireLinkResp;

impl Encodable for EnquireLinkResp {
    open spec fn written(&self) -> Written {
        Written::new()
    }

    open spec fn size(&self) -> nat {
        0
    }

    fn encode(&self, buf: &mut BytesMut) -> Result<(), CodecError> {
        assert(wire::buffer_bytes(*buf) + self.written().bytes =~= wire::buffer_bytes(*buf));
        Ok(())
    }

    fn encoded_size(&self) -> usize {
        0
    }
}

impl Decodable for EnquireLinkResp {
    open spec fn command() -> CommandId {
        CommandId::ENQUIRE_LINK_RESP
    }

    open spec fn end(body: Seq<u8>) -> Scan {
        Scan::of(body)
    }

    open spec fn is_body(self, header: PduHeader, body: Seq<u8>) -> bool {
        true
    }

    fn decode(header: PduHeader, buf: &mut Cursor<&[u8]>) -> Result<Self, CodecError> {
        if header.command_id != CommandId::ENQUIRE_LINK_RESP {
            return Err(codec::command_mismatch());
        }
        Ok(EnquireLinkResp)
    }

    fn command_id() -> CommandId {
        CommandId::ENQUIRE_LINK_RESP
    }
}

/// Ends a session.
#[derive(Debug, Clone, Copy, PartialEq, Eq, Structural)]
pub struct Unbind;

impl Unbind {
    pub fn new() -> (pdu: Self)
        ensures
            pdu == Unbind,
    {
        Unbind
    }
}

impl Default for Unbind {
    fn default() -> (pdu: Self)
        ensures
            pdu == Unbind,
    {
        Unbind
    }
}

impl Encodable for Unbind {
    open spec fn written(&self) -> Written {
        Written::new()
    }

    open spec fn size(&self) -> nat {
        0
    }

    fn encode(&self, buf: &mut BytesMut) -> Result<(), CodecError> {
        assert(wire::buffer_bytes(*buf) + self.written().bytes =~= wire::buffer_bytes(*buf));
        Ok(())
    }

    fn encoded_size(&self) -> usize {
        0
    }
}

impl Decodable for Unbind {
    open spec fn command() -> CommandId {
        CommandId::UNBIND
    }

    open spec fn end(body: Seq<u8>) -> Scan {
        Scan::of(body)
    }

    open spec fn is_body(self, header: PduHeader, body: Seq<u8>) -> bool {
        true
    }

    fn decode(header: PduHeader, buf: &mut Cursor<&[u8]>) -> Result<Self, CodecError> {
        if header.command_id != CommandId::UNBIND {
            return Err(codec::command_mismatch());
        }
        Ok(Unbind)
    }

    fn command_id() -> CommandId {
        CommandId::UNBIND
    }
}

/// Confirms the end of a session.
#[derive(Debug, Clone, Copy, PartialEq, Eq, Structural)]
pub struct UnbindResp;

impl Encodable for UnbindResp {
    open spec fn written(&self) -> Written {
        Written::new()
    }

    open spec fn size(&self) -> nat {
        0
    }

    fn encode(&self, buf: &mut BytesMut) -> Result<(), CodecError> {
        assert(wire::buffer_bytes(*buf) + self.written().bytes =~= wire::buffer_bytes(*buf));
        Ok(())
    }

    fn encoded_size(&self) -> usize {
        0
    }
}

impl Decodable for UnbindResp {
    open spec fn command() -> CommandId {
        CommandId::UNBIND_RESP
    }

    open spec fn end(body: Seq<u8>) -> Scan {
        Scan::of(body)
    }

    open spec fn is_body(self, header: PduHeader, body: Seq<u8>) -> bool {
        true
    }

    fn decode(header: PduHeader, buf: &mut Cursor<&[u8]>) -> Result<Self, CodecError> {
        if header.command_id != CommandId::UNBIND_RESP {
            return Err(codec::command_mismatch());
        }
        Ok(UnbindResp)
    }

    fn command_id() -> CommandId {
        CommandId::UNBIND_RESP
    }
}

/// Confirms a cancellation.
#[derive(Debug, Clone, Copy, PartialEq, Eq, Structural)]
pub struct CancelSmResp;

impl Encodable for CancelSmResp {
    open spec fn written(&self) -> Written {
        Written::new()
    }

    open spec fn size(&self) -> nat {
        0
    }

    fn encode(&self, buf: &mut BytesMut) -> Result<(), CodecError> {
        assert(wire::buffer_bytes(*buf) + self.written().bytes =~= wire::buffer_bytes(*buf));
        Ok(())
    }

    fn encoded_size(&self) -> usize {
        0
    }
}

impl Decodable for CancelSmResp {
    open spec fn command() -> CommandId {
        CommandId::CANCEL_SM_RESP
    }

    open spec fn end(body: Seq<u8>) -> Scan {
        Scan::of(body)
    }

    open spec fn is_body(self, header: PduHeader, body: Seq<u8>) -> bool {
        true
    }

    fn decode(header: PduHeader, buf: &mut Cursor<&[u8]>) -> Result<Self, CodecError> {
        if header.command_id != CommandId::CANCEL_SM_RESP {
            return Err(codec::command_mismatch());
        }
        Ok(CancelSmResp)
    }

    fn command_id() -> CommandId {
        CommandId::CANCEL_SM_RESP
    }
}

/// Refuses a PDU whose header cannot be taken.
#[derive(Debug, Clone, Copy, PartialEq, Eq, Structural)]
pub struct GenericNack;

impl GenericNack {
    pub fn new() -> (pdu: Self)
        ensures
            pdu == GenericNack,
    {
        GenericNack
    }
}

impl Default for GenericNack {
    fn default() -> (pdu: Self)
        ensures
            pdu == GenericNack,
    {
        GenericNack
    }
}

impl Encodable for GenericNack {
    open spec fn written(&self) -> Written {
        Written::new()
    }

    open spec fn size(&self) -> nat {
        0
    }

    fn encode(&self, buf: &mut BytesMut) -> Result<(), CodecError> {
        assert(wire::buffer_bytes(*buf) + self.written().bytes =~= wire::buffer_bytes(*buf));
        Ok(())
    }

    fn encoded_size(&self) -> usize {
        0
    }
}

impl Decodable for GenericNack {
    open spec fn command() -> CommandId {
        CommandId::GENERIC_NACK
    }

    open spec fn end(body: Seq<u8>) -> Scan {
        Scan::of(body)
    }

    open spec fn is_body(self, header: PduHeader, body: Seq<u8>) -> bool {
        true
    }

    fn decode(header: PduHeader, buf: &mut Cursor<&[u8]>) -> Result<Self, CodecError> {
        if header.command_id != CommandId::GENERIC_NACK {
            return Err(codec::command_mismatch());
        }
        Ok(GenericNack)
    }

    fn command_id() -> CommandId {
        CommandId::GENERIC_NACK
    }
}

/// The PDUs without a body: nothing is written but the header, and nothing is read behind it.
pub proof fn law_no_bodies(body: Seq<u8>)
    ensures
        EnquireLink.written().ok() && EnquireLink.written().bytes.len() == 0 && EnquireLink.size() == 0,
        EnquireLink::end(body).ok() && EnquireLink::end(body).rest == body,
        EnquireLink::command().code() == 0x15,
        EnquireLinkResp.written().ok() && EnquireLinkResp.written().bytes.len() == 0 && EnquireLinkResp.size() == 0,
        EnquireLinkResp::end(body).ok() && EnquireLinkResp::end(body).rest == body,
        EnquireLinkResp::command().code() == 0x80000015,
        Unbind.written().ok() && Unbind.written().bytes.len() == 0 && Unbind.size() == 0,
        Unbind::end(body).ok() && Unbind::end(body).rest == body,
        Unbind::command().code() == 0x6,
        UnbindResp.written().ok() && UnbindResp.written().bytes.len() == 0 && UnbindResp.size() == 0,
        UnbindResp::end(body).ok() && UnbindResp::end(body).rest == body,
        UnbindResp::command().code() == 0x80000006,
        CancelSmResp.written().ok() && CancelSmResp.written().bytes.len() == 0 && CancelSmResp.size() == 0,
        CancelSmResp::end(body).ok() && CancelSmResp::end(body).rest == body,
        CancelSmResp::command().code() == 0x80000008,
        GenericNack.written().ok() && GenericNack.written().bytes.len() == 0 && GenericNack.size() == 0,
        GenericNack::end(body).ok() && GenericNack::end(body).rest == body,
        GenericNack::command().code() == 0x80000000,
{
}

} // verus!
