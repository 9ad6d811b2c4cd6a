//! A PDU of any kind.

use crate::encoded_pdu::RawPdu;
use crate::smpp::codec::{CodecError, Encodable};
use crate::smpp::datatypes::bind::{BindReceiver, BindReceiverResp, BindTransceiver, BindTransceiverResp, BindTransmitter, BindTransmitterResp};
use crate::smpp::datatypes::cancel_sm::CancelSm;
use crate::smpp::datatypes::link::{CancelSmResp, EnquireLink, EnquireLinkResp, GenericNack, Unbind, UnbindResp};
use crate::smpp::datatypes::query_sm::{QuerySm, QuerySmResp};
use crate::smpp::datatypes::short_message::{DeliverSm, DeliverSmResp, SubmitSm, SubmitSmResp};
use crate::smpp::datatypes::command_id::CommandId;
use crate::smpp::grammar::Written;
use crate::wire;
use bytes::BytesMut;
use vstd::prelude::*;
use vstd::std_specs::convert::FromSpecImpl;

verus! {

/// A PDU.
#[derive(Debug, Clone, PartialEq)]
pub enum Pdu {
    BindTransmitter(BindTransmitter),
    BindTransmitterResp(BindTransmitterResp),
    BindReceiver(BindReceiver),
    BindReceiverResp(BindReceiverResp),
    BindTransceiver(BindTransceiver),
    BindTransceiverResp(BindTransceiverResp),
    SubmitSm(SubmitSm),
    SubmitSmResp(SubmitSmResp),
    DeliverSm(DeliverSm),
    DeliverSmResp(DeliverSmResp),
    EnquireLink(EnquireLink),
    EnquireLinkResp(EnquireLinkResp),
    Unbind(Unbind),
    UnbindResp(UnbindResp),
    QuerySm(QuerySm),
    QuerySmResp(QuerySmResp),
    CancelSm(CancelSm),
    CancelSmResp(CancelSmResp),
    GenericNack(GenericNack),
    Unknown,
}

impl Pdu {
    /// The command of the PDU. What is unknown goes out as a refusal.
    pub open spec fn command(self) -> CommandId {
        match self {
            Pdu::BindTransmitter(_) => CommandId::BIND_TRANSMITTER,
            Pdu::BindTransmitterResp(_) => CommandId::BIND_TRANSMITTER_RESP,
            Pdu::BindReceiver(_) => CommandId::BIND_RECEIVER,
            Pdu::BindReceiverResp(_) => CommandId::BIND_RECEIVER_RESP,
            Pdu::BindTransceiver(_) => CommandId::BIND_TRANSCEIVER,
            Pdu::BindTransceiverResp(_) => CommandId::BIND_TRANSCEIVER_RESP,
            Pdu::SubmitSm(_) => CommandId::SUBMIT_SM,
            Pdu::SubmitSmResp(_) => CommandId::SUBMIT_SM_RESP,
            Pdu::DeliverSm(_) => CommandId::DELIVER_SM,
            Pdu::DeliverSmResp(_) => CommandId::DELIVER_SM_RESP,
            Pdu::EnquireLink(_) => CommandId::ENQUIRE_LINK,
            Pdu::EnquireLinkResp(_) => CommandId::ENQUIRE_LINK_RESP,
            Pdu::Unbind(_) => CommandId::UNBIND,
            Pdu::UnbindResp(_) => CommandId::UNBIND_RESP,
            Pdu::QuerySm(_) => CommandId::QUERY_SM,
            Pdu::QuerySmResp(_) => CommandId::QUERY_SM_RESP,
            Pdu::CancelSm(_) => CommandId::CANCEL_SM,
            Pdu::CancelSmResp(_) => CommandId::CANCEL_SM_RESP,
            Pdu::GenericNack(_) => CommandId::GENERIC_NACK,
            Pdu::Unknown => CommandId::GENERIC_NACK,
        }
    }

    /// The result in the header: that of a response that has one, and else 0.
    pub open spec fn status(self) -> u32 {
        match self {
            Pdu::SubmitSmResp(p) => p.command_status,
            Pdu::BindTransmitterResp(p) => p.command_status,
            Pdu::BindReceiverResp(p) => p.command_status,
            Pdu::BindTransceiverResp(p) => p.command_status,
            _ => 0,
        }
    }

    /// The whole PDU on the wire.
    pub open spec fn bytes(self, sequence_number: u32) -> Seq<u8> {
        pdu_bytes(
            self.command().code(),
            self.status(),
            sequence_number,
            self.written().bytes,
        )
    }

    /// The command of the PDU.
    pub fn command_id(&self) -> (id: CommandId)
        ensures
            id == self.command(),
    {
        match self {
            Pdu::BindTransmitter(_) => CommandId::BIND_TRANSMITTER,
            Pdu::BindTransmitterResp(_) => CommandId::BIND_TRANSMITTER_RESP,
            Pdu::BindReceiver(_) => CommandId::BIND_RECEIVER,
            Pdu::BindReceiverResp(_) => CommandId::BIND_RECEIVER_RESP,
            Pdu::BindTransceiver(_) => CommandId::BIND_TRANSCEIVER,
            Pdu::BindTransceiverResp(_) => CommandId::BIND_TRANSCEIVER_RESP,
            Pdu::SubmitSm(_) => CommandId::SUBMIT_SM,
            Pdu::SubmitSmResp(_) => CommandId::SUBMIT_SM_RESP,
            Pdu::DeliverSm(_) => CommandId::DELIVER_SM,
            Pdu::DeliverSmResp(_) => CommandId::DELIVER_SM_RESP,
            Pdu::EnquireLink(_) => CommandId::ENQUIRE_LINK,
            Pdu::EnquireLinkResp(_) => CommandId::ENQUIRE_LINK_RESP,
            Pdu::Unbind(_) => CommandId::UNBIND,
            Pdu::UnbindResp(_) => CommandId::UNBIND_RESP,
            Pdu::QuerySm(_) => CommandId::QUERY_SM,
            Pdu::QuerySmResp(_) => CommandId::QUERY_SM_RESP,
            Pdu::CancelSm(_) => CommandId::CANCEL_SM,
            Pdu::CancelSmResp(_) => CommandId::CANCEL_SM_RESP,
            Pdu::GenericNack(_) => CommandId::GENERIC_NACK,
            Pdu::Unknown => CommandId::GENERIC_NACK,
        }
    }

    /// The result for the header.
    pub fn command_status(&self) -> (status: u32)
        ensures
            status == self.status(),
    {
        match self {
            Pdu::SubmitSmResp(p) => p.command_status,
            Pdu::BindTransmitterResp(p) => p.command_status,
            Pdu::BindReceiverResp(p) => p.command_status,
            Pdu::BindTransceiverResp(p) => p.command_status,
            _ => 0,
        }
    }

    /// The whole PDU with its header. Every string must fit its field.
    pub fn to_pdu_bytes(&self, sequence_number: u32) -> (pdu: RawPdu)
        requires
            self.written().ok(),
        ensures
            pdu@ == self.bytes(sequence_number),
    {
        let mut body = wire::new_buffer();
        let res = self.encode(&mut body);
        assert(wire::buffer_bytes(body) =~= self.written().bytes);
        let body_len: usize = wire::buffer_len(&body);
        let total_len: u32 = ((body_len as u128 + 16) % 0x1_0000_0000) as u32;
        let mut buf = wire::new_buffer();
        wire::put_u32(&mut buf, total_len);
        wire::put_u32(&mut buf, self.command_id().as_u32());
        wire::put_u32(&mut buf, self.command_status());
        wire::put_u32(&mut buf, sequence_number);
        wire::put_slice(&mut buf, wire::buffer_slice(&body));
        assert(wire::buffer_bytes(buf) =~= self.bytes(sequence_number));
        RawPdu::new(wire::freeze(buf))
    }
}

/// A PDU on the wire: length, command, status and sequence number, and then the body.
pub open spec fn pdu_bytes(id: u32, status: u32, sequence_number: u32, body: Seq<u8>) -> Seq<u8> {
    wire::be32_bytes(((16 + body.len()) % 0x1_0000_0000) as u32) + wire::be32_bytes(id)
        + wire::be32_bytes(status) + wire::be32_bytes(sequence_number) + body
}

impl Encodable for Pdu {
    open spec fn written(&self) -> Written {
        match self {
            Pdu::BindTransmitter(p) => p.written(),
            Pdu::BindTransmitterResp(p) => p.written(),
            Pdu::BindReceiver(p) => p.written(),
            Pdu::BindReceiverResp(p) => p.written(),
            Pdu::BindTransceiver(p) => p.written(),
            Pdu::BindTransceiverResp(p) => p.written(),
            Pdu::SubmitSm(p) => p.written(),
            Pdu::SubmitSmResp(p) => p.written(),
            Pdu::DeliverSm(p) => p.written(),
            Pdu::DeliverSmResp(p) => p.written(),
            Pdu::EnquireLink(p) => p.written(),
            Pdu::EnquireLinkResp(p) => p.written(),
            Pdu::Unbind(p) => p.written(),
            Pdu::UnbindResp(p) => p.written(),
            Pdu::QuerySm(p) => p.written(),
            Pdu::QuerySmResp(p) => p.written(),
            Pdu::CancelSm(p) => p.written(),
            Pdu::CancelSmResp(p) => p.written(),
            Pdu::GenericNack(p) => p.written(),
            Pdu::Unknown => Written::new(),
        }
    }

    open spec fn size(&self) -> nat {
        match self {
            Pdu::BindTransmitter(p) => p.size(),
            Pdu::BindTransmitterResp(p) => p.size(),
            Pdu::BindReceiver(p) => p.size(),
            Pdu::BindReceiverResp(p) => p.size(),
            Pdu::BindTransceiver(p) => p.size(),
            Pdu::BindTransceiverResp(p) => p.size(),
            Pdu::SubmitSm(p) => p.size(),
            Pdu::SubmitSmResp(p) => p.size(),
            Pdu::DeliverSm(p) => p.size(),
            Pdu::DeliverSmResp(p) => p.size(),
            Pdu::EnquireLink(p) => p.size(),
            Pdu::EnquireLinkResp(p) => p.size(),
            Pdu::Unbind(p) => p.size(),
            Pdu::UnbindResp(p) => p.size(),
            Pdu::QuerySm(p) => p.size(),
            Pdu::QuerySmResp(p) => p.size(),
            Pdu::CancelSm(p) => p.size(),
            Pdu::CancelSmResp(p) => p.size(),
            Pdu::GenericNack(p) => p.size(),
            Pdu::Unknown => 0,
        }
    }

    fn encode(&self, buf: &mut BytesMut) -> Result<(), CodecError> {
        match self {
            Pdu::BindTransmitter(p) => p.encode(buf),
            Pdu::BindTransmitterResp(p) => p.encode(buf),
            Pdu::BindReceiver(p) => p.encode(buf),
            Pdu::BindReceiverResp(p) => p.encode(buf),
            Pdu::BindTransceiver(p) => p.encode(buf),
            Pdu::BindTransceiverResp(p) => p.encode(buf),
            Pdu::SubmitSm(p) => p.encode(buf),
            Pdu::SubmitSmResp(p) => p.encode(buf),
            Pdu::DeliverSm(p) => p.encode(buf),
            Pdu::DeliverSmResp(p) => p.encode(buf),
            Pdu::EnquireLink(p) => p.encode(buf),
            Pdu::EnquireLinkResp(p) => p.encode(buf),
            Pdu::Unbind(p) => p.encode(buf),
            Pdu::UnbindResp(p) => p.encode(buf),
            Pdu::QuerySm(p) => p.encode(buf),
            Pdu::QuerySmResp(p) => p.encode(buf),
            Pdu::CancelSm(p) => p.encode(buf),
            Pdu::CancelSmResp(p) => p.encode(buf),
            Pdu::GenericNack(p) => p.encode(buf),
            Pdu::Unknown => {
                assert(wire::buffer_bytes(*buf) + self.written().bytes =~= wire::buffer_bytes(*buf));
                Ok(())
            },
        }
    }

    fn encoded_size(&self) -> usize {
        match self {
            Pdu::BindTransmitter(p) => p.encoded_size(),
            Pdu::BindTransmitterResp(p) => p.encoded_size(),
            Pdu::BindReceiver(p) => p.encoded_size(),
            Pdu::BindReceiverResp(p) => p.encoded_size(),
            Pdu::BindTransceiver(p) => p.encoded_size(),
            Pdu::BindTransceiverResp(p) => p.encoded_size(),
            Pdu::SubmitSm(p) => p.encoded_size(),
            Pdu::SubmitSmResp(p) => p.encoded_size(),
            Pdu::DeliverSm(p) => p.encoded_size(),
            Pdu::DeliverSmResp(p) => p.encoded_size(),
            Pdu::EnquireLink(p) => p.encoded_size(),
            Pdu::EnquireLinkResp(p) => p.encoded_size(),
            Pdu::Unbind(p) => p.encoded_size(),
            Pdu::UnbindResp(p) => p.encoded_size(),
            Pdu::QuerySm(p) => p.encoded_size(),
            Pdu::QuerySmResp(p) => p.encoded_size(),
            Pdu::CancelSm(p) => p.encoded_size(),
            Pdu::CancelSmResp(p) => p.encoded_size(),
            Pdu::GenericNack(p) => p.encoded_size(),
            Pdu::Unknown => 0,
        }
    }
}

impl From<BindTransmitter> for Pdu {
    fn from(p: BindTransmitter) -> (pdu: Self) {
        Pdu::BindTransmitter(p)
    }
}

impl FromSpecImpl<BindTransmitter> for Pdu {
    open spec fn obeys_from_spec() -> bool {
        true
    }

    open spec fn from_spec(p: BindTransmitter) -> Pdu {
        Pdu::BindTransmitter(p)
    }
}

impl From<BindTransmitterResp> for Pdu {
    fn from(p: BindTransmitterResp) -> (pdu: Self) {
        Pdu::BindTransmitterResp(p)
    }
}

impl FromSpecImpl<BindTransmitterResp> for Pdu {
    open spec fn obeys_from_spec() -> bool {
        true
    }

    open spec fn from_spec(p: BindTransmitterResp) -> Pdu {
        Pdu::BindTransmitterResp(p)
    }
}

impl From<BindReceiver> for Pdu {
    fn from(p: BindReceiver) -> (pdu: Self) {
        Pdu::BindReceiver(p)
    }
}

impl FromSpecImpl<BindReceiver> for Pdu {
    open spec fn obeys_from_spec() -> bool {
        true
    }

    open spec fn from_spec(p: BindReceiver) -> Pdu {
        Pdu::BindReceiver(p)
    }
}

impl From<BindReceiverResp> for Pdu {
    fn from(p: BindReceiverResp) -> (pdu: Self) {
        Pdu::BindReceiverResp(p)
    }
}

impl FromSpecImpl<BindReceiverResp> for Pdu {
    open spec fn obeys_from_spec() -> bool {
        true
    }

    open spec fn from_spec(p: BindReceiverResp) -> Pdu {
        Pdu::BindReceiverResp(p)
    }
}

impl From<BindTransceiver> for Pdu {
    fn from(p: BindTransceiver) -> (pdu: Self) {
        Pdu::BindTransceiver(p)
    }
}

impl FromSpecImpl<BindTransceiver> for Pdu {
    open spec fn obeys_from_spec() -> bool {
        true
    }

    open spec fn from_spec(p: BindTransceiver) -> Pdu {
        Pdu::BindTransceiver(p)
    }
}

impl From<BindTransceiverResp> for Pdu {
    fn from(p: BindTransceiverResp) -> (pdu: Self) {
        Pdu::BindTransceiverResp(p)
    }
}

impl FromSpecImpl<BindTransceiverResp> for Pdu {
    open spec fn obeys_from_spec() -> bool {
        true
    }

    open spec fn from_spec(p: BindTransceiverResp) -> Pdu {
        Pdu::BindTransceiverResp(p)
    }
}

impl From<SubmitSm> for Pdu {
    fn from(p: SubmitSm) -> (pdu: Self) {
        Pdu::SubmitSm(p)
    }
}

impl FromSpecImpl<SubmitSm> for Pdu {
    open spec fn obeys_from_spec() -> bool {
        true
    }

    open spec fn from_spec(p: SubmitSm) -> Pdu {
        Pdu::SubmitSm(p)
    }
}

impl From<SubmitSmResp> for Pdu {
    fn from(p: SubmitSmResp) -> (pdu: Self) {
        Pdu::SubmitSmResp(p)
    }
}

impl FromSpecImpl<SubmitSmResp> for Pdu {
    open spec fn obeys_from_spec() -> bool {
        true
    }

    open spec fn from_spec(p: SubmitSmResp) -> Pdu {
        Pdu::SubmitSmResp(p)
    }
}

impl From<DeliverSm> for Pdu {
    fn from(p: DeliverSm) -> (pdu: Self) {
        Pdu::DeliverSm(p)
    }
}

impl FromSpecImpl<DeliverSm> for Pdu {
    open spec fn obeys_from_spec() -> bool {
        true
    }

    open spec fn from_spec(p: DeliverSm) -> Pdu {
        Pdu::DeliverSm(p)
    }
}

impl From<DeliverSmResp> for Pdu {
    fn from(p: DeliverSmResp) -> (pdu: Self) {
        Pdu::DeliverSmResp(p)
    }
}

impl FromSpecImpl<DeliverSmResp> for Pdu {
    open spec fn obeys_from_spec() -> bool {
        true
    }

    open spec fn from_spec(p: DeliverSmResp) -> Pdu {
        Pdu::DeliverSmResp(p)
    }
}

impl From<EnquireLink> for Pdu {
    fn from(p: EnquireLink) -> (pdu: Self) {
        Pdu::EnquireLink(p)
    }
}

impl FromSpecImpl<EnquireLink> for Pdu {
    open spec fn obeys_from_spec() -> bool {
        true
    }

    open spec fn from_spec(p: EnquireLink) -> Pdu {
        Pdu::EnquireLink(p)
    }
}

impl From<EnquireLinkResp> for Pdu {
    fn from(p: EnquireLinkResp) -> (pdu: Self) {
        Pdu::EnquireLinkResp(p)
    }
}

impl FromSpecImpl<EnquireLinkResp> for Pdu {
    open spec fn obeys_from_spec() -> bool {
        true
    }

    open spec fn from_spec(p: EnquireLinkResp) -> Pdu {
        Pdu::EnquireLinkResp(p)
    }
}

impl From<Unbind> for Pdu {
    fn from(p: Unbind) -> (pdu: Self) {
        Pdu::Unbind(p)
    }
}

impl FromSpecImpl<Unbind> for Pdu {
    open spec fn obeys_from_spec() -> bool {
        true
    }

    open spec fn from_spec(p: Unbind) -> Pdu {
        Pdu::Unbind(p)
    }
}

impl From<UnbindResp> for Pdu {
    fn from(p: UnbindResp) -> (pdu: Self) {
        Pdu::UnbindResp(p)
    }
}

impl FromSpecImpl<UnbindResp> for Pdu {
    open spec fn obeys_from_spec() -> bool {
        true
    }

    open spec fn from_spec(p: UnbindResp) -> Pdu {
        Pdu::UnbindResp(p)
    }
}

impl From<QuerySm> for Pdu {
    fn from(p: QuerySm) -> (pdu: Self) {
        Pdu::QuerySm(p)
    }
}

impl FromSpecImpl<QuerySm> for Pdu {
    open spec fn obeys_from_spec() -> bool {
        true
    }

    open spec fn from_spec(p: QuerySm) -> Pdu {
        Pdu::QuerySm(p)
    }
}

impl From<QuerySmResp> for Pdu {
    fn from(p: QuerySmResp) -> (pdu: Self) {
        Pdu::QuerySmResp(p)
    }
}

impl FromSpecImpl<QuerySmResp> for Pdu {
    open spec fn obeys_from_spec() -> bool {
        true
    }

    open spec fn from_spec(p: QuerySmResp) -> Pdu {
        Pdu::QuerySmResp(p)
    }
}

impl From<CancelSm> for Pdu {
    fn from(p: CancelSm) -> (pdu: Self) {
        Pdu::CancelSm(p)
    }
}

impl FromSpecImpl<CancelSm> for Pdu {
    open spec fn obeys_from_spec() -> bool {
        true
    }

    open spec fn from_spec(p: CancelSm) -> Pdu {
        Pdu::CancelSm(p)
    }
}

impl From<CancelSmResp> for Pdu {
    fn from(p: CancelSmResp) -> (pdu: Self) {
        Pdu::CancelSmResp(p)
    }
}

impl FromSpecImpl<CancelSmResp> for Pdu {
    open spec fn obeys_from_spec() -> bool {
        true
    }

    open spec fn from_spec(p: CancelSmResp) -> Pdu {
        Pdu::CancelSmResp(p)
    }
}

impl From<GenericNack> for Pdu {
    fn from(p: GenericNack) -> (pdu: Self) {
        Pdu::GenericNack(p)
    }
}

impl FromSpecImpl<GenericNack> for Pdu {
    open spec fn obeys_from_spec() -> bool {
        true
    }

    open spec fn from_spec(p: GenericNack) -> Pdu {
        Pdu::GenericNack(p)
    }
}

/// The header of a PDU on the wire says how long the PDU is, what it is, how it went and which
/// request it belongs to; the body follows.
pub proof fn law_pdu_bytes(id: u32, status: u32, sequence_number: u32, body: Seq<u8>)
    requires
        16 + body.len() < 0x1_0000_0000,
    ensures
        ({
            let s = pdu_bytes(id, status, sequence_number, body);
            &&& s.len() == 16 + body.len()
            &&& wire::be32(s) == s.len()
            &&& wire::be32(s.skip(4)) == id
            &&& wire::be32(s.skip(8)) == status
            &&& wire::be32(s.skip(12)) == sequence_number
            &&& s.skip(16) == body
        }),
{
    let len = (16 + body.len()) as u32;
    let a = wire::be32_bytes(len);
    let b = wire::be32_bytes(id);
    let c = wire::be32_bytes(status);
    let d = wire::be32_bytes(sequence_number);
    let s = pdu_bytes(id, status, sequence_number, body);
    assert(s =~= a + (b + c + d + body));
    wire::law_be32_roundtrip(len, b + c + d + body);
    assert(s.skip(4) =~= b + (c + d + body));
    wire::law_be32_roundtrip(id, c + d + body);
    assert(s.skip(8) =~= c + (d + body));
    wire::law_be32_roundtrip(status, d + body);
    assert(s.skip(12) =~= d + body);
    wire::law_be32_roundtrip(sequence_number, body);
    assert(s.skip(16) =~= body);
}

/// A whole PDU, byte by byte: its length, its command, its status and its sequence number, and then
/// its body.
pub proof fn law_whole_pdu_on_wire(id: u32, status: u32, sequence_number: u32, body: Seq<u8>)
    requires
        body.len() < 0x1_0000_0000 - 16,
    ensures
        ({
            let s = pdu_bytes(id, status, sequence_number, body);
            &&& s.len() == 16 + body.len()
            &&& s[0] * 16777216 + s[1] * 65536 + s[2] * 256 + s[3] == s.len()
            &&& s[4] * 16777216 + s[5] * 65536 + s[6] * 256 + s[7] == id
            &&& s[8] * 16777216 + s[9] * 65536 + s[10] * 256 + s[11] == status
            &&& s[12] * 16777216 + s[13] * 65536 + s[14] * 256 + s[15] == sequence_number
            &&& s.subrange(16, s.len() as int) == body
        }),
{
    wire::law_high_byte_first(0, (16 + body.len()) as u32, Seq::empty());
    wire::law_high_byte_first(0, id, Seq::empty());
    wire::law_high_byte_first(0, status, Seq::empty());
    wire::law_high_byte_first(0, sequence_number, Seq::empty());
    let s = pdu_bytes(id, status, sequence_number, body);
    assert(s.subrange(16, s.len() as int) =~= body);
}

/// What goes out of a PDU: its command and its status in numbers, the sequence number that it is
/// given, and its body.
pub proof fn law_what_goes_out_of_a_pdu(pdu: Pdu, sequence_number: u32)
    ensures
        pdu.command().code() == (match pdu {
            Pdu::BindTransmitter(_) => 0x2int,
            Pdu::BindTransmitterResp(_) => 0x80000002int,
            Pdu::BindReceiver(_) => 0x1int,
            Pdu::BindReceiverResp(_) => 0x80000001int,
            Pdu::BindTransceiver(_) => 0x9int,
            Pdu::BindTransceiverResp(_) => 0x80000009int,
            Pdu::SubmitSm(_) => 0x4int,
            Pdu::SubmitSmResp(_) => 0x80000004int,
            Pdu::DeliverSm(_) => 0x5int,
            Pdu::DeliverSmResp(_) => 0x80000005int,
            Pdu::EnquireLink(_) => 0x15int,
            Pdu::EnquireLinkResp(_) => 0x80000015int,
            Pdu::Unbind(_) => 0x6int,
            Pdu::UnbindResp(_) => 0x80000006int,
            Pdu::QuerySm(_) => 0x3int,
            Pdu::QuerySmResp(_) => 0x80000003int,
            Pdu::CancelSm(_) => 0x8int,
            Pdu::CancelSmResp(_) => 0x80000008int,
            Pdu::GenericNack(_) => 0x80000000int,
            Pdu::Unknown => 0x80000000int,
        }),
        pdu.status() == (match pdu {
            Pdu::SubmitSmResp(p) => p.command_status as int,
            Pdu::BindTransmitterResp(p) => p.command_status as int,
            Pdu::BindReceiverResp(p) => p.command_status as int,
            Pdu::BindTransceiverResp(p) => p.command_status as int,
            _ => 0int,
        }),
        pdu.bytes(sequence_number) == pdu_bytes(
            pdu.command().code(),
            pdu.status(),
            sequence_number,
            pdu.written().bytes,
        ),
{
}

/// The body of a PDU is that of its kind, and so is the room that is set aside for it.
pub proof fn law_body_of_pdu(pdu: Pdu)
    ensures
        pdu matches Pdu::BindTransmitter(p) ==> pdu.written() == p.written() && pdu.size() == 82,
        pdu matches Pdu::BindTransmitterResp(p) ==> pdu.written() == p.written() && pdu.size() == 17,
        pdu matches Pdu::BindReceiver(p) ==> pdu.written() == p.written() && pdu.size() == 82,
        pdu matches Pdu::BindReceiverResp(p) ==> pdu.written() == p.written() && pdu.size() == 17,
        pdu matches Pdu::BindTransceiver(p) ==> pdu.written() == p.written() && pdu.size() == 82,
        pdu matches Pdu::BindTransceiverResp(p) ==> pdu.written() == p.written() && pdu.size() == 17,
        pdu matches Pdu::SubmitSm(p) ==> pdu.written() == p.written(),
        pdu matches Pdu::SubmitSmResp(p) ==> pdu.written() == p.written(),
        pdu matches Pdu::DeliverSm(p) ==> pdu.written() == p.written(),
        pdu matches Pdu::DeliverSmResp(p) ==> pdu.written() == p.written() && pdu.size() == 65,
        pdu matches Pdu::EnquireLink(p) ==> pdu.written() == p.written() && pdu.size() == 0,
        pdu matches Pdu::EnquireLinkResp(p) ==> pdu.written() == p.written() && pdu.size() == 0,
        pdu matches Pdu::Unbind(p) ==> pdu.written() == p.written() && pdu.size() == 0,
        pdu matches Pdu::UnbindResp(p) ==> pdu.written() == p.written() && pdu.size() == 0,
        pdu matches Pdu::QuerySm(p) ==> pdu.written() == p.written() && pdu.size() == 88,
        pdu matches Pdu::QuerySmResp(p) ==> pdu.written() == p.written(),
        pdu matches Pdu::CancelSm(p) ==> pdu.written() == p.written() && pdu.size() == 117,
        pdu matches Pdu::CancelSmResp(p) ==> pdu.written() == p.written() && pdu.size() == 0,
        pdu matches Pdu::GenericNack(p) ==> pdu.written() == p.written() && pdu.size() == 0,
        pdu is Unknown ==> pdu.written().bytes.len() == 0 && pdu.written().ok() && pdu.size() == 0,
{
}

} // verus!
