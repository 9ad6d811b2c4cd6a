//! Reading whole PDUs leniently, as they come in from peers.

use crate::error::RsmsError;
use crate::smpp::codec;
use crate::smpp::codec::{Encodable, ReadError};
use crate::smpp::datatypes::bind::{BindFields, BindParts, BindRespFields, BindReceiver,
    BindReceiverResp, BindTransceiver, BindTransceiverResp, BindTransmitter, BindTransmitterResp,
    MAX_SYSTEM_ID_LENGTH};
use crate::smpp::datatypes::cancel_sm::{CancelFields, CancelSm};
use crate::smpp::datatypes::command_id::CommandId;
use crate::smpp::datatypes::link::{
    CancelSmResp, EnquireLink, EnquireLinkResp, GenericNack, Unbind, UnbindResp,
};
use crate::smpp::datatypes::query_sm::{QueryFields, QueryRespFields, QuerySm, QuerySmResp};
use crate::smpp::datatypes::short_message::{
    DeliverSm, DeliverSmResp, MessageFields, MessageSizes, SubmitSm, SubmitSmResp,
    MESSAGE_ID_LENGTH,
};
use crate::smpp::datatypes::{bind, cancel_sm, query_sm, short_message};
use crate::smpp::grammar;
use crate::smpp::grammar::{Fault, Scan, Written};
use crate::smpp::pdu;
use crate::smpp::pdu::Pdu;
use crate::smpp::submit_decode;
use crate::smpp::version::SmppVersion;
use crate::text;
use crate::wire;
use vstd::prelude::*;
use vstd::slice::{slice_subrange, slice_to_vec};
use vstd::string::*;

verus! {

/// The longest PDU that is taken from a peer.
pub const MAX_MESSAGE_SIZE: u32 = 100_000;

/// The field of an address range in a request to bind that comes in.
pub const ADDRESS_RANGE_LENGTH: usize = 16;

/// The field of a state in words that comes in.
pub const STATE_TEXT_LENGTH: usize = 20;

/// A PDU that has come in.
#[derive(Debug, Clone, PartialEq)]
pub enum SmppMessage {
    BindTransmitter(BindTransmitter),
    BindTransmitterResp(BindTransmitterResp),
    BindReceiver(BindReceiver),
    BindReceiverResp(BindReceiverResp),
    BindTransceiver(BindTransceiver),
    BindTransceiverResp(BindTransceiverResp),
    SubmitSm(SubmitSm),
    SubmitSmResp(SubmitSmResp),
    DeliverSm(DeliverSm),
    DeliverSmResp(DeliverSmResp),
    EnquireLink(EnquireLink),
    EnquireLinkResp(EnquireLinkResp),
    Unbind(Unbind),
    UnbindResp(UnbindResp),
    QuerySm(QuerySm),
    QuerySmResp(QuerySmResp),
    CancelSm(CancelSm),
    CancelSmResp(CancelSmResp),
    GenericNack(GenericNack),
    Unknown { command_id: u32, body: Vec<u8> },
}

/// A PDU that has come in, as a mathematical value.
#[verifier::ext_equal]
pub enum Message {
    BindTransmitter(BindFields),
    BindTransmitterResp(BindRespFields),
    BindReceiver(BindFields),
    BindReceiverResp(BindRespFields),
    BindTransceiver(BindFields),
    BindTransceiverResp(BindRespFields),
    SubmitSm(MessageFields),
    SubmitSmResp { message_id: Seq<char>, command_status: u32 },
    DeliverSm(MessageFields),
    DeliverSmResp { message_id: Seq<char> },
    EnquireLink,
    EnquireLinkResp,
    Unbind,
    UnbindResp,
    QuerySm(QueryFields),
    QuerySmResp(QueryRespFields),
    CancelSm(CancelFields),
    CancelSmResp,
    GenericNack,
    Unknown { command_id: u32, body: Seq<u8> },
}

impl View for SmppMessage {
    type V = Message;

    open spec fn view(&self) -> Message {
        match self {
            SmppMessage::BindTransmitter(p) => Message::BindTransmitter(p@),
            SmppMessage::BindTransmitterResp(p) => Message::BindTransmitterResp(p@),
            SmppMessage::BindReceiver(p) => Message::BindReceiver(p@),
            SmppMessage::BindReceiverResp(p) => Message::BindReceiverResp(p@),
            SmppMessage::BindTransceiver(p) => Message::BindTransceiver(p@),
            SmppMessage::BindTransceiverResp(p) => Message::BindTransceiverResp(p@),
            SmppMessage::SubmitSm(p) => Message::SubmitSm(p@),
            SmppMessage::SubmitSmResp(p) => Message::SubmitSmResp {
                message_id: p.message_id@,
                command_status: p.command_status,
            },
            SmppMessage::DeliverSm(p) => Message::DeliverSm(p@),
            SmppMessage::DeliverSmResp(p) => Message::DeliverSmResp { message_id: p.message_id@ },
            SmppMessage::EnquireLink(_) => Message::EnquireLink,
            SmppMessage::EnquireLinkResp(_) => Message::EnquireLinkResp,
            SmppMessage::Unbind(_) => Message::Unbind,
            SmppMessage::UnbindResp(_) => Message::UnbindResp,
            SmppMessage::QuerySm(p) => Message::QuerySm(p@),
            SmppMessage::QuerySmResp(p) => Message::QuerySmResp(p@),
            SmppMessage::CancelSm(p) => Message::CancelSm(p@),
            SmppMessage::CancelSmResp(_) => Message::CancelSmResp,
            SmppMessage::GenericNack(_) => Message::GenericNack,
            SmppMessage::Unknown { command_id, body } => Message::Unknown {
                command_id: *command_id,
                body: body@,
            },
        }
    }
}

impl Message {
    /// The body of the PDU on the wire.
    pub open spec fn written(self) -> Written {
        match self {
            Message::BindTransmitter(b) => b.written(),
            Message::BindReceiver(b) => b.written(),
            Message::BindTransceiver(b) => b.written(),
            Message::BindTransmitterResp(r) => r.written(),
            Message::BindReceiverResp(r) => r.written(),
            Message::BindTransceiverResp(r) => r.written(),
            Message::SubmitSm(m) => m.written(),
            Message::DeliverSm(m) => m.written(),
            Message::SubmitSmResp { message_id, .. } => Written::new().string(
                message_id,
                MESSAGE_ID_LENGTH,
            ),
            Message::DeliverSmResp { message_id } => Written::new().string(
                message_id,
                MESSAGE_ID_LENGTH,
            ),
            Message::QuerySm(q) => q.written(),
            Message::QuerySmResp(q) => q.written(),
            Message::CancelSm(c) => c.written(),
            Message::Unknown { body, .. } => Written::new().raw(body),
            _ => Written::new(),
        }
    }

    /// The command of the PDU.
    pub open spec fn command(self) -> u32 {
        match self {
            Message::BindTransmitter(_) => CommandId::BIND_TRANSMITTER.code(),
            Message::BindReceiver(_) => CommandId::BIND_RECEIVER.code(),
            Message::BindTransceiver(_) => CommandId::BIND_TRANSCEIVER.code(),
            Message::BindTransmitterResp(_) => CommandId::BIND_TRANSMITTER_RESP.code(),
            Message::BindReceiverResp(_) => CommandId::BIND_RECEIVER_RESP.code(),
            Message::BindTransceiverResp(_) => CommandId::BIND_TRANSCEIVER_RESP.code(),
            Message::SubmitSm(_) => CommandId::SUBMIT_SM.code(),
            Message::DeliverSm(_) => CommandId::DELIVER_SM.code(),
            Message::SubmitSmResp { .. } => CommandId::SUBMIT_SM_RESP.code(),
            Message::DeliverSmResp { .. } => CommandId::DELIVER_SM_RESP.code(),
            Message::EnquireLink => CommandId::ENQUIRE_LINK.code(),
            Message::EnquireLinkResp => CommandId::ENQUIRE_LINK_RESP.code(),
            Message::Unbind => CommandId::UNBIND.code(),
            Message::UnbindResp => CommandId::UNBIND_RESP.code(),
            Message::QuerySm(_) => CommandId::QUERY_SM.code(),
            Message::QuerySmResp(_) => CommandId::QUERY_SM_RESP.code(),
            Message::CancelSm(_) => CommandId::CANCEL_SM.code(),
            Message::CancelSmResp => CommandId::CANCEL_SM_RESP.code(),
            Message::GenericNack => CommandId::GENERIC_NACK.code(),
            Message::Unknown { command_id, .. } => command_id,
        }
    }

    /// The result in the header of the PDU.
    pub open spec fn status(self) -> u32 {
        match self {
            Message::SubmitSmResp { command_status, .. } => command_status,
            Message::BindTransmitterResp(r) => r.command_status,
            Message::BindReceiverResp(r) => r.command_status,
            Message::BindTransceiverResp(r) => r.command_status,
            _ => 0,
        }
    }

    /// The whole PDU on the wire.
    pub open spec fn bytes(self, sequence_number: u32) -> Seq<u8> {
        pdu::pdu_bytes(self.command(), self.status(), sequence_number, self.written().bytes)
    }
}

impl Pdu {
    /// The message that a peer reads from the PDU.
    pub open spec fn message(self) -> Message {
        match self {
            Pdu::BindTransmitter(p) => Message::BindTransmitter(p@),
            Pdu::BindTransmitterResp(p) => Message::BindTransmitterResp(p@),
            Pdu::BindReceiver(p) => Message::BindReceiver(p@),
            Pdu::BindReceiverResp(p) => Message::BindReceiverResp(p@),
            Pdu::BindTransceiver(p) => Message::BindTransceiver(p@),
            Pdu::BindTransceiverResp(p) => Message::BindTransceiverResp(p@),
            Pdu::SubmitSm(p) => Message::SubmitSm(p@),
            Pdu::SubmitSmResp(p) => Message::SubmitSmResp {
                message_id: p.message_id@,
                command_status: p.command_status,
            },
            Pdu::DeliverSm(p) => Message::DeliverSm(p@),
            Pdu::DeliverSmResp(p) => Message::DeliverSmResp { message_id: p.message_id@ },
            Pdu::EnquireLink(_) => Message::EnquireLink,
            Pdu::EnquireLinkResp(_) => Message::EnquireLinkResp,
            Pdu::Unbind(_) => Message::Unbind,
            Pdu::UnbindResp(_) => Message::UnbindResp,
            Pdu::QuerySm(p) => Message::QuerySm(p@),
            Pdu::QuerySmResp(p) => Message::QuerySmResp(p@),
            Pdu::CancelSm(p) => Message::CancelSm(p@),
            Pdu::CancelSmResp(_) => Message::CancelSmResp,
            Pdu::GenericNack(_) => Message::GenericNack,
            Pdu::Unknown => Message::GenericNack,
        }
    }
}

/// The text of the error for a field that could not be read.
pub open spec fn fault_text(fault: Fault) -> Seq<char> {
    match fault {
        Fault::NoByte => "incomplete PDU"@,
        Fault::Cut => "Incomplete PDU: need more data"@,
        Fault::TooLong { field, max_len } => "Field '"@ + field + "' validation failed: "@
            + codec::too_long_reason(max_len),
    }
}

/// A message, or the text of the error, by where reading it ended.
pub open spec fn outcome(end: Scan, message: Message) -> Result<Message, Seq<char>> {
    match end.fault {
        None => Ok(message),
        Some(fault) => Err(fault_text(fault)),
    }
}

/// The body of a PDU of which the header says that it is `length` bytes long. A body that is
/// not all there ends with the data.
pub open spec fn body_of(s: Seq<u8>, length: u32) -> Seq<u8> {
    if s.len() > length {
        s.subrange(16, length as int)
    } else {
        s.skip(16)
    }
}

/// Where reading the response to a request to bind ends. The version at its end may be missing.
pub open spec fn bind_resp_end(body: Seq<u8>) -> Scan {
    Scan::of(body).after_string(MAX_SYSTEM_ID_LENGTH as nat, "system_id"@)
}

/// The response to a request to bind that is read.
pub open spec fn bind_resp(body: Seq<u8>, command_status: u32) -> BindRespFields {
    BindRespFields {
        system_id: Scan::of(body).string(),
        sc_interface_version: if bind_resp_end(body).rest.len() > 0 {
            bind_resp_end(body).byte()
        } else {
            0x34
        },
        command_status,
    }
}

/// Where reading an id ends.
pub open spec fn message_id_end(body: Seq<u8>) -> Scan {
    Scan::of(body).after_string(MESSAGE_ID_LENGTH as nat, "message_id"@)
}

/// The message in a body, by its command.
pub open spec fn body_message(
    id: u32,
    command_status: u32,
    body: Seq<u8>,
    version: SmppVersion,
) -> Result<Message, Seq<char>> {
    match CommandId::of_code(id) {
        Some(CommandId::BIND_TRANSMITTER) => outcome(
            BindFields::end(body, ADDRESS_RANGE_LENGTH as nat),
            Message::BindTransmitter(BindFields::read(body)),
        ),
        Some(CommandId::BIND_RECEIVER) => outcome(
            BindFields::end(body, ADDRESS_RANGE_LENGTH as nat),
            Message::BindReceiver(BindFields::read(body)),
        ),
        Some(CommandId::BIND_TRANSCEIVER) => outcome(
            BindFields::end(body, ADDRESS_RANGE_LENGTH as nat),
            Message::BindTransceiver(BindFields::read(body)),
        ),
        Some(CommandId::BIND_TRANSMITTER_RESP) => outcome(
            bind_resp_end(body),
            Message::BindTransmitterResp(bind_resp(body, command_status)),
        ),
        Some(CommandId::BIND_RECEIVER_RESP) => outcome(
            bind_resp_end(body),
            Message::BindReceiverResp(bind_resp(body, command_status)),
        ),
        Some(CommandId::BIND_TRANSCEIVER_RESP) => outcome(
            bind_resp_end(body),
            Message::BindTransceiverResp(bind_resp(body, command_status)),
        ),
        Some(CommandId::SUBMIT_SM) => if body.len() < 10 {
            Err("SubmitSm body too short"@)
        } else {
            outcome(
                MessageFields::head_end(body, MessageSizes::of(version)),
                Message::SubmitSm(MessageFields::read_leniently(body, MessageSizes::of(version))),
            )
        },
        Some(CommandId::SUBMIT_SM_RESP) => outcome(
            message_id_end(body),
            Message::SubmitSmResp { message_id: Scan::of(body).string(), command_status },
        ),
        Some(CommandId::DELIVER_SM) => if body.len() < 6 {
            Err("DeliverSm body too short"@)
        } else {
            outcome(
                MessageFields::head_end(body, MessageSizes::of(version)),
                Message::DeliverSm(MessageFields::read_leniently(body, MessageSizes::of(version))),
            )
        },
        Some(CommandId::DELIVER_SM_RESP) => outcome(
            message_id_end(body),
            Message::DeliverSmResp { message_id: Scan::of(body).string() },
        ),
        Some(CommandId::ENQUIRE_LINK) => Ok(Message::EnquireLink),
        Some(CommandId::ENQUIRE_LINK_RESP) => Ok(Message::EnquireLinkResp),
        Some(CommandId::UNBIND) => Ok(Message::Unbind),
        Some(CommandId::UNBIND_RESP) => Ok(Message::UnbindResp),
        Some(CommandId::QUERY_SM) => if body.len() < 3 {
            Err("QuerySm body too short"@)
        } else {
            outcome(QueryFields::end(body), Message::QuerySm(QueryFields::read(body)))
        },
        Some(CommandId::QUERY_SM_RESP) => if body.len() == 0 {
            Err("QuerySmResp body too short"@)
        } else {
            outcome(
                QueryRespFields::end(body, STATE_TEXT_LENGTH as nat),
                Message::QuerySmResp(QueryRespFields::read(body)),
            )
        },
        Some(CommandId::CANCEL_SM) => if body.len() < 4 {
            Err("CancelSm body too short"@)
        } else {
            outcome(CancelFields::end(body), Message::CancelSm(CancelFields::read(body)))
        },
        Some(CommandId::CANCEL_SM_RESP) => Ok(Message::CancelSmResp),
        Some(CommandId::GENERIC_NACK) => Ok(Message::GenericNack),
        _ => Ok(Message::Unknown { command_id: id, body }),
    }
}

/// The version that counts: 3.4 if none is given.
pub open spec fn version_or_default(version: Option<SmppVersion>) -> SmppVersion {
    match version {
        Some(v) => v,
        None => SmppVersion::V34,
    }
}

/// The message in a PDU, or the text of the error.
pub open spec fn decoded(s: Seq<u8>, version: Option<SmppVersion>) -> Result<Message, Seq<char>> {
    let length = wire::be32(s);
    if s.len() < 16 {
        Err("buffer too short for SMPP header"@)
    } else if length < 16 || length > MAX_MESSAGE_SIZE {
        Err("invalid SMPP length: "@ + text::decimal_chars(length as nat))
    } else {
        body_message(
            wire::be32(s.skip(4)),
            wire::be32(s.skip(8)),
            body_of(s, length),
            version_or_default(version),
        )
    }
}

/// Whether a result is the message that was read, or an error with the text.
pub open spec fn is_result(
    res: Result<SmppMessage, RsmsError>,
    expected: Result<Message, Seq<char>>,
) -> bool {
    match expected {
        Ok(message) => res matches Ok(m) && m@ == message,
        Err(text) => res matches Err(e) && e.is_codec(text),
    }
}

impl ReadError {
    /// The error as one of the library.
    pub(crate) fn into_rsms(self) -> (res: RsmsError)
        requires
            self matches ReadError::Field(e) ==> !(e is Io),
        ensures
            forall|fault: Fault| #[trigger]
                self.is_fault(fault) ==> res.is_codec(fault_text(fault)),
    {
        match self {
            ReadError::NoByte => RsmsError::Codec("incomplete PDU".to_owned()),
            ReadError::Field(e) => RsmsError::Codec(e.to_text()),
        }
    }
}

/// Reads the response to a request to bind.
fn read_bind_resp(body: &[u8]) -> (res: Result<(String, u8), RsmsError>)
    ensures
        res is Ok <==> bind_resp_end(body@).ok(),
        res matches Ok((id, version)) ==> id@ == bind_resp(body@, 0).system_id && version
            == bind_resp(body@, 0).sc_interface_version,
        res matches Err(e) ==> e.is_codec(fault_text(bind_resp_end(body@).fault->0)),
{
    let mut cursor = wire::new_cursor(body);
    let system_id = match codec::read_string(&mut cursor, MAX_SYSTEM_ID_LENGTH, "system_id") {
        Ok(s) => s,
        Err(e) => {
            return Err(e.into_rsms());
        },
    };
    let sc_interface_version: u8 = if wire::remaining(&cursor) > 0 {
        wire::get_u8(&mut cursor)
    } else {
        0x34
    };
    Ok((system_id, sc_interface_version))
}

/// Reads a request to bind.
fn read_bind(body: &[u8]) -> (res: Result<BindParts, RsmsError>)
    ensures
        ({
            let end = BindFields::end(body@, ADDRESS_RANGE_LENGTH as nat);
            &&& res is Ok <==> end.ok()
            &&& res matches Ok(parts) ==> parts.fields() == BindFields::read(body@)
            &&& res matches Err(e) ==> e.is_codec(fault_text(end.fault->0))
        }),
{
    let mut cursor = wire::new_cursor(body);
    match BindParts::decode(&mut cursor, ADDRESS_RANGE_LENGTH) {
        Ok(parts) => Ok(parts),
        Err(e) => Err(e.into_rsms()),
    }
}

/// Reads the id in a response.
fn read_message_id(body: &[u8]) -> (res: Result<String, RsmsError>)
    ensures
        ({
            let end = message_id_end(body@);
            &&& res is Ok <==> end.ok()
            &&& res matches Ok(id) ==> id@ == Scan::of(body@).string()
            &&& res matches Err(e) ==> e.is_codec(fault_text(end.fault->0))
        }),
{
    let mut cursor = wire::new_cursor(body);
    match codec::read_string(&mut cursor, MESSAGE_ID_LENGTH, "message_id") {
        Ok(id) => Ok(id),
        Err(e) => Err(e.into_rsms()),
    }
}

/// Reads a PDU of version 3.4.
pub fn decode_message(buf: &[u8]) -> (res: Result<SmppMessage, RsmsError>)
    ensures
        is_result(res, decoded(buf@, None)),
{
    decode_message_with_version(buf, None)
}

/// Reads a PDU. The version decides how long some fields of messages may be; without one it is
/// 3.4. An unknown command is no error.
pub fn decode_message_with_version(buf: &[u8], version: Option<SmppVersion>) -> (res: Result<
    SmppMessage,
    RsmsError,
>)
    ensures
        is_result(res, decoded(buf@, version)),
{
    if buf.len() < 16 {
        return Err(RsmsError::Codec("buffer too short for SMPP header".to_owned()));
    }
    let command_length: u32 = wire::read_be32(buf, 0);
    assert(buf@.skip(0) =~= buf@);
    let command_id_raw: u32 = wire::read_be32(buf, 4);
    let command_status: u32 = wire::read_be32(buf, 8);
    if command_length < 16 || command_length > MAX_MESSAGE_SIZE {
        let mut s = "invalid SMPP length: ".to_owned();
        s.append(text::decimal(command_length as u64).as_str());
        return Err(RsmsError::Codec(s));
    }
    let body_end: usize = if buf.len() > command_length as usize {
        command_length as usize
    } else {
        buf.len()
    };
    let body = slice_subrange(buf, 16, body_end);
    assert(body@ =~= body_of(buf@, command_length));
    decode_body(command_id_raw, command_status, body, version)
}

/// Reads the body of a PDU, by its command.
fn decode_body(
    command_id_raw: u32,
    command_status: u32,
    body: &[u8],
    version: Option<SmppVersion>,
) -> (res: Result<SmppMessage, RsmsError>)
    ensures
        is_result(
            res,
            body_message(command_id_raw, command_status, body@, version_or_default(version)),
        ),
{
    let command_id = match CommandId::from_u32(command_id_raw) {
        Some(id) => id,
        None => {
            return Ok(
                SmppMessage::Unknown { command_id: command_id_raw, body: slice_to_vec(body) },
            );
        },
    };
    match command_id {
        CommandId::BIND_TRANSMITTER => match read_bind(body) {
            Ok(parts) => Ok(
                SmppMessage::BindTransmitter(
                    BindTransmitter {
                        system_id: parts.system_id,
                        password: parts.password,
                        system_type: parts.system_type,
                        interface_version: parts.interface_version,
                        addr_ton: parts.addr_ton,
                        addr_npi: parts.addr_npi,
                        address_range: parts.address_range,
                    },
                ),
            ),
            Err(e) => Err(e),
        },
        CommandId::BIND_TRANSMITTER_RESP => match read_bind_resp(body) {
            Ok((system_id, sc_interface_version)) => Ok(
                SmppMessage::BindTransmitterResp(
                    BindTransmitterResp { system_id, sc_interface_version, command_status },
                ),
            ),
            Err(e) => Err(e),
        },
        CommandId::BIND_RECEIVER => match read_bind(body) {
            Ok(parts) => Ok(
                SmppMessage::BindReceiver(
                    BindReceiver {
                        system_id: parts.system_id,
                        password: parts.password,
                        system_type: parts.system_type,
                        interface_version: parts.interface_version,
                        addr_ton: parts.addr_ton,
                        addr_npi: parts.addr_npi,
                        address_range: parts.address_range,
                    },
                ),
            ),
            Err(e) => Err(e),
        },
        CommandId::BIND_RECEIVER_RESP => match read_bind_resp(body) {
            Ok((system_id, sc_interface_version)) => Ok(
                SmppMessage::BindReceiverResp(
                    BindReceiverResp { system_id, sc_interface_version, command_status },
                ),
            ),
            Err(e) => Err(e),
        },
        CommandId::BIND_TRANSCEIVER => match read_bind(body) {
            Ok(parts) => Ok(
                SmppMessage::BindTransceiver(
                    BindTransceiver {
                        system_id: parts.system_id,
                        password: parts.password,
                        system_type: parts.system_type,
                        interface_version: parts.interface_version,
                        addr_ton: parts.addr_ton,
                        addr_npi: parts.addr_npi,
                        address_range: parts.address_range,
                    },
                ),
            ),
            Err(e) => Err(e),
        },
        CommandId::BIND_TRANSCEIVER_RESP => match read_bind_resp(body) {
            Ok((system_id, sc_interface_version)) => Ok(
                SmppMessage::BindTransceiverResp(
                    BindTransceiverResp { system_id, sc_interface_version, command_status },
                ),
            ),
            Err(e) => Err(e),
        },
        CommandId::SUBMIT_SM => match submit_decode::decode_submit_sm(version, 0, body) {
            Ok(sm) => Ok(SmppMessage::SubmitSm(sm)),
            Err(e) => Err(e),
        },
        CommandId::SUBMIT_SM_RESP => match read_message_id(body) {
            Ok(message_id) => Ok(
                SmppMessage::SubmitSmResp(SubmitSmResp { message_id, command_status }),
            ),
            Err(e) => Err(e),
        },
        CommandId::DELIVER_SM => match submit_decode::decode_deliver_sm(version, 0, body) {
            Ok(sm) => Ok(SmppMessage::DeliverSm(sm)),
            Err(e) => Err(e),
        },
        CommandId::DELIVER_SM_RESP => match read_message_id(body) {
            Ok(message_id) => Ok(SmppMessage::DeliverSmResp(DeliverSmResp { message_id })),
            Err(e) => Err(e),
        },
        CommandId::ENQUIRE_LINK => Ok(SmppMessage::EnquireLink(EnquireLink)),
        CommandId::ENQUIRE_LINK_RESP => Ok(SmppMessage::EnquireLinkResp(EnquireLinkResp)),
        CommandId::UNBIND => Ok(SmppMessage::Unbind(Unbind)),
        CommandId::UNBIND_RESP => Ok(SmppMessage::UnbindResp(UnbindResp)),
        CommandId::QUERY_SM => {
            if body.len() < 3 {
                return Err(RsmsError::Codec("QuerySm body too short".to_owned()));
            }
            let mut cursor = wire::new_cursor(body);
            match QuerySm::read(&mut cursor) {
                Ok(pdu) => Ok(SmppMessage::QuerySm(pdu)),
                Err(e) => Err(e.into_rsms()),
            }
        },
        CommandId::QUERY_SM_RESP => {
            if body.len() == 0 {
                return Err(RsmsError::Codec("QuerySmResp body too short".to_owned()));
            }
            let mut cursor = wire::new_cursor(body);
            match QuerySmResp::read(&mut cursor, STATE_TEXT_LENGTH) {
                Ok(pdu) => Ok(SmppMessage::QuerySmResp(pdu)),
                Err(e) => Err(e.into_rsms()),
            }
        },
        CommandId::CANCEL_SM => {
            if body.len() < 4 {
                return Err(RsmsError::Codec("CancelSm body too short".to_owned()));
            }
            let mut cursor = wire::new_cursor(body);
            match CancelSm::read(&mut cursor) {
                Ok(pdu) => Ok(SmppMessage::CancelSm(pdu)),
                Err(e) => Err(e.into_rsms()),
            }
        },
        CommandId::CANCEL_SM_RESP => Ok(SmppMessage::CancelSmResp(CancelSmResp)),
        CommandId::GENERIC_NACK => Ok(SmppMessage::GenericNack(GenericNack::new())),
        _ => Ok(SmppMessage::Unknown { command_id: command_id_raw, body: slice_to_vec(body) }),
    }
}

/// A PDU that a peer can read back as it was written: its strings fit the fields that are read,
/// which are shorter than those that are written for an address range and for a state in words,
/// and the whole is not too long.
pub open spec fn readable(m: Message) -> bool {
    &&& m.written().bytes.len() + 16 <= MAX_MESSAGE_SIZE
    &&& match m {
        Message::BindTransmitter(b) => b.fits(ADDRESS_RANGE_LENGTH as nat),
        Message::BindReceiver(b) => b.fits(ADDRESS_RANGE_LENGTH as nat),
        Message::BindTransceiver(b) => b.fits(ADDRESS_RANGE_LENGTH as nat),
        Message::BindTransmitterResp(r) => grammar::fits(r.system_id, MAX_SYSTEM_ID_LENGTH as nat),
        Message::BindReceiverResp(r) => grammar::fits(r.system_id, MAX_SYSTEM_ID_LENGTH as nat),
        Message::BindTransceiverResp(r) => grammar::fits(r.system_id, MAX_SYSTEM_ID_LENGTH as nat),
        Message::SubmitSm(s) => s.fits(),
        Message::DeliverSm(s) => s.fits(),
        Message::SubmitSmResp { message_id, .. } => grammar::fits(
            message_id,
            MESSAGE_ID_LENGTH as nat,
        ),
        Message::DeliverSmResp { message_id } => grammar::fits(message_id, MESSAGE_ID_LENGTH as nat),
        Message::QuerySm(q) => q.fits(),
        Message::QuerySmResp(q) => q.fits(STATE_TEXT_LENGTH as nat),
        Message::CancelSm(c) => c.fits(),
        Message::Unknown { command_id, .. } => CommandId::of_code(command_id) is None,
        _ => true,
    }
}

/// The body of a PDU can be written, and is read back by a peer of a version as what it is.
spec fn reads_back(m: Message, version: SmppVersion) -> bool {
    &&& m.written().ok()
    &&& body_message(m.command(), m.status(), m.written().bytes, version) == Ok::<
        Message,
        Seq<char>,
    >(m)
}

proof fn lemma_bind_transmitter(b: BindFields, version: SmppVersion)
    requires
        readable(Message::BindTransmitter(b)),
    ensures
        reads_back(Message::BindTransmitter(b), version),
{
    let none = Seq::<u8>::empty();
    let body = Message::BindTransmitter(b).written().bytes;
    assert(body + none =~= body);
    bind::law_bind_roundtrip(b, ADDRESS_RANGE_LENGTH as nat, none);
}

proof fn lemma_bind_receiver(b: BindFields, version: SmppVersion)
    requires
        readable(Message::BindReceiver(b)),
    ensures
        reads_back(Message::BindReceiver(b), version),
{
    let none = Seq::<u8>::empty();
    let body = Message::BindReceiver(b).written().bytes;
    assert(body + none =~= body);
    bind::law_bind_roundtrip(b, ADDRESS_RANGE_LENGTH as nat, none);
}

proof fn lemma_bind_transceiver(b: BindFields, version: SmppVersion)
    requires
        readable(Message::BindTransceiver(b)),
    ensures
        reads_back(Message::BindTransceiver(b), version),
{
    let none = Seq::<u8>::empty();
    let body = Message::BindTransceiver(b).written().bytes;
    assert(body + none =~= body);
    bind::law_bind_roundtrip(b, ADDRESS_RANGE_LENGTH as nat, none);
}

proof fn lemma_bind_transmitter_resp(r: BindRespFields, version: SmppVersion)
    requires
        readable(Message::BindTransmitterResp(r)),
    ensures
        reads_back(Message::BindTransmitterResp(r), version),
{
    let none = Seq::<u8>::empty();
    let body = Message::BindTransmitterResp(r).written().bytes;
    assert(body + none =~= body);
    lemma_bind_resp(r);
}

proof fn lemma_bind_receiver_resp(r: BindRespFields, version: SmppVersion)
    requires
        readable(Message::BindReceiverResp(r)),
    ensures
        reads_back(Message::BindReceiverResp(r), version),
{
    let none = Seq::<u8>::empty();
    let body = Message::BindReceiverResp(r).written().bytes;
    assert(body + none =~= body);
    lemma_bind_resp(r);
}

proof fn lemma_bind_transceiver_resp(r: BindRespFields, version: SmppVersion)
    requires
        readable(Message::BindTransceiverResp(r)),
    ensures
        reads_back(Message::BindTransceiverResp(r), version),
{
    let none = Seq::<u8>::empty();
    let body = Message::BindTransceiverResp(r).written().bytes;
    assert(body + none =~= body);
    lemma_bind_resp(r);
}

proof fn lemma_submit_sm(s: MessageFields, version: SmppVersion)
    requires
        readable(Message::SubmitSm(s)),
    ensures
        reads_back(Message::SubmitSm(s), version),
{
    let none = Seq::<u8>::empty();
    let body = Message::SubmitSm(s).written().bytes;
    assert(body + none =~= body);
    short_message::law_message_roundtrip(s, version);
    short_message::lemma_message_len(s);
}

proof fn lemma_deliver_sm(s: MessageFields, version: SmppVersion)
    requires
        readable(Message::DeliverSm(s)),
    ensures
        reads_back(Message::DeliverSm(s), version),
{
    let none = Seq::<u8>::empty();
    let body = Message::DeliverSm(s).written().bytes;
    assert(body + none =~= body);
    short_message::law_message_roundtrip(s, version);
    short_message::lemma_message_len(s);
}

proof fn lemma_query_sm(q: QueryFields, version: SmppVersion)
    requires
        readable(Message::QuerySm(q)),
    ensures
        reads_back(Message::QuerySm(q), version),
{
    let none = Seq::<u8>::empty();
    let body = Message::QuerySm(q).written().bytes;
    assert(body + none =~= body);
    query_sm::law_query_roundtrip(q, none);
}

proof fn lemma_query_sm_resp(q: QueryRespFields, version: SmppVersion)
    requires
        readable(Message::QuerySmResp(q)),
    ensures
        reads_back(Message::QuerySmResp(q), version),
{
    let none = Seq::<u8>::empty();
    let body = Message::QuerySmResp(q).written().bytes;
    assert(body + none =~= body);
    query_sm::law_query_resp_roundtrip(q, STATE_TEXT_LENGTH as nat);
}

proof fn lemma_cancel_sm(c: CancelFields, version: SmppVersion)
    requires
        readable(Message::CancelSm(c)),
    ensures
        reads_back(Message::CancelSm(c), version),
{
    let none = Seq::<u8>::empty();
    let body = Message::CancelSm(c).written().bytes;
    assert(body + none =~= body);
    cancel_sm::law_cancel_roundtrip(c, none);
}

proof fn lemma_message_id(id: Seq<char>, status: u32, version: SmppVersion)
    requires
        grammar::fits(id, MESSAGE_ID_LENGTH as nat),
    ensures
        reads_back(Message::SubmitSmResp { message_id: id, command_status: status }, version),
        reads_back(Message::DeliverSmResp { message_id: id }, version),
{
    let none = Seq::<u8>::empty();
    let body = Written::new().string(id, MESSAGE_ID_LENGTH).bytes;
    assert(body + none =~= body);
    short_message::law_message_id_roundtrip(id, none);
}

/// The body of a PDU, written and read back, is what it was.
proof fn lemma_body_roundtrip(m: Message, version: SmppVersion)
    requires
        readable(m),
    ensures
        reads_back(m, version),
{
    match m {
        Message::BindTransmitter(b) => lemma_bind_transmitter(b, version),
        Message::BindReceiver(b) => lemma_bind_receiver(b, version),
        Message::BindTransceiver(b) => lemma_bind_transceiver(b, version),
        Message::BindTransmitterResp(r) => lemma_bind_transmitter_resp(r, version),
        Message::BindReceiverResp(r) => lemma_bind_receiver_resp(r, version),
        Message::BindTransceiverResp(r) => lemma_bind_transceiver_resp(r, version),
        Message::SubmitSm(s) => lemma_submit_sm(s, version),
        Message::DeliverSm(s) => lemma_deliver_sm(s, version),
        Message::QuerySm(q) => lemma_query_sm(q, version),
        Message::QuerySmResp(q) => lemma_query_sm_resp(q, version),
        Message::CancelSm(c) => lemma_cancel_sm(c, version),
        Message::SubmitSmResp { message_id, command_status } => lemma_message_id(
            message_id,
            command_status,
            version,
        ),
        Message::DeliverSmResp { message_id } => lemma_message_id(message_id, 0, version),
        Message::Unknown { command_id, body } => {
            assert(m.written().bytes =~= body);
        },
        _ => {},
    }
}

proof fn lemma_bind_resp(resp: BindRespFields)
    requires
        grammar::fits(resp.system_id, MAX_SYSTEM_ID_LENGTH as nat),
    ensures
        resp.written().ok(),
        bind_resp_end(resp.written().bytes).ok(),
        bind_resp(resp.written().bytes, resp.command_status) == resp,
{
    let none = Seq::<u8>::empty();
    let body = resp.written().bytes;
    let version = seq![resp.sc_interface_version];
    grammar::lemma_then_string(
        Written::new(),
        resp.system_id,
        MAX_SYSTEM_ID_LENGTH,
        version,
    );
    grammar::lemma_new(crate::cstring::cstring_bytes(resp.system_id) + version);
    grammar::lemma_read_string(resp.system_id, MAX_SYSTEM_ID_LENGTH as nat, "system_id"@, version);
    let head = Written::new().string(resp.system_id, MAX_SYSTEM_ID_LENGTH);
    assert(body =~= head.bytes + version);
}

/// A PDU on the wire is read back by a peer of any version as what it is.
pub proof fn law_pdu_roundtrip(m: Message, sequence_number: u32, version: Option<SmppVersion>)
    requires
        readable(m),
    ensures
        m.written().ok(),
        decoded(m.bytes(sequence_number), version) == Ok::<Message, Seq<char>>(m),
{
    let body = m.written().bytes;
    pdu::law_pdu_bytes(m.command(), m.status(), sequence_number, body);
    lemma_body_roundtrip(m, version_or_default(version));
    let s = m.bytes(sequence_number);
    assert(body_of(s, wire::be32(s)) =~= body);
}

/// A PDU and the message that it is are the same on the wire.
pub proof fn lemma_pdu_message(pdu: Pdu, sequence_number: u32)
    ensures
        pdu.written() == pdu.message().written(),
        pdu.bytes(sequence_number) == pdu.message().bytes(sequence_number),
{
}

/// What a PDU is read as does not depend on its sequence number.
pub proof fn law_sequence_number_ignored(
    id: u32,
    status: u32,
    a: u32,
    b: u32,
    body: Seq<u8>,
    version: Option<SmppVersion>,
)
    requires
        16 + body.len() < 0x1_0000_0000,
    ensures
        decoded(pdu::pdu_bytes(id, status, a, body), version) == decoded(
            pdu::pdu_bytes(id, status, b, body),
            version,
        ),
{
    let s = pdu::pdu_bytes(id, status, a, body);
    let t = pdu::pdu_bytes(id, status, b, body);
    pdu::law_pdu_bytes(id, status, a, body);
    pdu::law_pdu_bytes(id, status, b, body);
    assert(body_of(s, wire::be32(s)) =~= body);
    assert(body_of(t, wire::be32(t)) =~= body);
}

/// An unknown command is never an error, whatever its body.
pub proof fn law_unknown_command_is_kept(id: u32, status: u32, body: Seq<u8>, version: SmppVersion)
    requires
        CommandId::of_code(id) is None,
    ensures
        body_message(id, status, body, version) == Ok::<Message, Seq<char>>(
            Message::Unknown { command_id: id, body },
        ),
{
}

/// A PDU on the wire: its length, its command, its status and its sequence number in four bytes
/// each, the high one first, and then its body.
pub proof fn law_pdu_on_wire(m: Message, sequence_number: u32)
    requires
        m.written().bytes.len() < 0x1_0000_0000 - 16,
    ensures
        ({
            let s = m.bytes(sequence_number);
            &&& s.len() == 16 + m.written().bytes.len()
            &&& s[0] * 16777216 + s[1] * 65536 + s[2] * 256 + s[3] == s.len()
            &&& s[4] * 16777216 + s[5] * 65536 + s[6] * 256 + s[7] == (match m {
                Message::BindTransmitter(_) => 0x2,
                Message::BindReceiver(_) => 0x1,
                Message::BindTransceiver(_) => 0x9,
                Message::BindTransmitterResp(_) => 0x80000002,
                Message::BindReceiverResp(_) => 0x80000001,
                Message::BindTransceiverResp(_) => 0x80000009,
                Message::SubmitSm(_) => 0x4,
                Message::SubmitSmResp { .. } => 0x80000004,
                Message::DeliverSm(_) => 0x5,
                Message::DeliverSmResp { .. } => 0x80000005,
                Message::EnquireLink => 0x15,
                Message::EnquireLinkResp => 0x80000015,
                Message::Unbind => 0x6,
                Message::UnbindResp => 0x80000006,
                Message::QuerySm(_) => 0x3,
                Message::QuerySmResp(_) => 0x80000003,
                Message::CancelSm(_) => 0x8,
                Message::CancelSmResp => 0x80000008,
                Message::GenericNack => 0x80000000,
                Message::Unknown { command_id, .. } => command_id as int,
            })
            &&& s[8] * 16777216 + s[9] * 65536 + s[10] * 256 + s[11] == (match m {
                Message::SubmitSmResp { command_status, .. } => command_status as int,
                Message::BindTransmitterResp(r) => r.command_status as int,
                Message::BindReceiverResp(r) => r.command_status as int,
                Message::BindTransceiverResp(r) => r.command_status as int,
                _ => 0,
            })
            &&& s[12] * 16777216 + s[13] * 65536 + s[14] * 256 + s[15] == sequence_number
            &&& s.subrange(16, s.len() as int) == m.written().bytes
        }),
{
    let s = m.bytes(sequence_number);
    let body = m.written().bytes;
    pdu::law_pdu_bytes(m.command(), m.status(), sequence_number, body);
    wire::law_high_byte_first(0, 0, s);
    wire::law_high_byte_first(0, 0, s.skip(4));
    wire::law_high_byte_first(0, 0, s.skip(8));
    wire::law_high_byte_first(0, 0, s.skip(12));
    assert(s.subrange(16, s.len() as int) =~= s.skip(16));
}

/// What the body of a PDU is, by its kind: of links and refusals nothing, of a response to a
/// message its id, of the others what their fields give.
pub proof fn law_bodies(m: Message)
    ensures
        m is EnquireLink || m is EnquireLinkResp || m is Unbind || m is UnbindResp || m is CancelSmResp
            || m is GenericNack ==> m.written().bytes.len() == 0 && m.written().ok(),
        m matches Message::SubmitSmResp { message_id, .. } ==> m.written() == Written::new().string(
            message_id,
            65,
        ),
        m matches Message::DeliverSmResp { message_id } ==> m.written() == Written::new().string(
            message_id,
            65,
        ),
        m matches Message::SubmitSm(f) ==> m.written() == f.written(),
        m matches Message::DeliverSm(f) ==> m.written() == f.written(),
        m matches Message::BindTransmitter(f) ==> m.written() == f.written(),
        m matches Message::BindReceiver(f) ==> m.written() == f.written(),
        m matches Message::BindTransceiver(f) ==> m.written() == f.written(),
        m matches Message::BindTransmitterResp(f) ==> m.written() == f.written(),
        m matches Message::BindReceiverResp(f) ==> m.written() == f.written(),
        m matches Message::BindTransceiverResp(f) ==> m.written() == f.written(),
        m matches Message::Unknown { body, .. } ==> m.written().bytes == body,
{
    if let Message::Unknown { body, .. } = m {
        assert(m.written().bytes =~= body);
    }
}

/// A PDU is refused if there are fewer than 16 bytes, or if it says of itself that it is shorter
/// than 16 bytes or longer than 100000. Nothing else of its header makes it refused: links,
/// refusals and commands that are not known are always read.
pub proof fn law_refused_headers(s: Seq<u8>, version: Option<SmppVersion>)
    ensures
        s.len() < 16 ==> decoded(s, version) is Err,
        s.len() >= 16 ==> {
            let length = s[0] * 16777216 + s[1] * 65536 + s[2] * 256 + s[3];
            let id = s[4] * 16777216 + s[5] * 65536 + s[6] * 256 + s[7];
            let status = s[8] * 16777216 + s[9] * 65536 + s[10] * 256 + s[11];
            &&& length < 16 || length > 100000 ==> decoded(s, version) is Err
            &&& 16 <= length <= 100000 ==> {
                &&& id == 0x15 ==> decoded(s, version) == Ok::<Message, Seq<char>>(
                    Message::EnquireLink,
                )
                &&& id == 0x80000015 ==> decoded(s, version) == Ok::<Message, Seq<char>>(
                    Message::EnquireLinkResp,
                )
                &&& id == 6 ==> decoded(s, version) == Ok::<Message, Seq<char>>(Message::Unbind)
                &&& id == 0x80000006 ==> decoded(s, version) == Ok::<Message, Seq<char>>(
                    Message::UnbindResp,
                )
                &&& id == 0x80000000 ==> decoded(s, version) == Ok::<Message, Seq<char>>(
                    Message::GenericNack,
                )
                &&& id == 0x80000008 ==> decoded(s, version) == Ok::<Message, Seq<char>>(
                    Message::CancelSmResp,
                )
                &&& id == 4 && s.len() < 26 ==> decoded(s, version) is Err
                &&& id == 5 && s.len() < 22 ==> decoded(s, version) is Err
                &&& decoded(s, version) matches Ok(m) ==> m.command() == id
                &&& decoded(s, version) matches Ok(m) ==> m.status() == 0 || m.status() == status
                &&& decoded(s, version) matches Ok(Message::SubmitSmResp { command_status, .. }) ==> command_status == status
                &&& decoded(s, version) matches Ok(Message::BindTransceiverResp(r)) ==> r.command_status == status
                &&& decoded(s, version) matches Ok(Message::BindTransmitterResp(r)) ==> r.command_status == status
                &&& decoded(s, version) matches Ok(Message::BindReceiverResp(r)) ==> r.command_status == status
                &&& id == 0x103 || id == 0x80000103 || id > 0x103 && id < 0x80000000 ==> (decoded(
                    s,
                    version,
                ) matches Ok(Message::Unknown { command_id, body }) && command_id == id && body
                    == s.subrange(
                    16,
                    if length < s.len() {
                        length as int
                    } else {
                        s.len() as int
                    },
                ))
            }
        },
{
    wire::law_high_byte_first(0, 0, s);
    if s.len() >= 16 {
        wire::law_high_byte_first(0, 0, s.skip(4));
        wire::law_high_byte_first(0, 0, s.skip(8));
        assert(body_of(s, wire::be32(s)).len() <= s.len() - 16 || wire::be32(s) < 16);
        assert(s.skip(16) =~= s.subrange(16, s.len() as int));
    }
}

/// The texts of the errors for fields that could not be read, and where a body ends: where its
/// header says, or where the data ends.
pub proof fn law_faults_and_bodies(s: Seq<u8>, length: u32, field: Seq<char>, max_len: nat)
    requires
        s.len() >= 16,
        length >= 16,
    ensures
        fault_text(Fault::NoByte) == "incomplete PDU"@,
        fault_text(Fault::Cut) == "Incomplete PDU: need more data"@,
        fault_text(Fault::TooLong { field, max_len }) == "Field '"@ + field
            + "' validation failed: "@ + codec::too_long_reason(max_len),
        length <= s.len() ==> body_of(s, length) == s.subrange(16, length as int),
        length > s.len() ==> body_of(s, length) == s.subrange(16, s.len() as int),
{
    assert(s.skip(16) =~= s.subrange(16, s.len() as int));
}

/// What a body is read as, by the number of its command: a request to bind with at most 15 bytes for
/// the address range, or a message with the sizes of the version; a body that cannot be read gives
/// the text of its error.
pub proof fn law_requests_are_read(id: u32, status: u32, body: Seq<u8>, version: SmppVersion)
    ensures
        id == 1 ==> (BindFields::end(body, 16).ok() ==> body_message(id, status, body, version) == Ok::<
            Message,
            Seq<char>,
        >(Message::BindReceiver(BindFields::read(body)))) && (BindFields::end(body, 16).fault matches Some(f) ==> body_message(id, status, body, version)
            == Err::<Message, Seq<char>>(fault_text(f))),
        id == 2 ==> (BindFields::end(body, 16).ok() ==> body_message(id, status, body, version) == Ok::<
            Message,
            Seq<char>,
        >(Message::BindTransmitter(BindFields::read(body)))) && (BindFields::end(body, 16).fault matches Some(f) ==> body_message(id, status, body, version)
            == Err::<Message, Seq<char>>(fault_text(f))),
        id == 9 ==> (BindFields::end(body, 16).ok() ==> body_message(id, status, body, version) == Ok::<
            Message,
            Seq<char>,
        >(Message::BindTransceiver(BindFields::read(body)))) && (BindFields::end(body, 16).fault matches Some(f) ==> body_message(id, status, body, version)
            == Err::<Message, Seq<char>>(fault_text(f))),
        id == 4 && body.len() < 10 ==> body_message(id, status, body, version) == Err::<Message, Seq<char>>(
            "SubmitSm body too short"@,
        ),
        id == 5 && body.len() < 6 ==> body_message(id, status, body, version) == Err::<Message, Seq<char>>(
            "DeliverSm body too short"@,
        ),
        id == 3 && body.len() < 3 ==> body_message(id, status, body, version) == Err::<Message, Seq<char>>(
            "QuerySm body too short"@,
        ),
        id == 8 && body.len() < 4 ==> body_message(id, status, body, version) == Err::<Message, Seq<char>>(
            "CancelSm body too short"@,
        ),
        id == 4 && body.len() >= 10 ==> (MessageFields::head_end(body, MessageSizes::of(version)).ok() ==> body_message(id, status, body, version) == Ok::<
            Message,
            Seq<char>,
        >(Message::SubmitSm(MessageFields::read_leniently(body, MessageSizes::of(version))))) && (MessageFields::head_end(body, MessageSizes::of(version)).fault matches Some(f) ==> body_message(id, status, body, version)
            == Err::<Message, Seq<char>>(fault_text(f))),
        id == 5 && body.len() >= 6 ==> (MessageFields::head_end(body, MessageSizes::of(version)).ok() ==> body_message(id, status, body, version) == Ok::<
            Message,
            Seq<char>,
        >(Message::DeliverSm(MessageFields::read_leniently(body, MessageSizes::of(version))))) && (MessageFields::head_end(body, MessageSizes::of(version)).fault matches Some(f) ==> body_message(id, status, body, version)
            == Err::<Message, Seq<char>>(fault_text(f))),
        id == 3 && body.len() >= 3 ==> (QueryFields::end(body).ok() ==> body_message(id, status, body, version) == Ok::<
            Message,
            Seq<char>,
        >(Message::QuerySm(QueryFields::read(body)))) && (QueryFields::end(body).fault matches Some(f) ==> body_message(id, status, body, version)
            == Err::<Message, Seq<char>>(fault_text(f))),
        id == 8 && body.len() >= 4 ==> (CancelFields::end(body).ok() ==> body_message(id, status, body, version) == Ok::<
            Message,
            Seq<char>,
        >(Message::CancelSm(CancelFields::read(body)))) && (CancelFields::end(body).fault matches Some(f) ==> body_message(id, status, body, version)
            == Err::<Message, Seq<char>>(fault_text(f))),
{
}

/// What the body of a response is read as, by the number of its command. The version at the end of
/// the response to a request to bind may be missing, and is then 0x34.
pub proof fn law_responses_are_read(id: u32, status: u32, body: Seq<u8>, version: SmppVersion)
    ensures
        bind_resp_end(body) == Scan::of(body).after_string(16, "system_id"@),
        message_id_end(body) == Scan::of(body).after_string(65, "message_id"@),
        bind_resp(body, status).system_id == Scan::of(body).string(),
        bind_resp(body, status).command_status == status,
        bind_resp_end(body).rest.len() > 0 ==> bind_resp(body, status).sc_interface_version
            == bind_resp_end(body).rest[0],
        bind_resp_end(body).rest.len() == 0 ==> bind_resp(body, status).sc_interface_version == 52,
        id == 0x80000001 ==> (bind_resp_end(body).ok() ==> body_message(id, status, body, version) == Ok::<
            Message,
            Seq<char>,
        >(Message::BindReceiverResp(bind_resp(body, status)))) && (bind_resp_end(body).fault matches Some(f) ==> body_message(id, status, body, version)
            == Err::<Message, Seq<char>>(fault_text(f))),
        id == 0x80000002 ==> (bind_resp_end(body).ok() ==> body_message(id, status, body, version) == Ok::<
            Message,
            Seq<char>,
        >(Message::BindTransmitterResp(bind_resp(body, status)))) && (bind_resp_end(body).fault matches Some(f) ==> body_message(id, status, body, version)
            == Err::<Message, Seq<char>>(fault_text(f))),
        id == 0x80000009 ==> (bind_resp_end(body).ok() ==> body_message(id, status, body, version) == Ok::<
            Message,
            Seq<char>,
        >(Message::BindTransceiverResp(bind_resp(body, status)))) && (bind_resp_end(body).fault matches Some(f) ==> body_message(id, status, body, version)
            == Err::<Message, Seq<char>>(fault_text(f))),
        id == 0x80000004 ==> (message_id_end(body).ok() ==> body_message(id, status, body, version) == Ok::<
            Message,
            Seq<char>,
        >(Message::SubmitSmResp { message_id: Scan::of(body).string(), command_status: status })) && (message_id_end(body).fault matches Some(f) ==> body_message(id, status, body, version)
            == Err::<Message, Seq<char>>(fault_text(f))),
        id == 0x80000005 ==> (message_id_end(body).ok() ==> body_message(id, status, body, version) == Ok::<
            Message,
            Seq<char>,
        >(Message::DeliverSmResp { message_id: Scan::of(body).string() })) && (message_id_end(body).fault matches Some(f) ==> body_message(id, status, body, version)
            == Err::<Message, Seq<char>>(fault_text(f))),
        id == 0x80000003 && body.len() == 0 ==> body_message(id, status, body, version) == Err::<Message, Seq<char>>(
            "QuerySmResp body too short"@,
        ),
        id == 0x80000003 && body.len() > 0 ==> (QueryRespFields::end(body, 20).ok() ==> body_message(id, status, body, version) == Ok::<
            Message,
            Seq<char>,
        >(Message::QuerySmResp(QueryRespFields::read(body)))) && (QueryRespFields::end(body, 20).fault matches Some(f) ==> body_message(id, status, body, version)
            == Err::<Message, Seq<char>>(fault_text(f))),
{
}

/// A PDU that has no header, or whose length is out of bounds, is told by its error; without a
/// version, 3.4 counts.
pub proof fn law_unreadable_pdus(s: Seq<u8>, version: Option<SmppVersion>)
    ensures
        s.len() < 16 ==> decoded(s, version) == Err::<Message, Seq<char>>(
            "buffer too short for SMPP header"@,
        ),
        s.len() >= 16 ==> {
            let length = s[0] * 16777216 + s[1] * 65536 + s[2] * 256 + s[3];
            length < 16 || length > 100000 ==> decoded(s, version) == Err::<Message, Seq<char>>(
                "invalid SMPP length: "@ + text::decimal_chars(length as nat),
            )
        },
        version is None ==> version_or_default(version) == SmppVersion::V34,
        version matches Some(v) ==> version_or_default(version) == v,
{
    wire::law_high_byte_first(0, 0, s);
}

} // verus!
