//! The commands of SMPP.

use vstd::prelude::*;

verus! {

/// What a PDU is.
#[allow(non_camel_case_types)]
#[derive(Debug, Clone, Copy, PartialEq, Eq, Hash, Structural)]
pub enum CommandId {
    GENERIC_NACK,
    BIND_RECEIVER,
    BIND_RECEIVER_RESP,
    BIND_TRANSMITTER,
    BIND_TRANSMITTER_RESP,
    QUERY_SM,
    QUERY_SM_RESP,
    SUBMIT_SM,
    SUBMIT_SM_RESP,
    DELIVER_SM,
    DELIVER_SM_RESP,
    UNBIND,
    UNBIND_RESP,
    CANCEL_SM,
    CANCEL_SM_RESP,
    BIND_TRANSCEIVER,
    BIND_TRANSCEIVER_RESP,
    ENQUIRE_LINK,
    ENQUIRE_LINK_RESP,
    DATA_SM,
    DATA_SM_RESP,
}

impl CommandId {
    /// The number on the wire.
    pub open spec fn code(self) -> u32 {
        match self {
            CommandId::GENERIC_NACK => 0x80000000,
            CommandId::BIND_RECEIVER => 0x00000001,
            CommandId::BIND_RECEIVER_RESP => 0x80000001,
            CommandId::BIND_TRANSMITTER => 0x00000002,
            CommandId::BIND_TRANSMITTER_RESP => 0x80000002,
            CommandId::QUERY_SM => 0x00000003,
            CommandId::QUERY_SM_RESP => 0x80000003,
            CommandId::SUBMIT_SM => 0x00000004,
            CommandId::SUBMIT_SM_RESP => 0x80000004,
            CommandId::DELIVER_SM => 0x00000005,
            CommandId::DELIVER_SM_RESP => 0x80000005,
            CommandId::UNBIND => 0x00000006,
            CommandId::UNBIND_RESP => 0x80000006,
            CommandId::CANCEL_SM => 0x00000008,
            CommandId::CANCEL_SM_RESP => 0x80000008,
            CommandId::BIND_TRANSCEIVER => 0x00000009,
            CommandId::BIND_TRANSCEIVER_RESP => 0x80000009,
            CommandId::ENQUIRE_LINK => 0x00000015,
            CommandId::ENQUIRE_LINK_RESP => 0x80000015,
            CommandId::DATA_SM => 0x00000103,
            CommandId::DATA_SM_RESP => 0x80000103,
        }
    }

    /// What a number on the wire means.
    pub open spec fn of_code(code: u32) -> Option<CommandId> {
        match code {
            0x80000000 => Some(CommandId::GENERIC_NACK),
            0x00000001 => Some(CommandId::BIND_RECEIVER),
            0x80000001 => Some(CommandId::BIND_RECEIVER_RESP),
            0x00000002 => Some(CommandId::BIND_TRANSMITTER),
            0x80000002 => Some(CommandId::BIND_TRANSMITTER_RESP),
            0x00000003 => Some(CommandId::QUERY_SM),
            0x80000003 => Some(CommandId::QUERY_SM_RESP),
            0x00000004 => Some(CommandId::SUBMIT_SM),
            0x80000004 => Some(CommandId::SUBMIT_SM_RESP),
            0x00000005 => Some(CommandId::DELIVER_SM),
            0x80000005 => Some(CommandId::DELIVER_SM_RESP),
            0x00000006 => Some(CommandId::UNBIND),
            0x80000006 => Some(CommandId::UNBIND_RESP),
            0x00000008 => Some(CommandId::CANCEL_SM),
            0x80000008 => Some(CommandId::CANCEL_SM_RESP),
            0x00000009 => Some(CommandId::BIND_TRANSCEIVER),
            0x80000009 => Some(CommandId::BIND_TRANSCEIVER_RESP),
            0x00000015 => Some(CommandId::ENQUIRE_LINK),
            0x80000015 => Some(CommandId::ENQUIRE_LINK_RESP),
            0x00000103 => Some(CommandId::DATA_SM),
            0x80000103 => Some(CommandId::DATA_SM_RESP),
            _ => None,
        }
    }

    /// The number on the wire.
    pub fn as_u32(&self) -> (code: u32)
        ensures
            code == self.code(),
    {
        match self {
            CommandId::GENERIC_NACK => 0x80000000,
            CommandId::BIND_RECEIVER => 0x00000001,
            CommandId::BIND_RECEIVER_RESP => 0x80000001,
            CommandId::BIND_TRANSMITTER => 0x00000002,
            CommandId::BIND_TRANSMITTER_RESP => 0x80000002,
            CommandId::QUERY_SM => 0x00000003,
            CommandId::QUERY_SM_RESP => 0x80000003,
            CommandId::SUBMIT_SM => 0x00000004,
            CommandId::SUBMIT_SM_RESP => 0x80000004,
            CommandId::DELIVER_SM => 0x00000005,
            CommandId::DELIVER_SM_RESP => 0x80000005,
            CommandId::UNBIND => 0x00000006,
            CommandId::UNBIND_RESP => 0x80000006,
            CommandId::CANCEL_SM => 0x00000008,
            CommandId::CANCEL_SM_RESP => 0x80000008,
            CommandId::BIND_TRANSCEIVER => 0x00000009,
            CommandId::BIND_TRANSCEIVER_RESP => 0x80000009,
            CommandId::ENQUIRE_LINK => 0x00000015,
            CommandId::ENQUIRE_LINK_RESP => 0x80000015,
            CommandId::DATA_SM => 0x00000103,
            CommandId::DATA_SM_RESP => 0x80000103,
        }
    }

    /// What a number on the wire means, if it means anything.
    pub fn from_u32(code: u32) -> (value: Option<CommandId>)
        ensures
            value == Self::of_code(code),
    {
        match code {
            0x80000000 => Some(CommandId::GENERIC_NACK),
            0x00000001 => Some(CommandId::BIND_RECEIVER),
            0x80000001 => Some(CommandId::BIND_RECEIVER_RESP),
            0x00000002 => Some(CommandId::BIND_TRANSMITTER),
            0x80000002 => Some(CommandId::BIND_TRANSMITTER_RESP),
            0x00000003 => Some(CommandId::QUERY_SM),
            0x80000003 => Some(CommandId::QUERY_SM_RESP),
            0x00000004 => Some(CommandId::SUBMIT_SM),
            0x80000004 => Some(CommandId::SUBMIT_SM_RESP),
            0x00000005 => Some(CommandId::DELIVER_SM),
            0x80000005 => Some(CommandId::DELIVER_SM_RESP),
            0x00000006 => Some(CommandId::UNBIND),
            0x80000006 => Some(CommandId::UNBIND_RESP),
            0x00000008 => Some(CommandId::CANCEL_SM),
            0x80000008 => Some(CommandId::CANCEL_SM_RESP),
            0x00000009 => Some(CommandId::BIND_TRANSCEIVER),
            0x80000009 => Some(CommandId::BIND_TRANSCEIVER_RESP),
            0x00000015 => Some(CommandId::ENQUIRE_LINK),
            0x80000015 => Some(CommandId::ENQUIRE_LINK_RESP),
            0x00000103 => Some(CommandId::DATA_SM),
            0x80000103 => Some(CommandId::DATA_SM_RESP),
            _ => None,
        }
    }

    /// Whether it is the answer to a request: the high bit is set.
    pub open spec fn answers(self) -> bool {
        self.code() >= 0x8000_0000
    }

    /// Whether it is the answer to a request.
    pub fn is_response(&self) -> (yes: bool)
        ensures
            yes == self.answers(),
    {
        self.as_u32() >= 0x8000_0000
    }

    /// The name.
    pub open spec fn name(self) -> Seq<char> {
        match self {
            CommandId::GENERIC_NACK => "GENERIC_NACK"@,
            CommandId::BIND_RECEIVER => "BIND_RECEIVER"@,
            CommandId::BIND_RECEIVER_RESP => "BIND_RECEIVER_RESP"@,
            CommandId::BIND_TRANSMITTER => "BIND_TRANSMITTER"@,
            CommandId::BIND_TRANSMITTER_RESP => "BIND_TRANSMITTER_RESP"@,
            CommandId::QUERY_SM => "QUERY_SM"@,
            CommandId::QUERY_SM_RESP => "QUERY_SM_RESP"@,
            CommandId::SUBMIT_SM => "SUBMIT_SM"@,
            CommandId::SUBMIT_SM_RESP => "SUBMIT_SM_RESP"@,
            CommandId::DELIVER_SM => "DELIVER_SM"@,
            CommandId::DELIVER_SM_RESP => "DELIVER_SM_RESP"@,
            CommandId::UNBIND => "UNBIND"@,
            CommandId::UNBIND_RESP => "UNBIND_RESP"@,
            CommandId::CANCEL_SM => "CANCEL_SM"@,
            CommandId::CANCEL_SM_RESP => "CANCEL_SM_RESP"@,
            CommandId::BIND_TRANSCEIVER => "BIND_TRANSCEIVER"@,
            CommandId::BIND_TRANSCEIVER_RESP => "BIND_TRANSCEIVER_RESP"@,
            CommandId::ENQUIRE_LINK => "ENQUIRE_LINK"@,
            CommandId::ENQUIRE_LINK_RESP => "ENQUIRE_LINK_RESP"@,
            CommandId::DATA_SM => "DATA_SM"@,
            CommandId::DATA_SM_RESP => "DATA_SM_RESP"@,
        }
    }

    /// The name.
    pub fn as_str(&self) -> (name: &'static str)
        ensures
            name@ == self.name(),
    {
        match self {
            CommandId::GENERIC_NACK => "GENERIC_NACK",
            CommandId::BIND_RECEIVER => "BIND_RECEIVER",
            CommandId::BIND_RECEIVER_RESP => "BIND_RECEIVER_RESP",
            CommandId::BIND_TRANSMITTER => "BIND_TRANSMITTER",
            CommandId::BIND_TRANSMITTER_RESP => "BIND_TRANSMITTER_RESP",
            CommandId::QUERY_SM => "QUERY_SM",
            CommandId::QUERY_SM_RESP => "QUERY_SM_RESP",
            CommandId::SUBMIT_SM => "SUBMIT_SM",
            CommandId::SUBMIT_SM_RESP => "SUBMIT_SM_RESP",
            CommandId::DELIVER_SM => "DELIVER_SM",
            CommandId::DELIVER_SM_RESP => "DELIVER_SM_RESP",
            CommandId::UNBIND => "UNBIND",
            CommandId::UNBIND_RESP => "UNBIND_RESP",
            CommandId::CANCEL_SM => "CANCEL_SM",
            CommandId::CANCEL_SM_RESP => "CANCEL_SM_RESP",
            CommandId::BIND_TRANSCEIVER => "BIND_TRANSCEIVER",
            CommandId::BIND_TRANSCEIVER_RESP => "BIND_TRANSCEIVER_RESP",
            CommandId::ENQUIRE_LINK => "ENQUIRE_LINK",
            CommandId::ENQUIRE_LINK_RESP => "ENQUIRE_LINK_RESP",
            CommandId::DATA_SM => "DATA_SM",
            CommandId::DATA_SM_RESP => "DATA_SM_RESP",
        }
    }
}

/// Numbers and their meanings go one to one.
pub proof fn law_command_id_codes(value: CommandId, code: u32)
    ensures
        CommandId::of_code(value.code()) == Some(value),
        CommandId::of_code(code) matches Some(other) ==> other.code() == code,
{
}

/// A response has the number of its request, with the high bit set.
pub proof fn law_response_codes()
    ensures
        CommandId::BIND_RECEIVER_RESP.code() == CommandId::BIND_RECEIVER.code() + 0x8000_0000,
        CommandId::BIND_TRANSMITTER_RESP.code() == CommandId::BIND_TRANSMITTER.code() + 0x8000_0000,
        CommandId::BIND_TRANSCEIVER_RESP.code() == CommandId::BIND_TRANSCEIVER.code() + 0x8000_0000,
        CommandId::QUERY_SM_RESP.code() == CommandId::QUERY_SM.code() + 0x8000_0000,
        CommandId::SUBMIT_SM_RESP.code() == CommandId::SUBMIT_SM.code() + 0x8000_0000,
        CommandId::DELIVER_SM_RESP.code() == CommandId::DELIVER_SM.code() + 0x8000_0000,
        CommandId::UNBIND_RESP.code() == CommandId::UNBIND.code() + 0x8000_0000,
        CommandId::CANCEL_SM_RESP.code() == CommandId::CANCEL_SM.code() + 0x8000_0000,
        CommandId::ENQUIRE_LINK_RESP.code() == CommandId::ENQUIRE_LINK.code() + 0x8000_0000,
        CommandId::DATA_SM_RESP.code() == CommandId::DATA_SM.code() + 0x8000_0000,
{
}

/// The number of every command, and what every number means. The response to a request has the
/// request's number with the high bit set.
pub proof fn law_command_numbers(code: u32)
    ensures
        CommandId::GENERIC_NACK.code() == 0x80000000,
        CommandId::BIND_RECEIVER.code() == 0x1,
        CommandId::BIND_RECEIVER_RESP.code() == 0x80000001,
        CommandId::BIND_TRANSMITTER.code() == 0x2,
        CommandId::BIND_TRANSMITTER_RESP.code() == 0x80000002,
        CommandId::QUERY_SM.code() == 0x3,
        CommandId::QUERY_SM_RESP.code() == 0x80000003,
        CommandId::SUBMIT_SM.code() == 0x4,
        CommandId::SUBMIT_SM_RESP.code() == 0x80000004,
        CommandId::DELIVER_SM.code() == 0x5,
        CommandId::DELIVER_SM_RESP.code() == 0x80000005,
        CommandId::UNBIND.code() == 0x6,
        CommandId::UNBIND_RESP.code() == 0x80000006,
        CommandId::CANCEL_SM.code() == 0x8,
        CommandId::CANCEL_SM_RESP.code() == 0x80000008,
        CommandId::BIND_TRANSCEIVER.code() == 0x9,
        CommandId::BIND_TRANSCEIVER_RESP.code() == 0x80000009,
        CommandId::ENQUIRE_LINK.code() == 0x15,
        CommandId::ENQUIRE_LINK_RESP.code() == 0x80000015,
        CommandId::DATA_SM.code() == 0x103,
        CommandId::DATA_SM_RESP.code() == 0x80000103,
        CommandId::of_code(code) matches Some(id) ==> id.code() == code,
        CommandId::of_code(code) is None <==> !(code == 0x80000000 || code % 0x80000000 == 0x1 || code % 0x80000000 == 0x2 || code % 0x80000000 == 0x3 || code % 0x80000000 == 0x4 || code % 0x80000000 == 0x5 || code % 0x80000000 == 0x6 || code % 0x80000000 == 0x8 || code % 0x80000000 == 0x9 || code % 0x80000000 == 0x15 || code % 0x80000000 == 0x103),
{
}

/// The names of the commands, and which of them are answers: those with the highest bit.
pub proof fn law_command_names(id: CommandId)
    ensures
        CommandId::GENERIC_NACK.name() == "GENERIC_NACK"@,
        CommandId::BIND_RECEIVER.name() == "BIND_RECEIVER"@,
        CommandId::BIND_RECEIVER_RESP.name() == "BIND_RECEIVER_RESP"@,
        CommandId::BIND_TRANSMITTER.name() == "BIND_TRANSMITTER"@,
        CommandId::BIND_TRANSMITTER_RESP.name() == "BIND_TRANSMITTER_RESP"@,
        CommandId::QUERY_SM.name() == "QUERY_SM"@,
        CommandId::QUERY_SM_RESP.name() == "QUERY_SM_RESP"@,
        CommandId::SUBMIT_SM.name() == "SUBMIT_SM"@,
        CommandId::SUBMIT_SM_RESP.name() == "SUBMIT_SM_RESP"@,
        CommandId::DELIVER_SM.name() == "DELIVER_SM"@,
        CommandId::DELIVER_SM_RESP.name() == "DELIVER_SM_RESP"@,
        CommandId::UNBIND.name() == "UNBIND"@,
        CommandId::UNBIND_RESP.name() == "UNBIND_RESP"@,
        CommandId::CANCEL_SM.name() == "CANCEL_SM"@,
        CommandId::CANCEL_SM_RESP.name() == "CANCEL_SM_RESP"@,
        CommandId::BIND_TRANSCEIVER.name() == "BIND_TRANSCEIVER"@,
        CommandId::BIND_TRANSCEIVER_RESP.name() == "BIND_TRANSCEIVER_RESP"@,
        CommandId::ENQUIRE_LINK.name() == "ENQUIRE_LINK"@,
        CommandId::ENQUIRE_LINK_RESP.name() == "ENQUIRE_LINK_RESP"@,
        CommandId::DATA_SM.name() == "DATA_SM"@,
        CommandId::DATA_SM_RESP.name() == "DATA_SM_RESP"@,
        id.answers() <==> id.code() >= 0x80000000,
{
}

} // verus!
