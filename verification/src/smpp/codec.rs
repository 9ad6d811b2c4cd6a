//! Reading and writing PDUs: the header, strings, errors, and what every PDU can do.

use crate::cstring;
use crate::cstring::CstringError;
use crate::error::{io_error_text, RsmsError};
use crate::smpp::datatypes::command_id;
use crate::smpp::datatypes::command_id::CommandId;
use crate::smpp::datatypes::command_status;
use crate::smpp::datatypes::command_status::CommandStatus;
use crate::smpp::grammar::{Fault, Scan, Written};
use crate::text;
use crate::wire;
use bytes::{Bytes, BytesMut};
use std::io::Cursor;
use vstd::prelude::*;
use vstd::slice::slice_subrange;
use vstd::std_specs::convert::FromSpecImpl;
use vstd::string::*;
use vstd::utf8::*;

verus! {

/// The longest PDU that a header may announce.
pub const MAX_PDU_SIZE: u32 = 65536;

/// The header of a PDU: 16 bytes, with the sequence number at offset 12.
#[derive(Debug, Clone, Copy, PartialEq, Eq, Structural)]
pub struct PduHeader {
    /// The length of the whole PDU, header included.
    pub command_length: u32,
    /// What the PDU is.
    pub command_id: CommandId,
    /// The result: `ESME_ROK` in a request.
    pub command_status: CommandStatus,
    /// Ties a response to its request. 0 and 0xFFFFFFFF are reserved.
    pub sequence_number: u32,
}

/// Why a PDU could not be read or written.
#[derive(Debug)]
pub enum CodecError {
    Incomplete,
    InvalidCommandId(u32),
    InvalidCommandStatus(u32),
    InvalidPduLength { length: u32, min: u32, max: u32 },
    InvalidRequestStatus { command_id: CommandId, command_status: CommandStatus },
    ReservedSequenceNumber(u32),
    UnknownCommand(CommandId),
    FieldValidation { field: &'static str, reason: String },
    TlvError(String),
    Io(std::io::Error),
}

/// The reason given for a string that is too long for its field.
pub open spec fn too_long_reason(max_len: nat) -> Seq<char> {
    "exceeds maximum length of "@ + text::decimal_chars((max_len - 1) as nat) + " bytes"@
}

impl CodecError {
    /// A field that was refused for a reason.
    pub open spec fn is_field(self, name: Seq<char>, why: Seq<char>) -> bool {
        self matches CodecError::FieldValidation { field, reason } && field@ == name && reason@
            == why
    }

    /// The error for a field that could not be read.
    pub open spec fn is_fault(self, fault: Fault) -> bool {
        match fault {
            Fault::NoByte => self is Incomplete,
            Fault::Cut => self is Incomplete,
            Fault::TooLong { field, max_len } => self.is_field(field, too_long_reason(max_len)),
        }
    }

    /// The result code that tells the peer of an error.
    pub open spec fn status(self) -> CommandStatus {
        match self {
            CodecError::InvalidPduLength { .. } => CommandStatus::ESME_RINVMSGLEN,
            CodecError::InvalidCommandId(_) => CommandStatus::ESME_RINVCMDID,
            CodecError::UnknownCommand(_) => CommandStatus::ESME_RINVCMDID,
            CodecError::FieldValidation { field, reason } => if text::contains_text(
                field@,
                "addr"@,
            ) || text::contains_text(field@, "destination"@) {
                CommandStatus::ESME_RINVDSTADR
            } else if text::contains_text(reason@, "too long"@) {
                CommandStatus::ESME_RINVMSGLEN
            } else {
                CommandStatus::ESME_RSYSERR
            },
            _ => CommandStatus::ESME_RSYSERR,
        }
    }

    /// The result code that tells the peer of the error.
    pub fn to_command_status(&self) -> (status: CommandStatus)
        ensures
            status == self.status(),
    {
        match self {
            CodecError::InvalidPduLength { .. } => CommandStatus::ESME_RINVMSGLEN,
            CodecError::InvalidCommandId(_) => CommandStatus::ESME_RINVCMDID,
            CodecError::InvalidCommandStatus(_) => CommandStatus::ESME_RSYSERR,
            CodecError::InvalidRequestStatus { .. } => CommandStatus::ESME_RSYSERR,
            CodecError::ReservedSequenceNumber(_) => CommandStatus::ESME_RSYSERR,
            CodecError::UnknownCommand(_) => CommandStatus::ESME_RINVCMDID,
            CodecError::FieldValidation { field, reason } => {
                if text::contains(field, "addr") || text::contains(field, "destination") {
                    CommandStatus::ESME_RINVDSTADR
                } else if text::contains(reason.as_str(), "too long") {
                    CommandStatus::ESME_RINVMSGLEN
                } else {
                    CommandStatus::ESME_RSYSERR
                }
            },
            CodecError::TlvError(_) => CommandStatus::ESME_RSYSERR,
            _ => CommandStatus::ESME_RSYSERR,
        }
    }

    /// The text of the error, except for what std says of an I/O error.
    pub open spec fn text(self) -> Seq<char> {
        match self {
            CodecError::Incomplete => "Incomplete PDU: need more data"@,
            CodecError::InvalidCommandId(id) => "Invalid command_id: "@ + text::hex_chars(
                id as nat,
            ),
            CodecError::InvalidCommandStatus(status) => "Invalid command_status: "@
                + text::hex_chars(status as nat),
            CodecError::InvalidPduLength { length, min, max } => "Invalid PDU length: "@
                + text::decimal_chars(length as nat) + ", must be "@ + text::decimal_chars(
                min as nat,
            ) + "-"@ + text::decimal_chars(max as nat),
            CodecError::InvalidRequestStatus { command_id, command_status } => "Request PDU "@
                + command_id.name() + " has non-zero status: "@ + command_status.name(),
            CodecError::ReservedSequenceNumber(number) => "Reserved sequence number: "@
                + text::decimal_chars(number as nat) + " (0 and 0xFFFFFFFF are reserved)"@,
            CodecError::UnknownCommand(id) => "Unknown command ID: "@ + id.name(),
            CodecError::FieldValidation { field, reason } => "Field '"@ + field@
                + "' validation failed: "@ + reason@,
            CodecError::TlvError(reason) => "TLV parsing error: "@ + reason@,
            CodecError::Io(_) => "IO error: "@,
        }
    }

    /// Whether a text is the error's. What follows in the text of an I/O error is left to std.
    pub open spec fn has_text(self, s: Seq<char>) -> bool {
        if self is Io {
            self.text().is_prefix_of(s)
        } else {
            s == self.text()
        }
    }

    /// The text of the error.
    pub fn to_text(&self) -> (s: String)
        ensures
            self.has_text(s@),
    {
        match self {
            CodecError::Incomplete => "Incomplete PDU: need more data".to_owned(),
            CodecError::InvalidCommandId(id) => {
                let mut s = "Invalid command_id: ".to_owned();
                s.append(text::hex(*id as u64).as_str());
                s
            },
            CodecError::InvalidCommandStatus(status) => {
                let mut s = "Invalid command_status: ".to_owned();
                s.append(text::hex(*status as u64).as_str());
                s
            },
            CodecError::InvalidPduLength { length, min, max } => {
                let mut s = "Invalid PDU length: ".to_owned();
                s.append(text::decimal(*length as u64).as_str());
                s.append(", must be ");
                s.append(text::decimal(*min as u64).as_str());
                s.append("-");
                s.append(text::decimal(*max as u64).as_str());
                s
            },
            CodecError::InvalidRequestStatus { command_id, command_status } => {
                let mut s = "Request PDU ".to_owned();
                s.append(command_id.as_str());
                s.append(" has non-zero status: ");
                s.append(command_status.as_str());
                s
            },
            CodecError::ReservedSequenceNumber(number) => {
                let mut s = "Reserved sequence number: ".to_owned();
                s.append(text::decimal(*number as u64).as_str());
                s.append(" (0 and 0xFFFFFFFF are reserved)");
                s
            },
            CodecError::UnknownCommand(id) => {
                let mut s = "Unknown command ID: ".to_owned();
                s.append(id.as_str());
                s
            },
            CodecError::FieldValidation { field, reason } => {
                let mut s = "Field '".to_owned();
                s.append(field);
                s.append("' validation failed: ");
                s.append(reason.as_str());
                s
            },
            CodecError::TlvError(reason) => {
                let mut s = "TLV parsing error: ".to_owned();
                s.append(reason.as_str());
                s
            },
            CodecError::Io(e) => {
                let mut s = "IO error: ".to_owned();
                s.append(io_error_text(e).as_str());
                s
            },
        }
    }

    /// The error for a string that could not be read or written.
    pub fn from_cstring(e: CstringError) -> (res: CodecError)
        requires
            e matches CstringError::FieldTooLong { field, max_len } ==> max_len > 0,
        ensures
            match e {
                CstringError::Incomplete => res is Incomplete,
                CstringError::FieldTooLong { field, max_len } => res.is_field(
                    field@,
                    too_long_reason(max_len as nat),
                ),
            },
    {
        match e {
            CstringError::Incomplete => CodecError::Incomplete,
            CstringError::FieldTooLong { field, max_len } => {
                let mut reason = "exceeds maximum length of ".to_owned();
                reason.append(text::decimal((max_len - 1) as u64).as_str());
                reason.append(" bytes");
                CodecError::FieldValidation { field, reason }
            },
        }
    }

}

impl From<std::io::Error> for CodecError {
    fn from(e: std::io::Error) -> (error: Self) {
        CodecError::Io(e)
    }
}

impl FromSpecImpl<std::io::Error> for CodecError {
    open spec fn obeys_from_spec() -> bool {
        true
    }

    open spec fn from_spec(e: std::io::Error) -> CodecError {
        CodecError::Io(e)
    }
}

impl From<CodecError> for RsmsError {
    fn from(e: CodecError) -> (res: Self)
        ensures
            res matches RsmsError::Codec(s) && e.has_text(s@),
    {
        RsmsError::Codec(e.to_text())
    }
}

impl FromSpecImpl<CodecError> for RsmsError {
    open spec fn obeys_from_spec() -> bool {
        false
    }

    open spec fn from_spec(e: CodecError) -> RsmsError {
        arbitrary()
    }
}

/// Reads a string of at most `max_len` bytes, terminator included.
pub fn decode_cstring(
    buf: &mut Cursor<&[u8]>,
    max_len: usize,
    field_name: &'static str,
) -> (res: Result<String, CodecError>)
    requires
        max_len > 0,
    ensures
        ({
            let start = Scan::of(wire::cursor_rest(*old(buf)));
            let end = start.after_string(max_len as nat, field_name@);
            &&& wire::cursor_rest(*final(buf)) == end.rest
            &&& res is Ok <==> end.ok()
            &&& res matches Ok(s) ==> s@ == start.string()
            &&& res matches Err(e) ==> e.is_fault(end.fault->0)
        }),
{
    match cstring::decode_cstring(buf, max_len, field_name) {
        Ok(s) => Ok(s),
        Err(e) => Err(CodecError::from_cstring(e)),
    }
}

/// Appends a string and its terminator if they fit into `max_len` bytes.
pub fn encode_cstring(buf: &mut BytesMut, value: &str, max_len: usize) -> (res: Result<
    (),
    CodecError,
>)
    requires
        max_len > 0,
    ensures
        ({
            let written = Written::new().string(value@, max_len);
            &&& wire::buffer_bytes(*final(buf)) == wire::buffer_bytes(*old(buf)) + written.bytes
            &&& res is Ok <==> written.ok()
            &&& res matches Err(e) ==> e.is_field("cstring"@, too_long_reason(max_len as nat))
        }),
{
    let ghost before = wire::buffer_bytes(*buf);
    let ghost written = Written::new().string(value@, max_len);
    let res = cstring::encode_cstring(buf, value, max_len);
    proof {
        if res is Ok {
            assert(written.bytes =~= cstring::cstring_bytes(value@));
        } else {
            assert(before + written.bytes =~= before);
        }
    }
    match res {
        Ok(_) => Ok(()),
        Err(e) => Err(CodecError::from_cstring(e)),
    }
}

impl PduHeader {
    /// The length of a header.
    pub const SIZE: usize = 16;

    /// The header on the wire.
    pub open spec fn bytes(self) -> Seq<u8> {
        wire::be32_bytes(self.command_length) + wire::be32_bytes(self.command_id.code())
            + wire::be32_bytes(self.command_status.code()) + wire::be32_bytes(self.sequence_number)
    }

    /// The four numbers at the start of a PDU: length, command, status and sequence number.
    pub open spec fn numbers(s: Seq<u8>) -> (u32, u32, u32, u32) {
        (wire::be32(s), wire::be32(s.skip(4)), wire::be32(s.skip(8)), wire::be32(s.skip(12)))
    }

    /// What reading a header of at least 16 bytes gives.
    pub open spec fn read(s: Seq<u8>, res: Result<PduHeader, CodecError>) -> bool {
        let (length, id, status, sequence) = Self::numbers(s);
        if CommandId::of_code(id) is None {
            res matches Err(e) && e == CodecError::InvalidCommandId(id)
        } else if CommandStatus::of_code(status) is None {
            res matches Err(e) && e == CodecError::InvalidCommandStatus(status)
        } else {
            let command_id = CommandId::of_code(id)->0;
            let command_status = CommandStatus::of_code(status)->0;
            if length < 16 || length > MAX_PDU_SIZE {
                res matches Err(e) && e == (CodecError::InvalidPduLength {
                    length,
                    min: 16,
                    max: MAX_PDU_SIZE,
                })
            } else if !command_id.answers() && command_status != CommandStatus::ESME_ROK {
                res matches Err(e) && e == (CodecError::InvalidRequestStatus {
                    command_id,
                    command_status,
                })
            } else if sequence == 0 || sequence == 0xFFFF_FFFF {
                res matches Err(e) && e == CodecError::ReservedSequenceNumber(sequence)
            } else {
                res matches Ok(header) && header == (PduHeader {
                    command_length: length,
                    command_id,
                    command_status,
                    sequence_number: sequence,
                })
            }
        }
    }

    /// How far reading a header goes: all 16 bytes, unless the command or the status is
    /// unknown.
    pub open spec fn consumed(s: Seq<u8>) -> int {
        let (length, id, status, sequence) = Self::numbers(s);
        if s.len() < 16 {
            0
        } else if CommandId::of_code(id) is None {
            8
        } else if CommandStatus::of_code(status) is None {
            12
        } else {
            16
        }
    }

    /// Reads a header and checks that it is one that a peer may send.
    pub fn decode(buf: &mut Cursor<&[u8]>) -> (res: Result<Self, CodecError>)
        ensures
            wire::cursor_rest(*old(buf)).len() < 16 ==> res matches Err(CodecError::Incomplete),
            wire::cursor_rest(*old(buf)).len() >= 16 ==> Self::read(
                wire::cursor_rest(*old(buf)),
                res,
            ),
            wire::cursor_rest(*final(buf)) == wire::cursor_rest(*old(buf)).skip(
                Self::consumed(wire::cursor_rest(*old(buf))),
            ),
    {
        let ghost all = wire::cursor_rest(*buf);
        if wire::remaining(buf) < 16 {
            assert(all.skip(0) =~= all);
            return Err(CodecError::Incomplete);
        }
        let command_length: u32 = match wire::try_get_u32(buf) {
            Ok(v) => v,
            Err(_) => {
                return Err(CodecError::Incomplete);
            },
        };
        let command_id_raw: u32 = match wire::try_get_u32(buf) {
            Ok(v) => v,
            Err(_) => {
                return Err(CodecError::Incomplete);
            },
        };
        proof {
            assert(all.skip(4).skip(4) =~= all.skip(8));
        }
        let command_id = match CommandId::from_u32(command_id_raw) {
            Some(id) => id,
            None => {
                return Err(CodecError::InvalidCommandId(command_id_raw));
            },
        };
        let command_status_raw: u32 = match wire::try_get_u32(buf) {
            Ok(v) => v,
            Err(_) => {
                return Err(CodecError::Incomplete);
            },
        };
        proof {
            assert(all.skip(8).skip(4) =~= all.skip(12));
        }
        let command_status = match CommandStatus::from_u32(command_status_raw) {
            Some(status) => status,
            None => {
                return Err(CodecError::InvalidCommandStatus(command_status_raw));
            },
        };
        let sequence_number: u32 = match wire::try_get_u32(buf) {
            Ok(v) => v,
            Err(_) => {
                return Err(CodecError::Incomplete);
            },
        };
        proof {
            assert(all.skip(12).skip(4) =~= all.skip(16));
        }
        if command_length < 16 {
            return Err(
                CodecError::InvalidPduLength { length: command_length, min: 16, max: MAX_PDU_SIZE },
            );
        }
        if command_length > MAX_PDU_SIZE {
            return Err(
                CodecError::InvalidPduLength { length: command_length, min: 16, max: MAX_PDU_SIZE },
            );
        }
        if !command_id.is_response() && command_status != CommandStatus::ESME_ROK {
            return Err(CodecError::InvalidRequestStatus { command_id, command_status });
        }
        if sequence_number == 0 || sequence_number == 0xFFFF_FFFF {
            return Err(CodecError::ReservedSequenceNumber(sequence_number));
        }
        Ok(PduHeader { command_length, command_id, command_status, sequence_number })
    }

    /// Appends the header.
    pub fn encode(&self, buf: &mut BytesMut) -> (res: Result<(), CodecError>)
        ensures
            res is Ok,
            wire::buffer_bytes(*final(buf)) == wire::buffer_bytes(*old(buf)) + self.bytes(),
    {
        let ghost before = wire::buffer_bytes(*buf);
        wire::put_u32(buf, self.command_length);
        wire::put_u32(buf, self.command_id.as_u32());
        wire::put_u32(buf, self.command_status.as_u32());
        wire::put_u32(buf, self.sequence_number);
        assert(wire::buffer_bytes(*buf) =~= before + self.bytes());
        Ok(())
    }
}

/// Bytes with their own length in the first four, if there are that many.
pub open spec fn stamped(s: Seq<u8>) -> Seq<u8> {
    if s.len() >= 4 {
        wire::be32_bytes((s.len() % 0x1_0000_0000) as u32) + s.skip(4)
    } else {
        s
    }
}

/// The body of a PDU, or a part of it, that can be written.
///
/// The spec functions have bodies only so that ordinary Rust can implement the trait without
/// them; a verified implementation gives its own.
pub trait Encodable {
    /// What is written.
    open spec fn written(&self) -> Written {
        arbitrary()
    }

    /// How much room to set aside.
    open spec fn size(&self) -> nat {
        arbitrary()
    }

    /// Appends the body. A string that does not fit its field ends the writing; what was
    /// written before it stays.
    fn encode(&self, buf: &mut BytesMut) -> (res: Result<(), CodecError>)
        ensures
            wire::buffer_bytes(*final(buf)) == wire::buffer_bytes(*old(buf))
                + self.written().bytes,
            res is Ok <==> self.written().ok(),
            res matches Err(e) ==> e.is_field(
                "cstring"@,
                too_long_reason(self.written().fault->0 as nat),
            ),
    ;

    /// How much room to set aside for the body.
    fn encoded_size(&self) -> (size: usize)
        requires
            self.size() <= usize::MAX,
        ensures
            size == self.size(),
    ;

    /// The body by itself, with its length in the first four bytes.
    fn to_bytes(&self) -> (bytes: Bytes)
        requires
            self.written().ok(),
        ensures
            wire::shared_bytes(bytes) == stamped(self.written().bytes),
    {
        let mut buf = wire::new_buffer();
        let res = self.encode(&mut buf);
        assert(wire::buffer_bytes(buf) =~= self.written().bytes);
        let data = wire::buffer_slice(&buf);
        if data.len() >= 4 {
            let len: usize = data.len();
            let mut out: Vec<u8> = Vec::new();
            wire::push_be32(&mut out, (len as u64 % 0x1_0000_0000) as u32);
            out.extend_from_slice(slice_subrange(data, 4, len));
            assert(out@ =~= stamped(self.written().bytes));
            wire::share_vec(out)
        } else {
            wire::freeze(buf)
        }
    }
}

/// The body of a PDU that can be read.
///
/// The spec functions have bodies only so that ordinary Rust can implement the trait without
/// them; a verified implementation gives its own.
pub trait Decodable: Sized {
    /// The command of the PDU.
    open spec fn command() -> CommandId {
        arbitrary()
    }

    /// Where reading a body ends.
    open spec fn end(body: Seq<u8>) -> Scan {
        arbitrary()
    }

    /// Whether a value is the body that was read, under a header.
    open spec fn is_body(self, header: PduHeader, body: Seq<u8>) -> bool {
        arbitrary()
    }

    /// Reads the body behind a header, which must be of the right command. A body that ends
    /// where a byte is due cannot be read.
    fn decode(header: PduHeader, buf: &mut Cursor<&[u8]>) -> (res: Result<Self, CodecError>)
        requires
            header.command_id == Self::command() ==> Self::end(
                wire::cursor_rest(*old(buf)),
            ).fault != Some(Fault::NoByte),
        ensures
            header.command_id != Self::command() ==> (res matches Err(e) && e.is_field(
                "command_id"@,
                "mismatch"@,
            )) && wire::cursor_rest(*final(buf)) == wire::cursor_rest(*old(buf)),
            header.command_id == Self::command() ==> {
                let end = Self::end(wire::cursor_rest(*old(buf)));
                &&& res is Ok <==> end.ok()
                &&& res matches Ok(pdu) ==> pdu.is_body(header, wire::cursor_rest(*old(buf)))
                &&& res matches Err(e) ==> e.is_fault(end.fault->0)
                &&& wire::cursor_rest(*final(buf)) == end.rest
            },
    ;

    /// The command of the PDU.
    fn command_id() -> (id: CommandId)
        ensures
            id == Self::command(),
    ;
}

/// The error for a body of the wrong command.
pub(crate) fn command_mismatch() -> (e: CodecError)
    ensures
        e.is_field("command_id"@, "mismatch"@),
{
    CodecError::FieldValidation { field: "command_id", reason: "mismatch".to_owned() }
}

/// Why a field could not be read, with the missing byte told apart.
#[derive(Debug)]
pub(crate) enum ReadError {
    NoByte,
    Field(CodecError),
}

impl ReadError {
    /// The error for a field that could not be read.
    pub(crate) open spec fn is_fault(self, fault: Fault) -> bool {
        match self {
            ReadError::NoByte => fault == Fault::NoByte,
            ReadError::Field(e) => fault != Fault::NoByte && e.is_fault(fault),
        }
    }

    /// The error as one of the codec.
    pub(crate) fn into_codec(self) -> (e: CodecError)
        ensures
            forall|fault: Fault| #[trigger] self.is_fault(fault) ==> e.is_fault(fault),
    {
        match self {
            ReadError::NoByte => CodecError::Incomplete,
            ReadError::Field(e) => e,
        }
    }
}

/// Reads a byte.
pub(crate) fn read_byte(buf: &mut Cursor<&[u8]>) -> (res: Result<u8, ReadError>)
    ensures
        ({
            let start = Scan::of(wire::cursor_rest(*old(buf)));
            let end = start.after_byte();
            &&& wire::cursor_rest(*final(buf)) == end.rest
            &&& res is Ok <==> end.ok()
            &&& res matches Ok(b) ==> b == start.byte()
            &&& res matches Err(e) ==> e.is_fault(end.fault->0)
        }),
{
    match wire::try_get_u8(buf) {
        Ok(b) => Ok(b),
        Err(_) => Err(ReadError::NoByte),
    }
}

/// Reads a string.
pub(crate) fn read_string(
    buf: &mut Cursor<&[u8]>,
    max_len: usize,
    field_name: &'static str,
) -> (res: Result<String, ReadError>)
    requires
        max_len > 0,
    ensures
        ({
            let start = Scan::of(wire::cursor_rest(*old(buf)));
            let end = start.after_string(max_len as nat, field_name@);
            &&& wire::cursor_rest(*final(buf)) == end.rest
            &&& res is Ok <==> end.ok()
            &&& res matches Ok(s) ==> s@ == start.string()
            &&& res matches Err(e) ==> e.is_fault(end.fault->0)
        }),
{
    match decode_cstring(buf, max_len, field_name) {
        Ok(s) => Ok(s),
        Err(e) => Err(ReadError::Field(e)),
    }
}

/// Writes a string behind what has been written since `start`.
pub(crate) fn write_string(
    buf: &mut BytesMut,
    value: &str,
    max_len: usize,
    Ghost(start): Ghost<Seq<u8>>,
    Ghost(so_far): Ghost<Written>,
) -> (res: Result<(), CodecError>)
    requires
        max_len > 0,
        so_far.ok(),
        wire::buffer_bytes(*old(buf)) == start + so_far.bytes,
    ensures
        wire::buffer_bytes(*final(buf)) == start + so_far.string(value@, max_len).bytes,
        res is Ok <==> so_far.string(value@, max_len).ok(),
        so_far.string(value@, max_len).ok() || so_far.string(value@, max_len).fault == Some(
            max_len,
        ),
        res matches Err(e) ==> e.is_field("cstring"@, too_long_reason(max_len as nat)),
{
    let res = encode_cstring(buf, value, max_len);
    assert(wire::buffer_bytes(*buf) =~= start + so_far.string(value@, max_len).bytes);
    res
}

/// Writes a byte behind what has been written since `start`.
pub(crate) fn write_byte(
    buf: &mut BytesMut,
    value: u8,
    Ghost(start): Ghost<Seq<u8>>,
    Ghost(so_far): Ghost<Written>,
)
    requires
        so_far.ok(),
        wire::buffer_bytes(*old(buf)) == start + so_far.bytes,
    ensures
        wire::buffer_bytes(*final(buf)) == start + so_far.byte(value).bytes,
        so_far.byte(value).ok(),
{
    wire::put_u8(buf, value);
    assert(wire::buffer_bytes(*buf) =~= start + so_far.byte(value).bytes);
}

/// Writes bytes as they are behind what has been written since `start`.
pub(crate) fn write_raw(
    buf: &mut BytesMut,
    data: &[u8],
    Ghost(start): Ghost<Seq<u8>>,
    Ghost(so_far): Ghost<Written>,
)
    requires
        so_far.ok(),
        wire::buffer_bytes(*old(buf)) == start + so_far.bytes,
    ensures
        wire::buffer_bytes(*final(buf)) == start + so_far.raw(data@).bytes,
        so_far.raw(data@).ok(),
{
    wire::put_slice(buf, data);
    assert(wire::buffer_bytes(*buf) =~= start + so_far.raw(data@).bytes);
}

/// A header that a peer may send, written and read back, is the header, and what follows it is
/// left to read.
pub proof fn law_header_roundtrip(header: PduHeader, tail: Seq<u8>)
    requires
        16 <= header.command_length <= MAX_PDU_SIZE,
        header.command_id.answers() || header.command_status == CommandStatus::ESME_ROK,
        header.sequence_number != 0,
        header.sequence_number != 0xFFFF_FFFF,
    ensures
        (header.bytes() + tail).len() >= 16,
        PduHeader::read(header.bytes() + tail, Ok(header)),
        forall|res: Result<PduHeader, CodecError>| #[trigger]
            PduHeader::read(header.bytes() + tail, res) ==> res == Ok::<PduHeader, CodecError>(
                header,
            ),
        (header.bytes() + tail).skip(PduHeader::consumed(header.bytes() + tail)) == tail,
{
    let a = wire::be32_bytes(header.command_length);
    let b = wire::be32_bytes(header.command_id.code());
    let c = wire::be32_bytes(header.command_status.code());
    let d = wire::be32_bytes(header.sequence_number);
    let all = header.bytes() + tail;
    assert(all =~= a + (b + c + d + tail));
    wire::law_be32_roundtrip(header.command_length, b + c + d + tail);
    assert(all.skip(4) =~= b + (c + d + tail));
    wire::law_be32_roundtrip(header.command_id.code(), c + d + tail);
    assert(all.skip(8) =~= c + (d + tail));
    wire::law_be32_roundtrip(header.command_status.code(), d + tail);
    assert(all.skip(12) =~= d + tail);
    wire::law_be32_roundtrip(header.sequence_number, tail);
    assert(all.skip(16) =~= tail);
}

/// A header by its bytes: four numbers of four bytes each. It is taken if the command and the
/// status are known, the length is at least 16 and at most 65536, a request has status 0 and the
/// sequence number is neither 0 nor 0xFFFFFFFF; otherwise the first of these that fails is told.
pub proof fn law_header_by_bytes(s: Seq<u8>, res: Result<PduHeader, CodecError>)
    requires
        s.len() >= 16,
        PduHeader::read(s, res),
    ensures
        ({
            let length = s[0] * 16777216 + s[1] * 65536 + s[2] * 256 + s[3];
            let id = s[4] * 16777216 + s[5] * 65536 + s[6] * 256 + s[7];
            let status = s[8] * 16777216 + s[9] * 65536 + s[10] * 256 + s[11];
            let sequence = s[12] * 16777216 + s[13] * 65536 + s[14] * 256 + s[15];
            let known_id = CommandId::of_code(id as u32) is Some;
            let known = known_id && CommandStatus::of_code(status as u32) is Some;
            let sized = known && 16 <= length <= 65536;
            let plain = sized && (id >= 0x80000000 || status == 0);
            &&& res is Ok <==> plain && 0 < sequence < 0xFFFFFFFF
            &&& res matches Ok(header) ==> header.command_length == length
                && header.command_id.code() == id && header.command_status.code() == status
                && header.sequence_number == sequence
            &&& res matches Err(CodecError::InvalidCommandId(n)) ==> !known_id && n == id
            &&& !known_id ==> (res matches Err(CodecError::InvalidCommandId(n)) && n == id)
            &&& known_id && !known ==> (res matches Err(CodecError::InvalidCommandStatus(n)) && n
                == status)
            &&& known && !sized ==> (res matches Err(
                CodecError::InvalidPduLength { length: l, min, max },
            ) && l == length && min == 16 && max == 65536)
            &&& sized && !plain ==> (res matches Err(
                CodecError::InvalidRequestStatus { command_id, command_status },
            ) && command_id.code() == id && command_status.code() == status)
            &&& plain && !(0 < sequence < 0xFFFFFFFF) ==> (res matches Err(
                CodecError::ReservedSequenceNumber(n),
            ) && n == sequence)
            &&& PduHeader::consumed(s) == (if !known_id {
                8int
            } else if !known {
                12int
            } else {
                16int
            })
        }),
{
    wire::law_high_byte_first(0, 0, s);
    wire::law_high_byte_first(0, 0, s.skip(4));
    wire::law_high_byte_first(0, 0, s.skip(8));
    wire::law_high_byte_first(0, 0, s.skip(12));
    let (length, id, status, sequence) = PduHeader::numbers(s);
    command_id::law_command_numbers(id);
    command_status::law_command_status_codes(CommandStatus::ESME_ROK, status);
    if CommandStatus::of_code(status) is Some {
        command_status::law_command_status_codes(CommandStatus::of_code(status)->0, status);
        command_status::law_command_status_codes(
            CommandStatus::ESME_ROK,
            CommandStatus::ESME_ROK.code(),
        );
    }
}

/// A header on the wire, byte by byte.
pub proof fn law_header_on_wire(header: PduHeader)
    ensures
        ({
            let s = header.bytes();
            &&& s.len() == 16
            &&& s[0] * 16777216 + s[1] * 65536 + s[2] * 256 + s[3] == header.command_length
            &&& s[4] * 16777216 + s[5] * 65536 + s[6] * 256 + s[7] == header.command_id.code()
            &&& s[8] * 16777216 + s[9] * 65536 + s[10] * 256 + s[11] == header.command_status.code()
            &&& s[12] * 16777216 + s[13] * 65536 + s[14] * 256 + s[15] == header.sequence_number
        }),
{
    wire::law_high_byte_first(0, header.command_length, Seq::empty());
    wire::law_high_byte_first(0, header.command_id.code(), Seq::empty());
    wire::law_high_byte_first(0, header.command_status.code(), Seq::empty());
    wire::law_high_byte_first(0, header.sequence_number, Seq::empty());
}

/// A body by itself has its length in the first four bytes, and the rest as it is.
pub proof fn law_stamped(s: Seq<u8>)
    requires
        s.len() < 0x1_0000_0000,
    ensures
        s.len() < 4 ==> stamped(s) == s,
        s.len() >= 4 ==> {
            let t = stamped(s);
            &&& t.len() == s.len()
            &&& t[0] * 16777216 + t[1] * 65536 + t[2] * 256 + t[3] == s.len()
            &&& t.subrange(4, t.len() as int) == s.subrange(4, s.len() as int)
        },
{
    if s.len() >= 4 {
        wire::law_high_byte_first(0, s.len() as u32, Seq::empty());
        assert(stamped(s).subrange(4, s.len() as int) =~= s.subrange(4, s.len() as int));
    }
}

/// What a peer is told of an error, in numbers: 1 for a length, 3 for a command, 11 for an address,
/// 1 for another field that is too long, and 8 for everything else.
pub proof fn law_status_of_errors(e: CodecError)
    ensures
        e is InvalidPduLength ==> e.status().code() == 1,
        e is InvalidCommandId || e is UnknownCommand ==> e.status().code() == 3,
        e is Incomplete || e is InvalidCommandStatus || e is InvalidRequestStatus
            || e is ReservedSequenceNumber || e is TlvError || e is Io ==> e.status().code() == 8,
        e matches CodecError::FieldValidation { field, reason } ==> {
            let address = text::contains_text(field@, "addr"@) || text::contains_text(
                field@,
                "destination"@,
            );
            let long = text::contains_text(reason@, "too long"@);
            &&& address ==> e.status().code() == 11
            &&& !address && long ==> e.status().code() == 1
            &&& !address && !long ==> e.status().code() == 8
        },
{
}

/// The texts of the errors.
pub proof fn law_texts_of_errors(e: CodecError)
    ensures
        e is Incomplete ==> e.text() == "Incomplete PDU: need more data"@,
        e matches CodecError::InvalidCommandId(n) ==> e.text() == "Invalid command_id: "@
            + text::hex_chars(n as nat),
        e matches CodecError::InvalidCommandStatus(n) ==> e.text() == "Invalid command_status: "@
            + text::hex_chars(n as nat),
        e matches CodecError::InvalidPduLength { length, min, max } ==> e.text()
            == "Invalid PDU length: "@ + text::decimal_chars(length as nat) + ", must be "@
            + text::decimal_chars(min as nat) + "-"@ + text::decimal_chars(max as nat),
        e matches CodecError::ReservedSequenceNumber(n) ==> e.text()
            == "Reserved sequence number: "@ + text::decimal_chars(n as nat)
            + " (0 and 0xFFFFFFFF are reserved)"@,
        e matches CodecError::FieldValidation { field, reason } ==> e.text() == "Field '"@ + field@
            + "' validation failed: "@ + reason@,
        e matches CodecError::TlvError(reason) ==> e.text() == "TLV parsing error: "@ + reason@,
        e is Io ==> e.text() == "IO error: "@,
        forall|max_len: nat|
            max_len > 0 ==> #[trigger] too_long_reason(max_len) == "exceeds maximum length of "@
                + text::decimal_chars((max_len - 1) as nat) + " bytes"@,
{
}

/// What a field that cannot be read is told as: more bytes are needed, or the field is too long.
pub proof fn law_faults(e: CodecError, name: Seq<char>, max_len: nat)
    ensures
        e.is_fault(Fault::NoByte) <==> e is Incomplete,
        e.is_fault(Fault::Cut) <==> e is Incomplete,
        e.is_fault(Fault::TooLong { field: name, max_len }) <==> (e matches
            CodecError::FieldValidation { field, reason } && field@ == name && reason@
            == too_long_reason(max_len)),
{
}

/// The text of an error is exactly that, and of an I/O error it comes first.
pub proof fn law_has_text(e: CodecError, s: Seq<char>)
    ensures
        !(e is Io) ==> (e.has_text(s) <==> s == e.text()),
        e is Io ==> (e.has_text(s) <==> s.len() >= e.text().len() && s.subrange(
            0,
            e.text().len() as int,
        ) == e.text()),
{
    if s.len() >= e.text().len() {
        assert(s.subrange(0, e.text().len() as int) =~= s.take(e.text().len() as int));
    }
}

/// Of fewer than 16 bytes nothing is read.
pub proof fn law_short_header(s: Seq<u8>)
    requires
        s.len() < 16,
    ensures
        PduHeader::consumed(s) == 0,
{
}

} // verus!
