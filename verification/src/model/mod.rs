//! Messages as the applications see them, whatever protocol they came with.

use crate::error::RsmsError;
use crate::frame::Frame;
use crate::longmsg::frame::{UdhHeader, UdhParser};
use crate::longmsg::split;
use crate::protocol::Protocol;
use crate::text;
use vstd::prelude::*;
use vstd::utf8::*;
use vstd::string::*;

verus! {

/// A number, with its type (TON) and numbering plan (NPI) where the protocol has them.
#[derive(Debug, Clone, PartialEq)]
pub struct Address {
    pub number: String,
    pub ton: Option<u8>,
    pub npi: Option<u8>,
}

/// A number as a mathematical value.
#[verifier::ext_equal]
pub struct AddressModel {
    pub number: Seq<char>,
    pub ton: Option<u8>,
    pub npi: Option<u8>,
}

impl View for Address {
    type V = AddressModel;

    open spec fn view(&self) -> AddressModel {
        AddressModel {
            number: self.number@,
            ton: self.ton,
            npi: self.npi,
        }
    }
}

impl Address {
    /// A number without type and plan.
    pub fn plain(number: &str) -> (address: Self)
        ensures
            address@ == (AddressModel { number: number@, ton: None, npi: None }),
    {
        Address { number: number.to_owned(), ton: None, npi: None }
    }

    /// The same number.
    pub(crate) fn copy(&self) -> (address: Self)
        ensures
            address@ == self@,
    {
        Address { number: self.number.clone(), ton: self.ton, npi: self.npi }
    }
}

/// Numbers as mathematical values.
pub open spec fn address_views(addresses: Seq<Address>) -> Seq<AddressModel> {
    Seq::new(addresses.len(), |i: int| addresses[i]@)
}

/// How a session is bound.
#[derive(Debug, Clone, Copy, PartialEq, Eq, Structural)]
pub enum BindMode {
    Transmitter,
    Receiver,
    Transceiver,
}

/// The alphabet of a message.
#[derive(Debug, Clone, Copy, PartialEq, Eq, Structural)]
pub enum Encoding {
    Gsm7,
    Ascii,
    Binary,
    Ucs2,
    Gbk,
    /// An alphabet that only the protocol knows, by its number there.
    Other(u8),
}

/// What became of a message.
#[derive(Debug, Clone, Copy, PartialEq, Eq, Structural)]
pub enum DeliveryStatus {
    Delivered,
    Expired,
    Deleted,
    Undeliverable,
    Accepted,
    Rejected,
    Unknown,
}

impl DeliveryStatus {
    /// The status by the word that a receipt uses for it.
    pub open spec fn of_word(word: Seq<char>) -> DeliveryStatus {
        if word == "DELIVRD"@ {
            DeliveryStatus::Delivered
        } else if word == "EXPIRED"@ {
            DeliveryStatus::Expired
        } else if word == "DELETED"@ {
            DeliveryStatus::Deleted
        } else if word == "UNDELIV"@ {
            DeliveryStatus::Undeliverable
        } else if word == "ACCEPTD"@ {
            DeliveryStatus::Accepted
        } else if word == "REJECTD"@ {
            DeliveryStatus::Rejected
        } else {
            DeliveryStatus::Unknown
        }
    }

    /// The status in the text of a receipt: the word behind `stat:`.
    pub open spec fn of_receipt(bytes: Seq<u8>) -> DeliveryStatus {
        match text::tagged_word(text::lossy_chars(bytes), "stat:"@) {
            Some(word) => Self::of_word(word),
            None => DeliveryStatus::Unknown,
        }
    }

    /// The status in the text of a receipt.
    pub fn from_receipt_text(bytes: &[u8]) -> (status: DeliveryStatus)
        ensures
            status == Self::of_receipt(bytes@),
    {
        let s = text::from_utf8_lossy(bytes);
        match text::word_behind(s.as_str(), "stat:") {
            Some(word) => {
                let word = word.as_str();
                if text::same_text(word, "DELIVRD") {
                    DeliveryStatus::Delivered
                } else if text::same_text(word, "EXPIRED") {
                    DeliveryStatus::Expired
                } else if text::same_text(word, "DELETED") {
                    DeliveryStatus::Deleted
                } else if text::same_text(word, "UNDELIV") {
                    DeliveryStatus::Undeliverable
                } else if text::same_text(word, "ACCEPTD") {
                    DeliveryStatus::Accepted
                } else if text::same_text(word, "REJECTD") {
                    DeliveryStatus::Rejected
                } else {
                    DeliveryStatus::Unknown
                }
            },
            None => DeliveryStatus::Unknown,
        }
    }

    /// The name of the status.
    pub open spec fn name(self) -> Seq<char> {
        match self {
            DeliveryStatus::Delivered => "Delivered"@,
            DeliveryStatus::Expired => "Expired"@,
            DeliveryStatus::Deleted => "Deleted"@,
            DeliveryStatus::Undeliverable => "Undeliverable"@,
            DeliveryStatus::Accepted => "Accepted"@,
            DeliveryStatus::Rejected => "Rejected"@,
            DeliveryStatus::Unknown => "Unknown"@,
        }
    }

    /// The name of the status.
    pub fn as_str(&self) -> (name: &'static str)
        ensures
            name@ == self.name(),
    {
        match self {
            DeliveryStatus::Delivered => "Delivered",
            DeliveryStatus::Expired => "Expired",
            DeliveryStatus::Deleted => "Deleted",
            DeliveryStatus::Undeliverable => "Undeliverable",
            DeliveryStatus::Accepted => "Accepted",
            DeliveryStatus::Rejected => "Rejected",
            DeliveryStatus::Unknown => "Unknown",
        }
    }
}

/// Where a segment stands in a long message.
#[derive(Debug, Clone, Copy, PartialEq, Eq, Structural)]
pub struct Concat {
    pub reference: u16,
    pub total: u8,
    pub sequence: u8,
}

impl Concat {
    /// The segment that a message's concatenation header tells of, and the length of the
    /// header.
    pub open spec fn of_udh(content: Seq<u8>) -> Option<(Concat, usize)> {
        match UdhParser::header_of(content) {
            Some((header, len)) => Some(
                (
                    Concat {
                        reference: header.reference_id,
                        total: header.total_segments,
                        sequence: header.segment_number,
                    },
                    len,
                ),
            ),
            None => None,
        }
    }

    /// The header of the segment.
    pub open spec fn header(self) -> UdhHeader {
        split::segment_header(self.reference, self.total, self.sequence)
    }

    /// The header on the wire, with its length in front.
    pub open spec fn prefix(self) -> Seq<u8> {
        seq![self.header().bytes().len() as u8] + self.header().bytes()
    }

    /// The segment that a message's concatenation header tells of, and the length of the
    /// header.
    pub fn from_udh(content: &[u8]) -> (res: Option<(Concat, usize)>)
        ensures
            res == Self::of_udh(content@),
    {
        match UdhParser::extract_udh(content) {
            Some((header, len)) => Some(
                (
                    Concat {
                        reference: header.reference_id,
                        total: header.total_segments,
                        sequence: header.segment_number,
                    },
                    len,
                ),
            ),
            None => None,
        }
    }

    /// The header on the wire, with its length in front.
    pub fn to_udh_prefix(&self) -> (prefix: Vec<u8>)
        ensures
            prefix@ == self.prefix(),
    {
        let header = if self.reference > 255 {
            UdhHeader::new_16bit(self.reference, self.total, self.sequence)
        } else {
            UdhHeader::new_8bit(self.reference as u8, self.total, self.sequence)
        };
        let bytes = header.to_bytes();
        let mut prefix: Vec<u8> = Vec::new();
        prefix.push(bytes.len() as u8);
        prefix.extend_from_slice(bytes.as_slice());
        assert(prefix@ =~= self.prefix());
        prefix
    }
}

/// The id of a message: text in some protocols, bytes in others.
#[derive(Debug, Clone, PartialEq)]
pub enum MessageId {
    Text(String),
    Binary(Vec<u8>),
}

/// The id of a message as a mathematical value.
#[verifier::ext_equal]
pub enum MessageIdModel {
    Text(Seq<char>),
    Binary(Seq<u8>),
}

impl View for MessageId {
    type V = MessageIdModel;

    open spec fn view(&self) -> MessageIdModel {
        match self {
            MessageId::Text(s) => MessageIdModel::Text(s@),
            MessageId::Binary(b) => MessageIdModel::Binary(b@),
        }
    }
}

impl MessageIdModel {
    /// The id as text, with bytes read as UTF-8.
    pub open spec fn read_as_text(self) -> Seq<char> {
        match self {
            MessageIdModel::Text(s) => s,
            MessageIdModel::Binary(b) => text::lossy_chars(b),
        }
    }
}

impl MessageId {
    /// The id as text, with bytes read as UTF-8.
    pub(crate) fn read_as_text(&self) -> (s: String)
        ensures
            s@ == self@.read_as_text(),
    {
        match self {
            MessageId::Text(s) => s.clone(),
            MessageId::Binary(b) => text::from_utf8_lossy(b.as_slice()),
        }
    }
}

/// The number that ties a response to its request.
#[derive(Debug, Clone, Copy, PartialEq, Eq, Structural)]
pub enum Sequence {
    Plain(u32),
}

impl Sequence {
    /// The number as protocols with a single number have it.
    pub open spec fn number(self) -> u32 {
        match self {
            Sequence::Plain(n) => n,
        }
    }

    /// The number as protocols with a single number have it.
    pub fn as_u32(&self) -> (n: u32)
        ensures
            n == self.number(),
    {
        match self {
            Sequence::Plain(n) => *n,
        }
    }
}

/// An optional parameter.
#[derive(Debug, Clone, PartialEq)]
pub struct Tlv {
    pub tag: u16,
    pub value: Vec<u8>,
}

/// An optional parameter as a mathematical value.
#[verifier::ext_equal]
pub struct TlvModel {
    pub tag: u16,
    pub value: Seq<u8>,
}

impl View for Tlv {
    type V = TlvModel;

    open spec fn view(&self) -> TlvModel {
        TlvModel {
            tag: self.tag,
            value: self.value@,
        }
    }
}

/// Optional parameters as mathematical values.
pub open spec fn tlv_views(tlvs: Seq<Tlv>) -> Seq<TlvModel> {
    Seq::new(tlvs.len(), |i: int| tlvs[i]@)
}

/// What only SMPP has.
#[derive(Debug, Clone, PartialEq)]
pub struct SmppExtra {
    pub service_type: String,
    pub esm_class: u8,
    pub protocol_id: u8,
    pub priority_flag: u8,
    pub schedule_delivery_time: String,
    pub validity_period: String,
    pub registered_delivery: u8,
    pub replace_if_present_flag: u8,
    pub sm_default_msg_id: u8,
}

/// The same as a mathematical value.
#[verifier::ext_equal]
pub struct SmppExtraModel {
    pub service_type: Seq<char>,
    pub esm_class: u8,
    pub protocol_id: u8,
    pub priority_flag: u8,
    pub schedule_delivery_time: Seq<char>,
    pub validity_period: Seq<char>,
    pub registered_delivery: u8,
    pub replace_if_present_flag: u8,
    pub sm_default_msg_id: u8,
}

impl View for SmppExtra {
    type V = SmppExtraModel;

    open spec fn view(&self) -> SmppExtraModel {
        SmppExtraModel {
            service_type: self.service_type@,
            esm_class: self.esm_class,
            protocol_id: self.protocol_id,
            priority_flag: self.priority_flag,
            schedule_delivery_time: self.schedule_delivery_time@,
            validity_period: self.validity_period@,
            registered_delivery: self.registered_delivery,
            replace_if_present_flag: self.replace_if_present_flag,
            sm_default_msg_id: self.sm_default_msg_id,
        }
    }
}

impl SmppExtraModel {
    /// Nothing but zeros.
    pub open spec fn plain() -> SmppExtraModel {
        SmppExtraModel {
            service_type: Seq::empty(),
            esm_class: 0,
            protocol_id: 0,
            priority_flag: 0,
            schedule_delivery_time: Seq::empty(),
            validity_period: Seq::empty(),
            registered_delivery: 0,
            replace_if_present_flag: 0,
            sm_default_msg_id: 0,
        }
    }
}

impl Default for SmppExtra {
    fn default() -> (extra: Self)
        ensures
            extra@ == SmppExtraModel::plain(),
    {
        SmppExtra {
            service_type: String::new(),
            esm_class: 0,
            protocol_id: 0,
            priority_flag: 0,
            schedule_delivery_time: String::new(),
            validity_period: String::new(),
            registered_delivery: 0,
            replace_if_present_flag: 0,
            sm_default_msg_id: 0,
        }
    }
}

impl SmppExtra {
    /// The same values.
    pub(crate) fn copy(&self) -> (extra: Self)
        ensures
            extra@ == self@,
    {
        SmppExtra {
            service_type: self.service_type.clone(),
            esm_class: self.esm_class,
            protocol_id: self.protocol_id,
            priority_flag: self.priority_flag,
            schedule_delivery_time: self.schedule_delivery_time.clone(),
            validity_period: self.validity_period.clone(),
            registered_delivery: self.registered_delivery,
            replace_if_present_flag: self.replace_if_present_flag,
            sm_default_msg_id: self.sm_default_msg_id,
        }
    }
}

/// What only the protocol of a message has.
#[derive(Debug, Clone, PartialEq)]
pub enum ProtocolExtra {
    /// The message says nothing of it.
    Absent,
    Smpp(SmppExtra),
}

/// What only the protocol of a message has, as a mathematical value.
#[verifier::ext_equal]
pub enum ExtraModel {
    Absent,
    Smpp(SmppExtraModel),
}

impl View for ProtocolExtra {
    type V = ExtraModel;

    open spec fn view(&self) -> ExtraModel {
        match self {
            ProtocolExtra::Absent => ExtraModel::Absent,
            ProtocolExtra::Smpp(extra) => ExtraModel::Smpp(extra@),
        }
    }
}

impl ExtraModel {
    /// What SMPP has, with zeros where the message says nothing of it.
    pub open spec fn smpp(self) -> SmppExtraModel {
        match self {
            ExtraModel::Smpp(extra) => extra,
            ExtraModel::Absent => SmppExtraModel::plain(),
        }
    }
}

impl ProtocolExtra {
    /// What SMPP has, with zeros where the message says nothing of it.
    pub(crate) fn smpp(&self) -> (extra: SmppExtra)
        ensures
            extra@ == self@.smpp(),
    {
        match self {
            ProtocolExtra::Smpp(extra) => extra.copy(),
            ProtocolExtra::Absent => SmppExtra::default(),
        }
    }
}

/// A message on its way to a message center.
#[derive(Debug, Clone, PartialEq)]
pub struct UnifiedSubmit {
    pub src: Address,
    pub dests: Vec<Address>,
    pub content: Vec<u8>,
    pub encoding: Encoding,
    pub want_report: bool,
    pub concat: Option<Concat>,
    pub extra: ProtocolExtra,
    pub tlvs: Vec<Tlv>,
}

/// The same as a mathematical value.
#[verifier::ext_equal]
pub struct UnifiedSubmitModel {
    pub src: AddressModel,
    pub dests: Seq<AddressModel>,
    pub content: Seq<u8>,
    pub encoding: Encoding,
    pub want_report: bool,
    pub concat: Option<Concat>,
    pub extra: ExtraModel,
    pub tlvs: Seq<TlvModel>,
}

impl View for UnifiedSubmit {
    type V = UnifiedSubmitModel;

    open spec fn view(&self) -> UnifiedSubmitModel {
        UnifiedSubmitModel {
            src: self.src@,
            dests: address_views(self.dests@),
            content: self.content@,
            encoding: self.encoding,
            want_report: self.want_report,
            concat: self.concat,
            extra: self.extra@,
            tlvs: tlv_views(self.tlvs@),
        }
    }
}

/// The response to a submitted message.
#[derive(Debug, Clone, PartialEq)]
pub struct UnifiedSubmitResp {
    pub msg_id: MessageId,
    pub status: u32,
}

/// The same as a mathematical value.
#[verifier::ext_equal]
pub struct UnifiedSubmitRespModel {
    pub msg_id: MessageIdModel,
    pub status: u32,
}

impl View for UnifiedSubmitResp {
    type V = UnifiedSubmitRespModel;

    open spec fn view(&self) -> UnifiedSubmitRespModel {
        UnifiedSubmitRespModel {
            msg_id: self.msg_id@,
            status: self.status,
        }
    }
}

/// A message from a phone.
#[derive(Debug, Clone, PartialEq)]
pub struct UnifiedDeliver {
    pub src: Address,
    pub dest: Address,
    pub content: Vec<u8>,
    pub encoding: Encoding,
    pub concat: Option<Concat>,
    pub extra: ProtocolExtra,
    pub tlvs: Vec<Tlv>,
}

/// The same as a mathematical value.
#[verifier::ext_equal]
pub struct UnifiedDeliverModel {
    pub src: AddressModel,
    pub dest: AddressModel,
    pub content: Seq<u8>,
    pub encoding: Encoding,
    pub concat: Option<Concat>,
    pub extra: ExtraModel,
    pub tlvs: Seq<TlvModel>,
}

impl View for UnifiedDeliver {
    type V = UnifiedDeliverModel;

    open spec fn view(&self) -> UnifiedDeliverModel {
        UnifiedDeliverModel {
            src: self.src@,
            dest: self.dest@,
            content: self.content@,
            encoding: self.encoding,
            concat: self.concat,
            extra: self.extra@,
            tlvs: tlv_views(self.tlvs@),
        }
    }
}

/// What became of a message.
#[derive(Debug, Clone, PartialEq)]
pub struct UnifiedReport {
    pub msg_id: MessageId,
    pub status: DeliveryStatus,
    pub src: Address,
    pub dest: Address,
    pub raw: Vec<u8>,
}

/// The same as a mathematical value.
#[verifier::ext_equal]
pub struct UnifiedReportModel {
    pub msg_id: MessageIdModel,
    pub status: DeliveryStatus,
    pub src: AddressModel,
    pub dest: AddressModel,
    pub raw: Seq<u8>,
}

impl View for UnifiedReport {
    type V = UnifiedReportModel;

    open spec fn view(&self) -> UnifiedReportModel {
        UnifiedReportModel {
            msg_id: self.msg_id@,
            status: self.status,
            src: self.src@,
            dest: self.dest@,
            raw: self.raw@,
        }
    }
}

/// A request to open a session.
#[derive(Debug, Clone, PartialEq)]
pub struct UnifiedBind {
    pub client_id: String,
    pub authenticator: Vec<u8>,
    pub timestamp: u32,
    pub version: u8,
    pub system_type: Option<String>,
    pub mode: BindMode,
    pub login_mode: Option<u8>,
}

/// The same as a mathematical value.
#[verifier::ext_equal]
pub struct UnifiedBindModel {
    pub client_id: Seq<char>,
    pub authenticator: Seq<u8>,
    pub timestamp: u32,
    pub version: u8,
    pub system_type: Option<Seq<char>>,
    pub mode: BindMode,
    pub login_mode: Option<u8>,
}

impl View for UnifiedBind {
    type V = UnifiedBindModel;

    open spec fn view(&self) -> UnifiedBindModel {
        UnifiedBindModel {
            client_id: self.client_id@,
            authenticator: self.authenticator@,
            timestamp: self.timestamp,
            version: self.version,
            system_type: match self.system_type {
                Some(s) => Some(s@),
                None => None,
            },
            mode: self.mode,
            login_mode: self.login_mode,
        }
    }
}

/// The response to a request to open a session.
#[derive(Debug, Clone, Copy, PartialEq, Eq, Structural)]
pub struct UnifiedBindResp {
    pub status: u32,
}

/// A message of any kind.
#[derive(Debug, Clone, PartialEq)]
pub enum UnifiedMessage {
    Bind(UnifiedBind),
    BindResp(UnifiedBindResp),
    Submit(UnifiedSubmit),
    SubmitResp(UnifiedSubmitResp),
    Deliver(UnifiedDeliver),
    DeliverResp,
    Report(UnifiedReport),
    ReportResp,
    Ping,
    PingResp,
    Unbind,
    UnbindResp,
    Unknown { command_id: u32, raw: Vec<u8> },
}

/// A message of any kind as a mathematical value.
#[verifier::ext_equal]
pub enum Unified {
    Bind(UnifiedBindModel),
    BindResp { status: u32 },
    Submit(UnifiedSubmitModel),
    SubmitResp(UnifiedSubmitRespModel),
    Deliver(UnifiedDeliverModel),
    DeliverResp,
    Report(UnifiedReportModel),
    ReportResp,
    Ping,
    PingResp,
    Unbind,
    UnbindResp,
    Unknown { command_id: u32, raw: Seq<u8> },
}

impl View for UnifiedMessage {
    type V = Unified;

    open spec fn view(&self) -> Unified {
        match self {
            UnifiedMessage::Bind(m) => Unified::Bind(m@),
            UnifiedMessage::BindResp(m) => Unified::BindResp { status: m.status },
            UnifiedMessage::Submit(m) => Unified::Submit(m@),
            UnifiedMessage::SubmitResp(m) => Unified::SubmitResp(m@),
            UnifiedMessage::Deliver(m) => Unified::Deliver(m@),
            UnifiedMessage::DeliverResp => Unified::DeliverResp,
            UnifiedMessage::Report(m) => Unified::Report(m@),
            UnifiedMessage::ReportResp => Unified::ReportResp,
            UnifiedMessage::Ping => Unified::Ping,
            UnifiedMessage::PingResp => Unified::PingResp,
            UnifiedMessage::Unbind => Unified::Unbind,
            UnifiedMessage::UnbindResp => Unified::UnbindResp,
            UnifiedMessage::Unknown { command_id, raw } => Unified::Unknown {
                command_id: *command_id,
                raw: raw@,
            },
        }
    }
}

/// The way between a protocol's PDUs and messages.
///
/// The spec functions have bodies only so that ordinary Rust can implement the trait without
/// them; a verified implementation gives its own.
pub trait ProtocolAdapter: Send + Sync {
    /// The protocol.
    open spec fn protocol_of(&self) -> Protocol {
        arbitrary()
    }

    /// What a PDU is read as, or the text of the error.
    open spec fn reads(&self, pdu: Seq<u8>) -> Result<Unified, Seq<char>> {
        arbitrary()
    }

    /// Whether a message can be put on the wire or is refused with an error; others are too
    /// long for the protocol's fields.
    open spec fn can_encode(&self, message: Unified) -> bool {
        arbitrary()
    }

    /// A message on the wire, or the text of the error.
    open spec fn writes(&self, message: Unified, sequence: Sequence) -> Result<Seq<u8>, Seq<char>> {
        arbitrary()
    }

    fn protocol(&self) -> (p: Protocol)
        ensures
            p == self.protocol_of(),
    ;

    fn decode(&self, frame: &Frame) -> (res: Result<UnifiedMessage, RsmsError>)
        ensures
            match self.reads(frame.data@) {
                Ok(message) => res matches Ok(m) && m@ == message,
                Err(text) => res matches Err(e) && e.is_codec(text),
            },
    ;

    fn encode(&self, msg: &UnifiedMessage, seq: Sequence) -> (res: Result<Vec<u8>, RsmsError>)
        requires
            self.can_encode(msg@),
        ensures
            match self.writes(msg@, seq) {
                Ok(bytes) => res matches Ok(b) && b@ == bytes,
                Err(text) => res matches Err(e) && e.is_other(text),
            },
    ;
}

/// A segment's header in front of a text is read back as the segment, and ends where the text
/// starts.
pub proof fn law_concat_roundtrip(concat: Concat, payload: Seq<u8>)
    ensures
        Concat::of_udh(concat.prefix() + payload) == Some(
            (concat, concat.prefix().len() as usize),
        ),
        (concat.prefix() + payload).skip(concat.prefix().len() as int) == payload,
{
    crate::longmsg::frame::law_udh_roundtrip(concat.header(), payload);
    assert((concat.prefix() + payload).skip(concat.prefix().len() as int) =~= payload);
}

/// The status in a receipt is the one that its word behind `stat:` stands for.
pub proof fn law_receipt_status(head: Seq<char>, word: Seq<char>, tail: Seq<char>, bytes: Seq<u8>)
    requires
        bytes == encode_utf8(head + "stat:"@ + word + tail),
        word.len() > 0,
        forall|i: int| 0 <= i < word.len() ==> !text::is_white_space(#[trigger] word[i]),
        tail.len() > 0 ==> text::is_white_space(tail[0]),
        forall|i: int|
            0 <= i < head.len() ==> #[trigger] (head + "stat:"@ + word + tail).subrange(
                i,
                i + "stat:"@.len(),
            ) != "stat:"@,
    ensures
        word == "DELIVRD"@ ==> DeliveryStatus::of_receipt(bytes) == DeliveryStatus::Delivered,
        word == "EXPIRED"@ ==> DeliveryStatus::of_receipt(bytes) == DeliveryStatus::Expired,
        word == "DELETED"@ ==> DeliveryStatus::of_receipt(bytes) == DeliveryStatus::Deleted,
        word == "UNDELIV"@ ==> DeliveryStatus::of_receipt(bytes) == DeliveryStatus::Undeliverable,
        word == "ACCEPTD"@ ==> DeliveryStatus::of_receipt(bytes) == DeliveryStatus::Accepted,
        word == "REJECTD"@ ==> DeliveryStatus::of_receipt(bytes) == DeliveryStatus::Rejected,
        word != "DELIVRD"@ && word != "EXPIRED"@ && word != "DELETED"@ && word != "UNDELIV"@ && word
            != "ACCEPTD"@ && word != "REJECTD"@ ==> DeliveryStatus::of_receipt(bytes)
            == DeliveryStatus::Unknown,
{
    text::law_utf8_roundtrip(head + "stat:"@ + word + tail);
    text::law_tagged_word(head, "stat:"@, word, tail);
    reveal_strlit("DELIVRD");
    reveal_strlit("EXPIRED");
    reveal_strlit("DELETED");
    reveal_strlit("UNDELIV");
    reveal_strlit("ACCEPTD");
    reveal_strlit("REJECTD");
    assert("DELIVRD"@[2] != "DELETED"@[2] || "DELIVRD"@[3] != "DELETED"@[3]);
    assert("DELIVRD"@[0] == 'D' && "EXPIRED"@[0] == 'E' && "UNDELIV"@[0] == 'U' && "ACCEPTD"@[0]
        == 'A' && "REJECTD"@[0] == 'R');
}

/// The number that ties a response to its request is the number itself.
pub proof fn law_sequence_number(n: u32)
    ensures
        Sequence::Plain(n).number() == n,
{
}

/// What is said of a message stands for itself.
pub proof fn law_message_views(
    s: UnifiedSubmit,
    d: UnifiedDeliver,
    r: UnifiedReport,
    b: UnifiedBind,
    p: UnifiedSubmitResp,
    a: Address,
)
    ensures
        s@.src == s.src@,
        s@.content == s.content@,
        s@.encoding == s.encoding,
        s@.want_report == s.want_report,
        s@.concat == s.concat,
        d@.src == d.src@,
        d@.dest == d.dest@,
        d@.content == d.content@,
        d@.encoding == d.encoding,
        d@.concat == d.concat,
        r@.msg_id == r.msg_id@,
        r@.status == r.status,
        r@.src == r.src@,
        r@.dest == r.dest@,
        r@.raw == r.raw@,
        b@.client_id == b.client_id@,
        b@.authenticator == b.authenticator@,
        b@.version == b.version,
        b@.mode == b.mode,
        p@.msg_id == p.msg_id@,
        p@.status == p.status,
        a@.number == a.number@,
        a@.ton == a.ton,
        a@.npi == a.npi,
{
}

} // verus!
