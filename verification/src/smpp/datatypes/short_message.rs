//! Short messages: submitting them to a message center, delivering them from one, and the
//! responses.

use crate::cstring;
use crate::smpp::codec;
use crate::smpp::codec::{CodecError, Decodable, Encodable, PduHeader, ReadError};
use crate::smpp::datatypes::command_id::CommandId;
use crate::smpp::datatypes::tlv;
use crate::smpp::datatypes::tlv::{Tlv, TlvFields};
use crate::smpp::grammar;
use crate::smpp::grammar::{Scan, Written};
use crate::smpp::version::SmppVersion;
use crate::text;
use crate::wire;
use bytes::BytesMut;
use std::io::Cursor;
use vstd::prelude::*;
use vstd::utf8::*;
use vstd::slice::slice_to_vec;
use vstd::string::*;

verus! {

/// The field of a time.
pub const TIME_LENGTH: usize = 17;

/// The field of a message id.
pub const MESSAGE_ID_LENGTH: usize = 65;

/// The fields whose lengths differ between versions.
#[derive(Debug, Clone, Copy, PartialEq, Eq, Structural)]
pub struct MessageSizes {
    pub service_type: usize,
    pub source_addr: usize,
    pub destination_addr: usize,
}

impl MessageSizes {
    /// The lengths in a version.
    pub open spec fn of(version: SmppVersion) -> MessageSizes {
        MessageSizes {
            service_type: version.service_type(),
            source_addr: version.source_addr(),
            destination_addr: version.destination_addr(),
        }
    }

    /// No field is empty.
    pub open spec fn positive(self) -> bool {
        self.service_type > 0 && self.source_addr > 0 && self.destination_addr > 0
    }

    /// The lengths in a version.
    pub fn in_version(version: SmppVersion) -> (sizes: MessageSizes)
        ensures
            sizes == Self::of(version),
            sizes.positive(),
    {
        MessageSizes {
            service_type: version.service_type_size(),
            source_addr: version.source_addr_size(),
            destination_addr: version.destination_addr_size(),
        }
    }
}

/// A short message as a mathematical value.
#[verifier::ext_equal]
pub struct MessageFields {
    pub service_type: Seq<char>,
    pub source_addr_ton: u8,
    pub source_addr_npi: u8,
    pub source_addr: Seq<char>,
    pub dest_addr_ton: u8,
    pub dest_addr_npi: u8,
    pub destination_addr: Seq<char>,
    pub esm_class: u8,
    pub protocol_id: u8,
    pub priority_flag: u8,
    pub schedule_delivery_time: Seq<char>,
    pub validity_period: Seq<char>,
    pub registered_delivery: u8,
    pub replace_if_present_flag: u8,
    pub data_coding: u8,
    pub sm_default_msg_id: u8,
    pub short_message: Seq<u8>,
    pub tlvs: Seq<TlvFields>,
}

impl MessageFields {
    /// Behind the first `n` fields of a message.
    #[verifier::opaque]
    pub open spec fn scan(body: Seq<u8>, sizes: MessageSizes, n: nat) -> Scan
        decreases n,
    {
        if n == 0 {
            Scan::of(body)
        } else {
            let before = Self::scan(body, sizes, (n - 1) as nat);
            if n == 1 {
                before.after_string(sizes.service_type as nat, "service_type"@)
            } else if n == 4 {
                before.after_string(sizes.source_addr as nat, "source_addr"@)
            } else if n == 7 {
                before.after_string(sizes.destination_addr as nat, "destination_addr"@)
            } else if n == 11 {
                before.after_string(TIME_LENGTH as nat, "schedule_delivery_time"@)
            } else if n == 12 {
                before.after_string(TIME_LENGTH as nat, "validity_period"@)
            } else {
                before.after_byte()
            }
        }
    }

    /// Behind the length of the message, which follows the sixteen fields.
    pub open spec fn head_end(body: Seq<u8>, sizes: MessageSizes) -> Scan {
        Self::scan(body, sizes, 17)
    }

    /// The length of the message.
    pub open spec fn message_len(body: Seq<u8>, sizes: MessageSizes) -> nat {
        Self::scan(body, sizes, 16).byte() as nat
    }

    /// The sixteen fields in front of the message, with a message and parameters.
    #[verifier::opaque]
    pub open spec fn read(
        body: Seq<u8>,
        sizes: MessageSizes,
        short_message: Seq<u8>,
        tlvs: Seq<TlvFields>,
    ) -> MessageFields {
        MessageFields {
            service_type: Self::scan(body, sizes, 0).string(),
            source_addr_ton: Self::scan(body, sizes, 1).byte(),
            source_addr_npi: Self::scan(body, sizes, 2).byte(),
            source_addr: Self::scan(body, sizes, 3).string(),
            dest_addr_ton: Self::scan(body, sizes, 4).byte(),
            dest_addr_npi: Self::scan(body, sizes, 5).byte(),
            destination_addr: Self::scan(body, sizes, 6).string(),
            esm_class: Self::scan(body, sizes, 7).byte(),
            protocol_id: Self::scan(body, sizes, 8).byte(),
            priority_flag: Self::scan(body, sizes, 9).byte(),
            schedule_delivery_time: Self::scan(body, sizes, 10).string(),
            validity_period: Self::scan(body, sizes, 11).string(),
            registered_delivery: Self::scan(body, sizes, 12).byte(),
            replace_if_present_flag: Self::scan(body, sizes, 13).byte(),
            data_coding: Self::scan(body, sizes, 14).byte(),
            sm_default_msg_id: Self::scan(body, sizes, 15).byte(),
            short_message,
            tlvs,
        }
    }

    /// Where reading a message ends, if the whole message must be there.
    pub open spec fn end(body: Seq<u8>, sizes: MessageSizes) -> Scan {
        let end = Self::head_end(body, sizes).after_exactly(Self::message_len(body, sizes));
        if end.ok() {
            Scan::of(TlvFields::series_rest(end.rest))
        } else {
            end
        }
    }

    /// The message that is read, if the whole message must be there.
    pub open spec fn read_exactly(body: Seq<u8>, sizes: MessageSizes) -> MessageFields {
        let head = Self::head_end(body, sizes);
        let len = Self::message_len(body, sizes);
        Self::read(
            body,
            sizes,
            head.rest.take(len as int),
            TlvFields::series(head.rest.skip(len as int)),
        )
    }

    /// The message that is read, if a message that is not all there is taken as empty. What is
    /// there of it is no parameter: then there are none.
    pub open spec fn read_leniently(body: Seq<u8>, sizes: MessageSizes) -> MessageFields {
        let head = Self::head_end(body, sizes);
        let len = Self::message_len(body, sizes);
        Self::read(
            body,
            sizes,
            head.bytes(len),
            if head.rest.len() >= len {
                TlvFields::series(head.rest.skip(len as int))
            } else {
                Seq::empty()
            },
        )
    }

    /// The sixteen fields in front of the message, on the wire.
    #[verifier::opaque]
    pub open spec fn head_written(self) -> Written {
        Written::new().string(self.service_type, 6).byte(self.source_addr_ton).byte(self.source_addr_npi).string(self.source_addr, 21).byte(self.dest_addr_ton).byte(self.dest_addr_npi).string(self.destination_addr, 21).byte(self.esm_class).byte(self.protocol_id).byte(self.priority_flag).string(self.schedule_delivery_time, TIME_LENGTH).string(self.validity_period, TIME_LENGTH).byte(self.registered_delivery).byte(self.replace_if_present_flag).byte(self.data_coding).byte(self.sm_default_msg_id)
    }

    /// The message on the wire. The length of the short message is kept in one byte.
    pub open spec fn written(self) -> Written {
        self.head_written().byte((self.short_message.len() % 256) as u8).raw(self.short_message).raw(
            tlv::tlv_bytes(self.tlvs),
        )
    }

    /// The message can be written and read back.
    pub open spec fn fits(self) -> bool {
        &&& grammar::fits(self.service_type, 6)
        &&& grammar::fits(self.source_addr, 21)
        &&& grammar::fits(self.destination_addr, 21)
        &&& grammar::fits(self.schedule_delivery_time, TIME_LENGTH as nat)
        &&& grammar::fits(self.validity_period, TIME_LENGTH as nat)
        &&& self.short_message.len() <= 255
        &&& forall|i: int| 0 <= i < self.tlvs.len() ==> (#[trigger] self.tlvs[i]).wf()
    }
}

/// The fields of a message, as they are read.
pub(crate) struct MessageParts {
    pub(crate) service_type: String,
    pub(crate) source_addr_ton: u8,
    pub(crate) source_addr_npi: u8,
    pub(crate) source_addr: String,
    pub(crate) dest_addr_ton: u8,
    pub(crate) dest_addr_npi: u8,
    pub(crate) destination_addr: String,
    pub(crate) esm_class: u8,
    pub(crate) protocol_id: u8,
    pub(crate) priority_flag: u8,
    pub(crate) schedule_delivery_time: String,
    pub(crate) validity_period: String,
    pub(crate) registered_delivery: u8,
    pub(crate) replace_if_present_flag: u8,
    pub(crate) data_coding: u8,
    pub(crate) sm_default_msg_id: u8,
    pub(crate) short_message: Vec<u8>,
    pub(crate) tlvs: Vec<Tlv>,
}

impl MessageParts {
    pub(crate) open spec fn fields(self) -> MessageFields {
        MessageFields {
            service_type: self.service_type@,
            source_addr_ton: self.source_addr_ton,
            source_addr_npi: self.source_addr_npi,
            source_addr: self.source_addr@,
            dest_addr_ton: self.dest_addr_ton,
            dest_addr_npi: self.dest_addr_npi,
            destination_addr: self.destination_addr@,
            esm_class: self.esm_class,
            protocol_id: self.protocol_id,
            priority_flag: self.priority_flag,
            schedule_delivery_time: self.schedule_delivery_time@,
            validity_period: self.validity_period@,
            registered_delivery: self.registered_delivery,
            replace_if_present_flag: self.replace_if_present_flag,
            data_coding: self.data_coding,
            sm_default_msg_id: self.sm_default_msg_id,
            short_message: self.short_message@,
            tlvs: tlv::tlv_views(self.tlvs@),
        }
    }

    /// Reads the fields in front of the message, and the length of the message.
    fn decode_head(buf: &mut Cursor<&[u8]>, sizes: MessageSizes) -> (res: Result<
        (MessageParts, u8),
        ReadError,
    >)
        requires
            sizes.positive(),
        ensures
            ({
                let body = wire::cursor_rest(*old(buf));
                let end = MessageFields::head_end(body, sizes);
                &&& res is Ok <==> end.ok()
                &&& res matches Ok((parts, len)) ==> parts.fields() == MessageFields::read(
                    body,
                    sizes,
                    Seq::empty(),
                    Seq::empty(),
                ) && len == MessageFields::message_len(body, sizes)
                &&& res matches Err(e) ==> e.is_fault(end.fault->0)
                &&& wire::cursor_rest(*final(buf)) == end.rest
            }),
    {
        let ghost body = wire::cursor_rest(*buf);
        proof {
            reveal(MessageFields::read);
            lemma_scan(body, sizes);
        }
        let service_type = match codec::read_string(buf, sizes.service_type, "service_type") {
            Ok(s) => s,
            Err(e) => {
                return Err(e);
            },
        };
        let source_addr_ton: u8 = match codec::read_byte(buf) {
            Ok(b) => b,
            Err(e) => {
                return Err(e);
            },
        };
        let source_addr_npi: u8 = match codec::read_byte(buf) {
            Ok(b) => b,
            Err(e) => {
                return Err(e);
            },
        };
        let source_addr = match codec::read_string(buf, sizes.source_addr, "source_addr") {
            Ok(s) => s,
            Err(e) => {
                return Err(e);
            },
        };
        let dest_addr_ton: u8 = match codec::read_byte(buf) {
            Ok(b) => b,
            Err(e) => {
                return Err(e);
            },
        };
        let dest_addr_npi: u8 = match codec::read_byte(buf) {
            Ok(b) => b,
            Err(e) => {
                return Err(e);
            },
        };
        let destination_addr = match codec::read_string(buf, sizes.destination_addr, "destination_addr") {
            Ok(s) => s,
            Err(e) => {
                return Err(e);
            },
        };
        let esm_class: u8 = match codec::read_byte(buf) {
            Ok(b) => b,
            Err(e) => {
                return Err(e);
            },
        };
        let protocol_id: u8 = match codec::read_byte(buf) {
            Ok(b) => b,
            Err(e) => {
                return Err(e);
            },
        };
        let priority_flag: u8 = match codec::read_byte(buf) {
            Ok(b) => b,
            Err(e) => {
                return Err(e);
            },
        };
        let schedule_delivery_time = match codec::read_string(buf, TIME_LENGTH, "schedule_delivery_time") {
            Ok(s) => s,
            Err(e) => {
                return Err(e);
            },
        };
        let validity_period = match codec::read_string(buf, TIME_LENGTH, "validity_period") {
            Ok(s) => s,
            Err(e) => {
                return Err(e);
            },
        };
        let registered_delivery: u8 = match codec::read_byte(buf) {
            Ok(b) => b,
            Err(e) => {
                return Err(e);
            },
        };
        let replace_if_present_flag: u8 = match codec::read_byte(buf) {
            Ok(b) => b,
            Err(e) => {
                return Err(e);
            },
        };
        let data_coding: u8 = match codec::read_byte(buf) {
            Ok(b) => b,
            Err(e) => {
                return Err(e);
            },
        };
        let sm_default_msg_id: u8 = match codec::read_byte(buf) {
            Ok(b) => b,
            Err(e) => {
                return Err(e);
            },
        };
        let sm_length: u8 = match codec::read_byte(buf) {
            Ok(b) => b,
            Err(e) => {
                return Err(e);
            },
        };
        let parts = MessageParts {
            service_type,
            source_addr_ton,
            source_addr_npi,
            source_addr,
            dest_addr_ton,
            dest_addr_npi,
            destination_addr,
            esm_class,
            protocol_id,
            priority_flag,
            schedule_delivery_time,
            validity_period,
            registered_delivery,
            replace_if_present_flag,
            data_coding,
            sm_default_msg_id,
            short_message: Vec::new(),
            tlvs: Vec::new(),
        };
        assert(tlv::tlv_views(parts.tlvs@) =~= Seq::<TlvFields>::empty());
        Ok((parts, sm_length))
    }

    /// Reads a message that must be there as a whole.
    fn decode_exactly(buf: &mut Cursor<&[u8]>, sizes: MessageSizes) -> (res: Result<
        MessageParts,
        ReadError,
    >)
        requires
            sizes.positive(),
        ensures
            ({
                let body = wire::cursor_rest(*old(buf));
                let end = MessageFields::end(body, sizes);
                &&& res is Ok <==> end.ok()
                &&& res matches Ok(parts) ==> parts.fields() == MessageFields::read_exactly(
                    body,
                    sizes,
                )
                &&& res matches Err(e) ==> e.is_fault(end.fault->0)
                &&& wire::cursor_rest(*final(buf)) == end.rest
            }),
    {
        let (mut parts, sm_length) = match Self::decode_head(buf, sizes) {
            Ok(head) => head,
            Err(e) => {
                return Err(e);
            },
        };
        if wire::remaining(buf) < sm_length as usize {
            return Err(ReadError::NoByte);
        }
        let mut short_message: Vec<u8> = vec![0u8; sm_length as usize];
        wire::copy_to_slice(buf, &mut short_message);
        let tlvs = Tlv::decode_series(buf);
        parts.short_message = short_message;
        parts.tlvs = tlvs;
        proof {
            reveal(MessageFields::read);
        }
        Ok(parts)
    }

    /// Reads a message; one that is not all there is taken as empty, without parameters.
    pub(crate) fn decode_leniently(buf: &mut Cursor<&[u8]>, sizes: MessageSizes) -> (res: Result<
        MessageParts,
        ReadError,
    >)
        requires
            sizes.positive(),
        ensures
            ({
                let body = wire::cursor_rest(*old(buf));
                let end = MessageFields::head_end(body, sizes);
                &&& res is Ok <==> end.ok()
                &&& res matches Ok(parts) ==> parts.fields() == MessageFields::read_leniently(
                    body,
                    sizes,
                )
                &&& res matches Err(e) ==> e.is_fault(end.fault->0)
            }),
    {
        let (mut parts, sm_length) = match Self::decode_head(buf, sizes) {
            Ok(head) => head,
            Err(e) => {
                return Err(e);
            },
        };
        let ghost rest = wire::cursor_rest(*buf);
        if wire::remaining(buf) >= sm_length as usize {
            if sm_length > 0 {
                let mut short_message: Vec<u8> = vec![0u8; sm_length as usize];
                wire::copy_to_slice(buf, &mut short_message);
                parts.short_message = short_message;
            } else {
                assert(rest.skip(0) =~= rest);
                assert(rest.take(0) =~= Seq::<u8>::empty());
            }
            parts.tlvs = Tlv::decode_series(buf);
        }
        proof {
            reveal(MessageFields::read);
        }
        Ok(parts)
    }
}

/// The positions behind the fields of a message, one by one.
proof fn lemma_scan(body: Seq<u8>, sizes: MessageSizes)
    ensures
        MessageFields::scan(body, sizes, 0) == Scan::of(body),
        MessageFields::scan(body, sizes, 1) == MessageFields::scan(body, sizes, 0).after_string(sizes.service_type as nat, "service_type"@),
        MessageFields::scan(body, sizes, 2) == MessageFields::scan(body, sizes, 1).after_byte(),
        MessageFields::scan(body, sizes, 3) == MessageFields::scan(body, sizes, 2).after_byte(),
        MessageFields::scan(body, sizes, 4) == MessageFields::scan(body, sizes, 3).after_string(sizes.source_addr as nat, "source_addr"@),
        MessageFields::scan(body, sizes, 5) == MessageFields::scan(body, sizes, 4).after_byte(),
        MessageFields::scan(body, sizes, 6) == MessageFields::scan(body, sizes, 5).after_byte(),
        MessageFields::scan(body, sizes, 7) == MessageFields::scan(body, sizes, 6).after_string(sizes.destination_addr as nat, "destination_addr"@),
        MessageFields::scan(body, sizes, 8) == MessageFields::scan(body, sizes, 7).after_byte(),
        MessageFields::scan(body, sizes, 9) == MessageFields::scan(body, sizes, 8).after_byte(),
        MessageFields::scan(body, sizes, 10) == MessageFields::scan(body, sizes, 9).after_byte(),
        MessageFields::scan(body, sizes, 11) == MessageFields::scan(body, sizes, 10).after_string(TIME_LENGTH as nat, "schedule_delivery_time"@),
        MessageFields::scan(body, sizes, 12) == MessageFields::scan(body, sizes, 11).after_string(TIME_LENGTH as nat, "validity_period"@),
        MessageFields::scan(body, sizes, 13) == MessageFields::scan(body, sizes, 12).after_byte(),
        MessageFields::scan(body, sizes, 14) == MessageFields::scan(body, sizes, 13).after_byte(),
        MessageFields::scan(body, sizes, 15) == MessageFields::scan(body, sizes, 14).after_byte(),
        MessageFields::scan(body, sizes, 16) == MessageFields::scan(body, sizes, 15).after_byte(),
        MessageFields::scan(body, sizes, 17) == MessageFields::scan(body, sizes, 16).after_byte(),
{
    reveal_with_fuel(MessageFields::scan, 2);
}

/// The room that parameters take.
pub open spec fn tlv_sizes(tlvs: Seq<Tlv>) -> nat
    decreases tlvs.len(),
{
    if tlvs.len() == 0 {
        0
    } else {
        tlv_sizes(tlvs.drop_last()) + tlvs.last().size()
    }
}

proof fn lemma_tlv_sizes_grow(tlvs: Seq<Tlv>, i: int)
    requires
        0 <= i <= tlvs.len(),
    ensures
        tlv_sizes(tlvs.take(i)) <= tlv_sizes(tlvs),
    decreases tlvs.len(),
{
    if i < tlvs.len() {
        lemma_tlv_sizes_grow(tlvs.drop_last(), i);
        assert(tlvs.drop_last().take(i) =~= tlvs.take(i));
    } else {
        assert(tlvs.take(i) =~= tlvs);
    }
}

/// The room to set aside for a message and its parameters.
fn encoded_sm_size(short_message: &[u8], tlvs: &[Tlv]) -> (size: usize)
    requires
        94 + short_message@.len() + tlv_sizes(tlvs@) <= usize::MAX,
    ensures
        size == 94 + short_message@.len() + tlv_sizes(tlvs@),
{
    let mut size: usize = 6 + 1 + 1 + 21 + 1 + 1 + 21 + 1 + 1 + 1 + 17 + 17 + 1 + 1 + 1 + 1 + 1
        + short_message.len();
    let mut i: usize = 0;
    while i < tlvs.len()
        invariant
            i <= tlvs@.len(),
            94 + short_message@.len() + tlv_sizes(tlvs@) <= usize::MAX,
            size == 94 + short_message@.len() + tlv_sizes(tlvs@.take(i as int)),
        decreases tlvs@.len() - i,
    {
        proof {
            assert(tlvs@.take(i + 1).drop_last() =~= tlvs@.take(i as int));
            lemma_tlv_sizes_grow(tlvs@, i + 1);
        }
        size = size + tlvs[i].encoded_size();
        i = i + 1;
    }
    assert(tlvs@.take(i as int) =~= tlvs@);
    size
}

/// Writes the length of the message, the message and the parameters.
fn write_tail(
    buf: &mut BytesMut,
    short_message: &[u8],
    tlvs: &[Tlv],
    Ghost(start): Ghost<Seq<u8>>,
    Ghost(head): Ghost<Written>,
)
    requires
        head.ok(),
        wire::buffer_bytes(*old(buf)) == start + head.bytes,
    ensures
        ({
            let written = head.byte((short_message@.len() % 256) as u8).raw(short_message@).raw(
                tlv::tlv_bytes(tlv::tlv_views(tlvs@)),
            );
            &&& written.ok()
            &&& wire::buffer_bytes(*final(buf)) == start + written.bytes
        }),
{
    let len: u8 = (short_message.len() % 256) as u8;
    codec::write_byte(buf, len, Ghost(start), Ghost(head));
    let ghost w = head.byte(len);
    codec::write_raw(buf, short_message, Ghost(start), Ghost(w));
    let ghost w = w.raw(short_message@);
    let ghost views = tlv::tlv_views(tlvs@);
    let mut i: usize = 0;
    proof {
        assert(tlv::tlv_bytes(views.take(0)) =~= Seq::<u8>::empty());
        assert(w.bytes + tlv::tlv_bytes(views.take(0)) =~= w.bytes);
    }
    while i < tlvs.len()
        invariant
            i <= tlvs@.len(),
            w.ok(),
            views == tlv::tlv_views(tlvs@),
            wire::buffer_bytes(*buf) == start + (w.bytes + tlv::tlv_bytes(views.take(i as int))),
        decreases tlvs@.len() - i,
    {
        let ghost before = wire::buffer_bytes(*buf);
        let res = tlvs[i].encode(buf);
        proof {
            assert(views.take(i + 1).drop_last() =~= views.take(i as int));
            assert(views.take(i + 1).last() == tlvs@[i as int]@);
            assert(wire::buffer_bytes(*buf) =~= start + (w.bytes + tlv::tlv_bytes(
                views.take(i + 1),
            )));
        }
        i = i + 1;
    }
    assert(views.take(i as int) =~= views);
}

/// The fields of a message, to be written.
struct MessageRef<'a> {
    service_type: &'a str,
    source_addr_ton: u8,
    source_addr_npi: u8,
    source_addr: &'a str,
    dest_addr_ton: u8,
    dest_addr_npi: u8,
    destination_addr: &'a str,
    esm_class: u8,
    protocol_id: u8,
    priority_flag: u8,
    schedule_delivery_time: &'a str,
    validity_period: &'a str,
    registered_delivery: u8,
    replace_if_present_flag: u8,
    data_coding: u8,
    sm_default_msg_id: u8,
    short_message: &'a [u8],
    tlvs: &'a [Tlv],
}

impl<'a> MessageRef<'a> {
    spec fn fields(self) -> MessageFields {
        MessageFields {
            service_type: self.service_type@,
            source_addr_ton: self.source_addr_ton,
            source_addr_npi: self.source_addr_npi,
            source_addr: self.source_addr@,
            dest_addr_ton: self.dest_addr_ton,
            dest_addr_npi: self.dest_addr_npi,
            destination_addr: self.destination_addr@,
            esm_class: self.esm_class,
            protocol_id: self.protocol_id,
            priority_flag: self.priority_flag,
            schedule_delivery_time: self.schedule_delivery_time@,
            validity_period: self.validity_period@,
            registered_delivery: self.registered_delivery,
            replace_if_present_flag: self.replace_if_present_flag,
            data_coding: self.data_coding,
            sm_default_msg_id: self.sm_default_msg_id,
            short_message: self.short_message@,
            tlvs: tlv::tlv_views(self.tlvs@),
        }
    }

    /// Writes the message.
    fn encode(&self, buf: &mut BytesMut) -> (res: Result<(), CodecError>)
        ensures
            wire::buffer_bytes(*final(buf)) == wire::buffer_bytes(*old(buf))
                + self.fields().written().bytes,
            res is Ok <==> self.fields().written().ok(),
            res matches Err(e) ==> e.is_field(
                "cstring"@,
                codec::too_long_reason(self.fields().written().fault->0 as nat),
            ),
    {
        proof {
            reveal(MessageFields::head_written);
        }
        let ghost start = wire::buffer_bytes(*buf);
        let ghost w = Written::new();
        assert(start + w.bytes =~= start);
        match codec::write_string(buf, self.service_type, 6, Ghost(start), Ghost(w)) {
            Ok(_) => {},
            Err(e) => {
                return Err(e);
            },
        }
        let ghost w = w.string(self.service_type@, 6);
        codec::write_byte(buf, self.source_addr_ton, Ghost(start), Ghost(w));
        let ghost w = w.byte(self.source_addr_ton);
        codec::write_byte(buf, self.source_addr_npi, Ghost(start), Ghost(w));
        let ghost w = w.byte(self.source_addr_npi);
        match codec::write_string(buf, self.source_addr, 21, Ghost(start), Ghost(w)) {
            Ok(_) => {},
            Err(e) => {
                return Err(e);
            },
        }
        let ghost w = w.string(self.source_addr@, 21);
        codec::write_byte(buf, self.dest_addr_ton, Ghost(start), Ghost(w));
        let ghost w = w.byte(self.dest_addr_ton);
        codec::write_byte(buf, self.dest_addr_npi, Ghost(start), Ghost(w));
        let ghost w = w.byte(self.dest_addr_npi);
        match codec::write_string(buf, self.destination_addr, 21, Ghost(start), Ghost(w)) {
            Ok(_) => {},
            Err(e) => {
                return Err(e);
            },
        }
        let ghost w = w.string(self.destination_addr@, 21);
        codec::write_byte(buf, self.esm_class, Ghost(start), Ghost(w));
        let ghost w = w.byte(self.esm_class);
        codec::write_byte(buf, self.protocol_id, Ghost(start), Ghost(w));
        let ghost w = w.byte(self.protocol_id);
        codec::write_byte(buf, self.priority_flag, Ghost(start), Ghost(w));
        let ghost w = w.byte(self.priority_flag);
        match codec::write_string(buf, self.schedule_delivery_time, TIME_LENGTH, Ghost(start), Ghost(w)) {
            Ok(_) => {},
            Err(e) => {
                return Err(e);
            },
        }
        let ghost w = w.string(self.schedule_delivery_time@, TIME_LENGTH);
        match codec::write_string(buf, self.validity_period, TIME_LENGTH, Ghost(start), Ghost(w)) {
            Ok(_) => {},
            Err(e) => {
                return Err(e);
            },
        }
        let ghost w = w.string(self.validity_period@, TIME_LENGTH);
        codec::write_byte(buf, self.registered_delivery, Ghost(start), Ghost(w));
        let ghost w = w.byte(self.registered_delivery);
        codec::write_byte(buf, self.replace_if_present_flag, Ghost(start), Ghost(w));
        let ghost w = w.byte(self.replace_if_present_flag);
        codec::write_byte(buf, self.data_coding, Ghost(start), Ghost(w));
        let ghost w = w.byte(self.data_coding);
        codec::write_byte(buf, self.sm_default_msg_id, Ghost(start), Ghost(w));
        let ghost w = w.byte(self.sm_default_msg_id);
        assert(w == self.fields().head_written());
        write_tail(
            buf,
            self.short_message,
            self.tlvs,
            Ghost(start),
            Ghost(w),
        );
        Ok(())
    }
}

/// Submits a short message.
#[derive(Debug, Clone, PartialEq)]
pub struct SubmitSm {
    pub service_type: String,
    pub source_addr_ton: u8,
    pub source_addr_npi: u8,
    pub source_addr: String,
    pub dest_addr_ton: u8,
    pub dest_addr_npi: u8,
    pub destination_addr: String,
    pub esm_class: u8,
    pub protocol_id: u8,
    pub priority_flag: u8,
    pub schedule_delivery_time: String,
    pub validity_period: String,
    pub registered_delivery: u8,
    pub replace_if_present_flag: u8,
    pub data_coding: u8,
    pub sm_default_msg_id: u8,
    pub short_message: Vec<u8>,
    pub tlvs: Vec<Tlv>,
}

impl View for SubmitSm {
    type V = MessageFields;

    open spec fn view(&self) -> MessageFields {
        MessageFields {
            service_type: self.service_type@,
            source_addr_ton: self.source_addr_ton,
            source_addr_npi: self.source_addr_npi,
            source_addr: self.source_addr@,
            dest_addr_ton: self.dest_addr_ton,
            dest_addr_npi: self.dest_addr_npi,
            destination_addr: self.destination_addr@,
            esm_class: self.esm_class,
            protocol_id: self.protocol_id,
            priority_flag: self.priority_flag,
            schedule_delivery_time: self.schedule_delivery_time@,
            validity_period: self.validity_period@,
            registered_delivery: self.registered_delivery,
            replace_if_present_flag: self.replace_if_present_flag,
            data_coding: self.data_coding,
            sm_default_msg_id: self.sm_default_msg_id,
            short_message: self.short_message@,
            tlvs: tlv::tlv_views(self.tlvs@),
        }
    }
}

impl SubmitSm {
    /// The message of parts that were read.
    pub(crate) fn from_parts(parts: MessageParts) -> (sm: Self)
        ensures
            sm@ == parts.fields(),
    {
        SubmitSm {
            service_type: parts.service_type,
            source_addr_ton: parts.source_addr_ton,
            source_addr_npi: parts.source_addr_npi,
            source_addr: parts.source_addr,
            dest_addr_ton: parts.dest_addr_ton,
            dest_addr_npi: parts.dest_addr_npi,
            destination_addr: parts.destination_addr,
            esm_class: parts.esm_class,
            protocol_id: parts.protocol_id,
            priority_flag: parts.priority_flag,
            schedule_delivery_time: parts.schedule_delivery_time,
            validity_period: parts.validity_period,
            registered_delivery: parts.registered_delivery,
            replace_if_present_flag: parts.replace_if_present_flag,
            data_coding: parts.data_coding,
            sm_default_msg_id: parts.sm_default_msg_id,
            short_message: parts.short_message,
            tlvs: parts.tlvs,
        }
    }
}

impl Encodable for SubmitSm {
    open spec fn written(&self) -> Written {
        self@.written()
    }

    open spec fn size(&self) -> nat {
        94 + self.short_message@.len() + tlv_sizes(self.tlvs@)
    }

    fn encode(&self, buf: &mut BytesMut) -> Result<(), CodecError> {
        MessageRef {
            service_type: self.service_type.as_str(),
            source_addr_ton: self.source_addr_ton,
            source_addr_npi: self.source_addr_npi,
            source_addr: self.source_addr.as_str(),
            dest_addr_ton: self.dest_addr_ton,
            dest_addr_npi: self.dest_addr_npi,
            destination_addr: self.destination_addr.as_str(),
            esm_class: self.esm_class,
            protocol_id: self.protocol_id,
            priority_flag: self.priority_flag,
            schedule_delivery_time: self.schedule_delivery_time.as_str(),
            validity_period: self.validity_period.as_str(),
            registered_delivery: self.registered_delivery,
            replace_if_present_flag: self.replace_if_present_flag,
            data_coding: self.data_coding,
            sm_default_msg_id: self.sm_default_msg_id,
            short_message: self.short_message.as_slice(),
            tlvs: self.tlvs.as_slice(),
        }.encode(buf)
    }

    fn encoded_size(&self) -> usize {
        encoded_sm_size(self.short_message.as_slice(), self.tlvs.as_slice())
    }
}

impl Decodable for SubmitSm {
    open spec fn command() -> CommandId {
        CommandId::SUBMIT_SM
    }

    open spec fn end(body: Seq<u8>) -> Scan {
        MessageFields::end(body, MessageSizes::of(SmppVersion::V34))
    }

    open spec fn is_body(self, header: PduHeader, body: Seq<u8>) -> bool {
        self@ == MessageFields::read_exactly(body, MessageSizes::of(SmppVersion::V34))
    }

    fn decode(header: PduHeader, buf: &mut Cursor<&[u8]>) -> Result<Self, CodecError> {
        if header.command_id != CommandId::SUBMIT_SM {
            return Err(codec::command_mismatch());
        }
        match MessageParts::decode_exactly(buf, MessageSizes::in_version(SmppVersion::V34)) {
            Ok(parts) => Ok(SubmitSm::from_parts(parts)),
            Err(e) => Err(e.into_codec()),
        }
    }

    fn command_id() -> CommandId {
        CommandId::SUBMIT_SM
    }
}

impl SubmitSm {
    /// An empty message.
    pub fn new() -> (sm: Self)
        ensures
            sm@ == MessageFields::empty(),
    {
        let sm = SubmitSm {
            service_type: String::new(),
            source_addr_ton: 0,
            source_addr_npi: 0,
            source_addr: String::new(),
            dest_addr_ton: 0,
            dest_addr_npi: 0,
            destination_addr: String::new(),
            esm_class: 0,
            protocol_id: 0,
            priority_flag: 0,
            schedule_delivery_time: String::new(),
            validity_period: String::new(),
            registered_delivery: 0,
            replace_if_present_flag: 0,
            data_coding: 0,
            sm_default_msg_id: 0,
            short_message: Vec::new(),
            tlvs: Vec::new(),
        };
        assert(tlv::tlv_views(sm.tlvs@) =~= Seq::<TlvFields>::empty());
        sm
    }

    /// With addresses and a message.
    pub fn with_message(self, dest: &str, source: &str, message: &[u8]) -> (sm: Self)
        ensures
            sm@ == (MessageFields {
                destination_addr: dest@,
                source_addr: source@,
                short_message: message@,
                ..self@
            }),
    {
        let mut sm = self;
        sm.destination_addr = dest.to_owned();
        sm.source_addr = source.to_owned();
        sm.short_message = slice_to_vec(message);
        sm
    }
}

impl Default for SubmitSm {
    fn default() -> (sm: Self)
        ensures
            sm@ == MessageFields::empty(),
    {
        SubmitSm::new()
    }
}

impl MessageFields {
    /// A message with nothing in it.
    pub open spec fn empty() -> MessageFields {
        MessageFields {
            service_type: Seq::empty(),
            source_addr_ton: 0,
            source_addr_npi: 0,
            source_addr: Seq::empty(),
            dest_addr_ton: 0,
            dest_addr_npi: 0,
            destination_addr: Seq::empty(),
            esm_class: 0,
            protocol_id: 0,
            priority_flag: 0,
            schedule_delivery_time: Seq::empty(),
            validity_period: Seq::empty(),
            registered_delivery: 0,
            replace_if_present_flag: 0,
            data_coding: 0,
            sm_default_msg_id: 0,
            short_message: Seq::empty(),
            tlvs: Seq::empty(),
        }
    }
}

/// Delivers a short message, or a receipt for one.
#[derive(Debug, Clone, PartialEq)]
pub struct DeliverSm {
    pub service_type: String,
    pub source_addr_ton: u8,
    pub source_addr_npi: u8,
    pub source_addr: String,
    pub dest_addr_ton: u8,
    pub dest_addr_npi: u8,
    pub destination_addr: String,
    pub esm_class: u8,
    pub protocol_id: u8,
    pub priority_flag: u8,
    pub schedule_delivery_time: String,
    pub validity_period: String,
    pub registered_delivery: u8,
    pub replace_if_present_flag: u8,
    pub data_coding: u8,
    pub sm_default_msg_id: u8,
    pub short_message: Vec<u8>,
    pub tlvs: Vec<Tlv>,
}

impl View for DeliverSm {
    type V = MessageFields;

    open spec fn view(&self) -> MessageFields {
        MessageFields {
            service_type: self.service_type@,
            source_addr_ton: self.source_addr_ton,
            source_addr_npi: self.source_addr_npi,
            source_addr: self.source_addr@,
            dest_addr_ton: self.dest_addr_ton,
            dest_addr_npi: self.dest_addr_npi,
            destination_addr: self.destination_addr@,
            esm_class: self.esm_class,
            protocol_id: self.protocol_id,
            priority_flag: self.priority_flag,
            schedule_delivery_time: self.schedule_delivery_time@,
            validity_period: self.validity_period@,
            registered_delivery: self.registered_delivery,
            replace_if_present_flag: self.replace_if_present_flag,
            data_coding: self.data_coding,
            sm_default_msg_id: self.sm_default_msg_id,
            short_message: self.short_message@,
            tlvs: tlv::tlv_views(self.tlvs@),
        }
    }
}

impl DeliverSm {
    /// The message of parts that were read.
    pub(crate) fn from_parts(parts: MessageParts) -> (sm: Self)
        ensures
            sm@ == parts.fields(),
    {
        DeliverSm {
            service_type: parts.service_type,
            source_addr_ton: parts.source_addr_ton,
            source_addr_npi: parts.source_addr_npi,
            source_addr: parts.source_addr,
            dest_addr_ton: parts.dest_addr_ton,
            dest_addr_npi: parts.dest_addr_npi,
            destination_addr: parts.destination_addr,
            esm_class: parts.esm_class,
            protocol_id: parts.protocol_id,
            priority_flag: parts.priority_flag,
            schedule_delivery_time: parts.schedule_delivery_time,
            validity_period: parts.validity_period,
            registered_delivery: parts.registered_delivery,
            replace_if_present_flag: parts.replace_if_present_flag,
            data_coding: parts.data_coding,
            sm_default_msg_id: parts.sm_default_msg_id,
            short_message: parts.short_message,
            tlvs: parts.tlvs,
        }
    }
}

impl Encodable for DeliverSm {
    open spec fn written(&self) -> Written {
        self@.written()
    }

    open spec fn size(&self) -> nat {
        94 + self.short_message@.len() + tlv_sizes(self.tlvs@)
    }

    fn encode(&self, buf: &mut BytesMut) -> Result<(), CodecError> {
        MessageRef {
            service_type: self.service_type.as_str(),
            source_addr_ton: self.source_addr_ton,
            source_addr_npi: self.source_addr_npi,
            source_addr: self.source_addr.as_str(),
            dest_addr_ton: self.dest_addr_ton,
            dest_addr_npi: self.dest_addr_npi,
            destination_addr: self.destination_addr.as_str(),
            esm_class: self.esm_class,
            protocol_id: self.protocol_id,
            priority_flag: self.priority_flag,
            schedule_delivery_time: self.schedule_delivery_time.as_str(),
            validity_period: self.validity_period.as_str(),
            registered_delivery: self.registered_delivery,
            replace_if_present_flag: self.replace_if_present_flag,
            data_coding: self.data_coding,
            sm_default_msg_id: self.sm_default_msg_id,
            short_message: self.short_message.as_slice(),
            tlvs: self.tlvs.as_slice(),
        }.encode(buf)
    }

    fn encoded_size(&self) -> usize {
        encoded_sm_size(self.short_message.as_slice(), self.tlvs.as_slice())
    }
}

impl Decodable for DeliverSm {
    open spec fn command() -> CommandId {
        CommandId::DELIVER_SM
    }

    open spec fn end(body: Seq<u8>) -> Scan {
        MessageFields::end(body, MessageSizes::of(SmppVersion::V34))
    }

    open spec fn is_body(self, header: PduHeader, body: Seq<u8>) -> bool {
        self@ == MessageFields::read_exactly(body, MessageSizes::of(SmppVersion::V34))
    }

    fn decode(header: PduHeader, buf: &mut Cursor<&[u8]>) -> Result<Self, CodecError> {
        if header.command_id != CommandId::DELIVER_SM {
            return Err(codec::command_mismatch());
        }
        match MessageParts::decode_exactly(buf, MessageSizes::in_version(SmppVersion::V34)) {
            Ok(parts) => Ok(DeliverSm::from_parts(parts)),
            Err(e) => Err(e.into_codec()),
        }
    }

    fn command_id() -> CommandId {
        CommandId::DELIVER_SM
    }
}

/// The response to a submitted message.
#[derive(Debug, Clone, PartialEq)]
pub struct SubmitSmResp {
    pub message_id: String,
    /// The result, which goes into the header.
    pub command_status: u32,
}

impl Encodable for SubmitSmResp {
    open spec fn written(&self) -> Written {
        Written::new().string(self.message_id@, MESSAGE_ID_LENGTH)
    }

    open spec fn size(&self) -> nat {
        MESSAGE_ID_LENGTH as nat
    }

    fn encode(&self, buf: &mut BytesMut) -> Result<(), CodecError> {
        codec::encode_cstring(buf, self.message_id.as_str(), MESSAGE_ID_LENGTH)
    }

    fn encoded_size(&self) -> usize {
        MESSAGE_ID_LENGTH
    }
}

impl Decodable for SubmitSmResp {
    open spec fn command() -> CommandId {
        CommandId::SUBMIT_SM_RESP
    }

    open spec fn end(body: Seq<u8>) -> Scan {
        Scan::of(body).after_string(MESSAGE_ID_LENGTH as nat, "message_id"@)
    }

    open spec fn is_body(self, header: PduHeader, body: Seq<u8>) -> bool {
        self.message_id@ == Scan::of(body).string() && self.command_status == header.command_status.code()
    }

    fn decode(header: PduHeader, buf: &mut Cursor<&[u8]>) -> Result<Self, CodecError> {
        if header.command_id != CommandId::SUBMIT_SM_RESP {
            return Err(codec::command_mismatch());
        }
        match codec::decode_cstring(buf, MESSAGE_ID_LENGTH, "message_id") {
            Ok(message_id) => Ok(SubmitSmResp { message_id, command_status: header.command_status.as_u32() }),
            Err(e) => Err(e),
        }
    }

    fn command_id() -> CommandId {
        CommandId::SUBMIT_SM_RESP
    }
}

/// The response to a delivered message.
#[derive(Debug, Clone, PartialEq)]
pub struct DeliverSmResp {
    pub message_id: String,
}

impl Encodable for DeliverSmResp {
    open spec fn written(&self) -> Written {
        Written::new().string(self.message_id@, MESSAGE_ID_LENGTH)
    }

    open spec fn size(&self) -> nat {
        MESSAGE_ID_LENGTH as nat
    }

    fn encode(&self, buf: &mut BytesMut) -> Result<(), CodecError> {
        codec::encode_cstring(buf, self.message_id.as_str(), MESSAGE_ID_LENGTH)
    }

    fn encoded_size(&self) -> usize {
        MESSAGE_ID_LENGTH
    }
}

impl Decodable for DeliverSmResp {
    open spec fn command() -> CommandId {
        CommandId::DELIVER_SM_RESP
    }

    open spec fn end(body: Seq<u8>) -> Scan {
        Scan::of(body).after_string(MESSAGE_ID_LENGTH as nat, "message_id"@)
    }

    open spec fn is_body(self, header: PduHeader, body: Seq<u8>) -> bool {
        self.message_id@ == Scan::of(body).string()
    }

    fn decode(header: PduHeader, buf: &mut Cursor<&[u8]>) -> Result<Self, CodecError> {
        if header.command_id != CommandId::DELIVER_SM_RESP {
            return Err(codec::command_mismatch());
        }
        match codec::decode_cstring(buf, MESSAGE_ID_LENGTH, "message_id") {
            Ok(message_id) => Ok(DeliverSmResp { message_id }),
            Err(e) => Err(e),
        }
    }

    fn command_id() -> CommandId {
        CommandId::DELIVER_SM_RESP
    }
}

proof fn lemma_head_end(body: Seq<u8>, sizes: MessageSizes)
    ensures
        MessageFields::head_end(body, sizes) == MessageFields::scan(body, sizes, 16).after_byte(),
{
    lemma_scan(body, sizes);
}

/// The fields in front of a message, written and read back, are the fields, and what follows
/// them is left to read.
proof fn lemma_head_roundtrip(m: MessageFields, tail: Seq<u8>, version: SmppVersion)
    requires
        m.fits(),
    ensures
        ({
            let sizes = MessageSizes::of(version);
            let body = m.head_written().bytes + tail;
            &&& m.head_written().ok()
            &&& MessageFields::scan(body, sizes, 16) == Scan::of(tail)
            &&& MessageFields::read(body, sizes, m.short_message, m.tlvs) == m
        }),
{
    reveal(MessageFields::head_written);
    reveal(MessageFields::read);
    let sizes = MessageSizes::of(version);
    let t16 = tail;
    let t15 = seq![m.sm_default_msg_id] + t16;
    let t14 = seq![m.data_coding] + t15;
    let t13 = seq![m.replace_if_present_flag] + t14;
    let t12 = seq![m.registered_delivery] + t13;
    let t11 = cstring::cstring_bytes(m.validity_period) + t12;
    let t10 = cstring::cstring_bytes(m.schedule_delivery_time) + t11;
    let t9 = seq![m.priority_flag] + t10;
    let t8 = seq![m.protocol_id] + t9;
    let t7 = seq![m.esm_class] + t8;
    let t6 = cstring::cstring_bytes(m.destination_addr) + t7;
    let t5 = seq![m.dest_addr_npi] + t6;
    let t4 = seq![m.dest_addr_ton] + t5;
    let t3 = cstring::cstring_bytes(m.source_addr) + t4;
    let t2 = seq![m.source_addr_npi] + t3;
    let t1 = seq![m.source_addr_ton] + t2;
    let t0 = cstring::cstring_bytes(m.service_type) + t1;
    let w0 = Written::new();
    let w1 = w0.string(m.service_type, 6);
    let w2 = w1.byte(m.source_addr_ton);
    let w3 = w2.byte(m.source_addr_npi);
    let w4 = w3.string(m.source_addr, 21);
    let w5 = w4.byte(m.dest_addr_ton);
    let w6 = w5.byte(m.dest_addr_npi);
    let w7 = w6.string(m.destination_addr, 21);
    let w8 = w7.byte(m.esm_class);
    let w9 = w8.byte(m.protocol_id);
    let w10 = w9.byte(m.priority_flag);
    let w11 = w10.string(m.schedule_delivery_time, TIME_LENGTH);
    let w12 = w11.string(m.validity_period, TIME_LENGTH);
    let w13 = w12.byte(m.registered_delivery);
    let w14 = w13.byte(m.replace_if_present_flag);
    let w15 = w14.byte(m.data_coding);
    let w16 = w15.byte(m.sm_default_msg_id);
    grammar::lemma_new(t0);
    grammar::lemma_then_string(w0, m.service_type, 6, t1);
    grammar::lemma_then_byte(w1, m.source_addr_ton, t2);
    grammar::lemma_then_byte(w2, m.source_addr_npi, t3);
    grammar::lemma_then_string(w3, m.source_addr, 21, t4);
    grammar::lemma_then_byte(w4, m.dest_addr_ton, t5);
    grammar::lemma_then_byte(w5, m.dest_addr_npi, t6);
    grammar::lemma_then_string(w6, m.destination_addr, 21, t7);
    grammar::lemma_then_byte(w7, m.esm_class, t8);
    grammar::lemma_then_byte(w8, m.protocol_id, t9);
    grammar::lemma_then_byte(w9, m.priority_flag, t10);
    grammar::lemma_then_string(w10, m.schedule_delivery_time, TIME_LENGTH, t11);
    grammar::lemma_then_string(w11, m.validity_period, TIME_LENGTH, t12);
    grammar::lemma_then_byte(w12, m.registered_delivery, t13);
    grammar::lemma_then_byte(w13, m.replace_if_present_flag, t14);
    grammar::lemma_then_byte(w14, m.data_coding, t15);
    grammar::lemma_then_byte(w15, m.sm_default_msg_id, t16);
    let body = m.head_written().bytes + tail;
    assert(body == t0);
    lemma_scan(body, sizes);
    grammar::lemma_read_string(m.service_type, sizes.service_type as nat, "service_type"@, t1);
    grammar::lemma_read_byte(m.source_addr_ton, t2);
    grammar::lemma_read_byte(m.source_addr_npi, t3);
    grammar::lemma_read_string(m.source_addr, sizes.source_addr as nat, "source_addr"@, t4);
    grammar::lemma_read_byte(m.dest_addr_ton, t5);
    grammar::lemma_read_byte(m.dest_addr_npi, t6);
    grammar::lemma_read_string(m.destination_addr, sizes.destination_addr as nat, "destination_addr"@, t7);
    grammar::lemma_read_byte(m.esm_class, t8);
    grammar::lemma_read_byte(m.protocol_id, t9);
    grammar::lemma_read_byte(m.priority_flag, t10);
    grammar::lemma_read_string(m.schedule_delivery_time, TIME_LENGTH as nat, "schedule_delivery_time"@, t11);
    grammar::lemma_read_string(m.validity_period, TIME_LENGTH as nat, "validity_period"@, t12);
    grammar::lemma_read_byte(m.registered_delivery, t13);
    grammar::lemma_read_byte(m.replace_if_present_flag, t14);
    grammar::lemma_read_byte(m.data_coding, t15);
    grammar::lemma_read_byte(m.sm_default_msg_id, t16);
}

/// A message whose fields fit, of at most 255 bytes and with whole parameters, written and read
/// back by a peer of any version, is the message, and nothing is left to read.
pub proof fn law_message_roundtrip(m: MessageFields, version: SmppVersion)
    requires
        m.fits(),
    ensures
        ({
            let sizes = MessageSizes::of(version);
            let body = m.written().bytes;
            &&& m.written().ok()
            &&& MessageFields::end(body, sizes) == Scan::of(Seq::empty())
            &&& MessageFields::read_exactly(body, sizes) == m
            &&& MessageFields::head_end(body, sizes).ok()
            &&& MessageFields::read_leniently(body, sizes) == m
        }),
{
    let sizes = MessageSizes::of(version);
    let params = tlv::tlv_bytes(m.tlvs);
    let len = m.short_message.len() as u8;
    let c = m.short_message + params;
    let b = seq![len] + c;
    let w = m.head_written();
    lemma_head_roundtrip(m, b, version);
    grammar::lemma_then_byte(w, len, c);
    grammar::lemma_then_raw(w.byte(len), m.short_message, params);
    let body = m.written().bytes;
    assert(w.byte(len).raw(m.short_message).raw(params).bytes == w.byte(len).raw(
        m.short_message,
    ).bytes + params);
    assert(body == w.bytes + b);
    lemma_head_end(body, sizes);
    grammar::lemma_read_byte(len, c);
    assert(c.take(len as int) =~= m.short_message);
    assert(c.skip(len as int) =~= params);
    tlv::law_tlv_series_roundtrip(m.tlvs);
}

/// A message takes at least as many bytes as it has fields.
pub proof fn lemma_message_len(m: MessageFields)
    requires
        m.fits(),
    ensures
        m.written().bytes.len() >= 17,
{
    reveal(MessageFields::head_written);
}

/// The id in a response, written and read back, is the id, and what follows it is left to read.
pub proof fn law_message_id_roundtrip(id: Seq<char>, tail: Seq<u8>)
    requires
        grammar::fits(id, MESSAGE_ID_LENGTH as nat),
    ensures
        ({
            let body = Written::new().string(id, MESSAGE_ID_LENGTH).bytes + tail;
            &&& Written::new().string(id, MESSAGE_ID_LENGTH).ok()
            &&& Scan::of(body).string() == id
            &&& Scan::of(body).after_string(MESSAGE_ID_LENGTH as nat, "message_id"@) == Scan::of(
                tail,
            )
        }),
{
    grammar::lemma_then_string(Written::new(), id, MESSAGE_ID_LENGTH, tail);
    grammar::lemma_new(cstring::cstring_bytes(id) + tail);
    grammar::lemma_read_string(id, MESSAGE_ID_LENGTH as nat, "message_id"@, tail);
}

/// A message can be written if the kind of service has at most 5 bytes, each number 20, and each
/// time 16.
pub proof fn law_message_can_be_written(m: MessageFields)
    ensures
        m.written().ok() <==> encode_utf8(m.service_type).len() <= 5 && encode_utf8(
            m.source_addr,
        ).len() <= 20 && encode_utf8(m.destination_addr).len() <= 20 && encode_utf8(
            m.schedule_delivery_time,
        ).len() <= 16 && encode_utf8(m.validity_period).len() <= 16,
{
    reveal(MessageFields::head_written);
}

/// A message on the wire, field by field in this order; every string ends in a zero. The length of
/// the text is in the byte in front of it.
pub proof fn law_message_on_wire(m: MessageFields)
    requires
        m.written().ok(),
    ensures
        ({
            let t16 = seq![(m.short_message.len() % 256) as u8] + (m.short_message + tlv::tlv_bytes(
                m.tlvs,
            ));
            let t15 = seq![m.sm_default_msg_id] + t16;
            let t14 = seq![m.data_coding] + t15;
            let t13 = seq![m.replace_if_present_flag] + t14;
            let t12 = seq![m.registered_delivery] + t13;
            let t11 = (encode_utf8(m.validity_period) + seq![0u8]) + t12;
            let t10 = (encode_utf8(m.schedule_delivery_time) + seq![0u8]) + t11;
            let t9 = seq![m.priority_flag] + t10;
            let t8 = seq![m.protocol_id] + t9;
            let t7 = seq![m.esm_class] + t8;
            let t6 = (encode_utf8(m.destination_addr) + seq![0u8]) + t7;
            let t5 = seq![m.dest_addr_npi] + t6;
            let t4 = seq![m.dest_addr_ton] + t5;
            let t3 = (encode_utf8(m.source_addr) + seq![0u8]) + t4;
            let t2 = seq![m.source_addr_npi] + t3;
            let t1 = seq![m.source_addr_ton] + t2;
            let t0 = (encode_utf8(m.service_type) + seq![0u8]) + t1;
            m.written().bytes == t0
        }),
{
    law_message_can_be_written(m);
    let len = (m.short_message.len() % 256) as u8;
    let params = tlv::tlv_bytes(m.tlvs);
    let c = m.short_message + params;
    let t16 = seq![len] + c;
    let t15 = seq![m.sm_default_msg_id] + t16;
    let t14 = seq![m.data_coding] + t15;
    let t13 = seq![m.replace_if_present_flag] + t14;
    let t12 = seq![m.registered_delivery] + t13;
    let t11 = (encode_utf8(m.validity_period) + seq![0u8]) + t12;
    let t10 = (encode_utf8(m.schedule_delivery_time) + seq![0u8]) + t11;
    let t9 = seq![m.priority_flag] + t10;
    let t8 = seq![m.protocol_id] + t9;
    let t7 = seq![m.esm_class] + t8;
    let t6 = (encode_utf8(m.destination_addr) + seq![0u8]) + t7;
    let t5 = seq![m.dest_addr_npi] + t6;
    let t4 = seq![m.dest_addr_ton] + t5;
    let t3 = (encode_utf8(m.source_addr) + seq![0u8]) + t4;
    let t2 = seq![m.source_addr_npi] + t3;
    let t1 = seq![m.source_addr_ton] + t2;
    let t0 = (encode_utf8(m.service_type) + seq![0u8]) + t1;
    let w0 = Written::new();
    let w1 = w0.string(m.service_type, 6);
    let w2 = w1.byte(m.source_addr_ton);
    let w3 = w2.byte(m.source_addr_npi);
    let w4 = w3.string(m.source_addr, 21);
    let w5 = w4.byte(m.dest_addr_ton);
    let w6 = w5.byte(m.dest_addr_npi);
    let w7 = w6.string(m.destination_addr, 21);
    let w8 = w7.byte(m.esm_class);
    let w9 = w8.byte(m.protocol_id);
    let w10 = w9.byte(m.priority_flag);
    let w11 = w10.string(m.schedule_delivery_time, 17);
    let w12 = w11.string(m.validity_period, 17);
    let w13 = w12.byte(m.registered_delivery);
    let w14 = w13.byte(m.replace_if_present_flag);
    let w15 = w14.byte(m.data_coding);
    let w16 = w15.byte(m.sm_default_msg_id);
    reveal(MessageFields::head_written);
    grammar::lemma_new(t0);
    assert(cstring::cstring_bytes(m.service_type) =~= encode_utf8(m.service_type) + seq![0u8]);
    grammar::lemma_then_string(w0, m.service_type, 6, t1);
    grammar::lemma_then_byte(w1, m.source_addr_ton, t2);
    grammar::lemma_then_byte(w2, m.source_addr_npi, t3);
    assert(cstring::cstring_bytes(m.source_addr) =~= encode_utf8(m.source_addr) + seq![0u8]);
    grammar::lemma_then_string(w3, m.source_addr, 21, t4);
    grammar::lemma_then_byte(w4, m.dest_addr_ton, t5);
    grammar::lemma_then_byte(w5, m.dest_addr_npi, t6);
    assert(cstring::cstring_bytes(m.destination_addr) =~= encode_utf8(m.destination_addr) + seq![0u8]);
    grammar::lemma_then_string(w6, m.destination_addr, 21, t7);
    grammar::lemma_then_byte(w7, m.esm_class, t8);
    grammar::lemma_then_byte(w8, m.protocol_id, t9);
    grammar::lemma_then_byte(w9, m.priority_flag, t10);
    assert(cstring::cstring_bytes(m.schedule_delivery_time) =~= encode_utf8(m.schedule_delivery_time) + seq![0u8]);
    grammar::lemma_then_string(w10, m.schedule_delivery_time, 17, t11);
    assert(cstring::cstring_bytes(m.validity_period) =~= encode_utf8(m.validity_period) + seq![0u8]);
    grammar::lemma_then_string(w11, m.validity_period, 17, t12);
    grammar::lemma_then_byte(w12, m.registered_delivery, t13);
    grammar::lemma_then_byte(w13, m.replace_if_present_flag, t14);
    grammar::lemma_then_byte(w14, m.data_coding, t15);
    grammar::lemma_then_byte(w15, m.sm_default_msg_id, t16);
    grammar::lemma_then_byte(w16, len, c);
    grammar::lemma_then_raw(w16.byte(len), m.short_message, params);
    assert(w16.byte(len).raw(m.short_message).raw(params).bytes == w16.byte(len).raw(
        m.short_message,
    ).bytes + params);
}

/// An id on the wire ends in a zero; it can be written if it has at most 64 bytes.
pub proof fn law_message_id_on_wire(id: Seq<char>)
    ensures
        Written::new().string(id, MESSAGE_ID_LENGTH).ok() <==> encode_utf8(id).len() <= 64,
        encode_utf8(id).len() <= 64 ==> Written::new().string(id, MESSAGE_ID_LENGTH).bytes
            == encode_utf8(id) + seq![0u8],
{
    assert(encode_utf8(id).len() <= 64 ==> Written::new().string(id, MESSAGE_ID_LENGTH).bytes
        =~= encode_utf8(id) + seq![0u8]);
}

proof fn lemma_fault_stays(body: Seq<u8>, sizes: MessageSizes, k: nat, n: nat)
    requires
        k <= n,
        !MessageFields::scan(body, sizes, k).ok(),
    ensures
        MessageFields::scan(body, sizes, n) == MessageFields::scan(body, sizes, k),
    decreases n,
{
    reveal_with_fuel(MessageFields::scan, 2);
    if k < n {
        lemma_fault_stays(body, sizes, k, (n - 1) as nat);
    }
}

/// What the fields in front of a message are read as: strings that leave room for a zero in their
/// fields, and bytes, one after the other; then comes the length of the message. A string that is
/// longer makes the message unreadable.
pub proof fn law_message_head_is_read(
    sizes: MessageSizes,
    service_type: Seq<u8>,
    source_addr_ton: u8,
    source_addr_npi: u8,
    source_addr: Seq<u8>,
    dest_addr_ton: u8,
    dest_addr_npi: u8,
    destination_addr: Seq<u8>,
    esm_class: u8,
    protocol_id: u8,
    priority_flag: u8,
    schedule_delivery_time: Seq<u8>,
    validity_period: Seq<u8>,
    registered_delivery: u8,
    replace_if_present_flag: u8,
    data_coding: u8,
    sm_default_msg_id: u8,
    len: u8,
    tail: Seq<u8>,
    short_message: Seq<u8>,
    tlvs: Seq<TlvFields>,
)
    requires
        !service_type.contains(0),
        !source_addr.contains(0),
        !destination_addr.contains(0),
        !schedule_delivery_time.contains(0),
        !validity_period.contains(0),
    ensures
        ({
            let from_len = seq![len] + tail;
            let from_sm_default_msg_id = seq![sm_default_msg_id] + from_len;
            let from_data_coding = seq![data_coding] + from_sm_default_msg_id;
            let from_replace_if_present_flag = seq![replace_if_present_flag] + from_data_coding;
            let from_registered_delivery = seq![registered_delivery] + from_replace_if_present_flag;
            let from_validity_period = validity_period + seq![0u8] + from_registered_delivery;
            let from_schedule_delivery_time = schedule_delivery_time + seq![0u8] + from_validity_period;
            let from_priority_flag = seq![priority_flag] + from_schedule_delivery_time;
            let from_protocol_id = seq![protocol_id] + from_priority_flag;
            let from_esm_class = seq![esm_class] + from_protocol_id;
            let from_destination_addr = destination_addr + seq![0u8] + from_esm_class;
            let from_dest_addr_npi = seq![dest_addr_npi] + from_destination_addr;
            let from_dest_addr_ton = seq![dest_addr_ton] + from_dest_addr_npi;
            let from_source_addr = source_addr + seq![0u8] + from_dest_addr_ton;
            let from_source_addr_npi = seq![source_addr_npi] + from_source_addr;
            let from_source_addr_ton = seq![source_addr_ton] + from_source_addr_npi;
            let body = service_type + seq![0u8] + from_source_addr_ton;
            &&& MessageFields::head_end(body, sizes).ok() <==> service_type.len() < sizes.service_type && source_addr.len() < sizes.source_addr && destination_addr.len() < sizes.destination_addr && schedule_delivery_time.len() < 17 && validity_period.len() < 17
            &&& service_type.len() >= sizes.service_type ==> MessageFields::head_end(body, sizes).fault == Some(
                grammar::Fault::TooLong { field: "service_type"@, max_len: sizes.service_type as nat },
            )
            &&& service_type.len() < sizes.service_type && source_addr.len() >= sizes.source_addr ==> MessageFields::head_end(body, sizes).fault == Some(
                grammar::Fault::TooLong { field: "source_addr"@, max_len: sizes.source_addr as nat },
            )
            &&& service_type.len() < sizes.service_type && source_addr.len() < sizes.source_addr && destination_addr.len() >= sizes.destination_addr ==> MessageFields::head_end(body, sizes).fault == Some(
                grammar::Fault::TooLong { field: "destination_addr"@, max_len: sizes.destination_addr as nat },
            )
            &&& service_type.len() < sizes.service_type && source_addr.len() < sizes.source_addr && destination_addr.len() < sizes.destination_addr && schedule_delivery_time.len() >= 17 ==> MessageFields::head_end(body, sizes).fault == Some(
                grammar::Fault::TooLong { field: "schedule_delivery_time"@, max_len: 17 },
            )
            &&& service_type.len() < sizes.service_type && source_addr.len() < sizes.source_addr && destination_addr.len() < sizes.destination_addr && schedule_delivery_time.len() < 17 && validity_period.len() >= 17 ==> MessageFields::head_end(body, sizes).fault == Some(
                grammar::Fault::TooLong { field: "validity_period"@, max_len: 17 },
            )
            &&& MessageFields::head_end(body, sizes).ok() ==> {
                let read = MessageFields::read(body, sizes, short_message, tlvs);
                &&& MessageFields::head_end(body, sizes) == Scan::of(tail)
                &&& MessageFields::message_len(body, sizes) == len
                &&& read.service_type == text::lossy_chars(service_type)
                &&& read.source_addr_ton == source_addr_ton
                &&& read.source_addr_npi == source_addr_npi
                &&& read.source_addr == text::lossy_chars(source_addr)
                &&& read.dest_addr_ton == dest_addr_ton
                &&& read.dest_addr_npi == dest_addr_npi
                &&& read.destination_addr == text::lossy_chars(destination_addr)
                &&& read.esm_class == esm_class
                &&& read.protocol_id == protocol_id
                &&& read.priority_flag == priority_flag
                &&& read.schedule_delivery_time == text::lossy_chars(schedule_delivery_time)
                &&& read.validity_period == text::lossy_chars(validity_period)
                &&& read.registered_delivery == registered_delivery
                &&& read.replace_if_present_flag == replace_if_present_flag
                &&& read.data_coding == data_coding
                &&& read.sm_default_msg_id == sm_default_msg_id
                &&& read.short_message == short_message
                &&& read.tlvs == tlvs
            }
        }),
{
    let from_len = seq![len] + tail;
    let from_sm_default_msg_id = seq![sm_default_msg_id] + from_len;
    let from_data_coding = seq![data_coding] + from_sm_default_msg_id;
    let from_replace_if_present_flag = seq![replace_if_present_flag] + from_data_coding;
    let from_registered_delivery = seq![registered_delivery] + from_replace_if_present_flag;
    let from_validity_period = validity_period + seq![0u8] + from_registered_delivery;
    let from_schedule_delivery_time = schedule_delivery_time + seq![0u8] + from_validity_period;
    let from_priority_flag = seq![priority_flag] + from_schedule_delivery_time;
    let from_protocol_id = seq![protocol_id] + from_priority_flag;
    let from_esm_class = seq![esm_class] + from_protocol_id;
    let from_destination_addr = destination_addr + seq![0u8] + from_esm_class;
    let from_dest_addr_npi = seq![dest_addr_npi] + from_destination_addr;
    let from_dest_addr_ton = seq![dest_addr_ton] + from_dest_addr_npi;
    let from_source_addr = source_addr + seq![0u8] + from_dest_addr_ton;
    let from_source_addr_npi = seq![source_addr_npi] + from_source_addr;
    let from_source_addr_ton = seq![source_addr_ton] + from_source_addr_npi;
    let body = service_type + seq![0u8] + from_source_addr_ton;
    lemma_scan(body, sizes);
    reveal(MessageFields::read);
    grammar::law_string_by_bytes(service_type, sizes.service_type as nat, "service_type"@, from_source_addr_ton);
    if service_type.len() >= sizes.service_type {
        lemma_fault_stays(body, sizes, 1, 17);
    } else {
        assert(MessageFields::scan(body, sizes, 1) == Scan::of(from_source_addr_ton));
        grammar::lemma_read_byte(source_addr_ton, from_source_addr_npi);
        assert(MessageFields::scan(body, sizes, 2) == Scan::of(from_source_addr_npi));
        grammar::lemma_read_byte(source_addr_npi, from_source_addr);
        assert(MessageFields::scan(body, sizes, 3) == Scan::of(from_source_addr));
        grammar::law_string_by_bytes(source_addr, sizes.source_addr as nat, "source_addr"@, from_dest_addr_ton);
        if source_addr.len() >= sizes.source_addr {
            lemma_fault_stays(body, sizes, 4, 17);
        } else {
            assert(MessageFields::scan(body, sizes, 4) == Scan::of(from_dest_addr_ton));
            grammar::lemma_read_byte(dest_addr_ton, from_dest_addr_npi);
            assert(MessageFields::scan(body, sizes, 5) == Scan::of(from_dest_addr_npi));
            grammar::lemma_read_byte(dest_addr_npi, from_destination_addr);
            assert(MessageFields::scan(body, sizes, 6) == Scan::of(from_destination_addr));
            grammar::law_string_by_bytes(destination_addr, sizes.destination_addr as nat, "destination_addr"@, from_esm_class);
            if destination_addr.len() >= sizes.destination_addr {
                lemma_fault_stays(body, sizes, 7, 17);
            } else {
                assert(MessageFields::scan(body, sizes, 7) == Scan::of(from_esm_class));
                grammar::lemma_read_byte(esm_class, from_protocol_id);
                assert(MessageFields::scan(body, sizes, 8) == Scan::of(from_protocol_id));
                grammar::lemma_read_byte(protocol_id, from_priority_flag);
                assert(MessageFields::scan(body, sizes, 9) == Scan::of(from_priority_flag));
                grammar::lemma_read_byte(priority_flag, from_schedule_delivery_time);
                assert(MessageFields::scan(body, sizes, 10) == Scan::of(from_schedule_delivery_time));
                grammar::law_string_by_bytes(schedule_delivery_time, 17 as nat, "schedule_delivery_time"@, from_validity_period);
                if schedule_delivery_time.len() >= 17 {
                    lemma_fault_stays(body, sizes, 11, 17);
                } else {
                    assert(MessageFields::scan(body, sizes, 11) == Scan::of(from_validity_period));
                    grammar::law_string_by_bytes(validity_period, 17 as nat, "validity_period"@, from_registered_delivery);
                    if validity_period.len() >= 17 {
                        lemma_fault_stays(body, sizes, 12, 17);
                    } else {
                        assert(MessageFields::scan(body, sizes, 12) == Scan::of(from_registered_delivery));
                        grammar::lemma_read_byte(registered_delivery, from_replace_if_present_flag);
                        assert(MessageFields::scan(body, sizes, 13) == Scan::of(from_replace_if_present_flag));
                        grammar::lemma_read_byte(replace_if_present_flag, from_data_coding);
                        assert(MessageFields::scan(body, sizes, 14) == Scan::of(from_data_coding));
                        grammar::lemma_read_byte(data_coding, from_sm_default_msg_id);
                        assert(MessageFields::scan(body, sizes, 15) == Scan::of(from_sm_default_msg_id));
                        grammar::lemma_read_byte(sm_default_msg_id, from_len);
                        assert(MessageFields::scan(body, sizes, 16) == Scan::of(from_len));
                        grammar::lemma_read_byte(len, tail);
                        assert(MessageFields::scan(body, sizes, 17) == Scan::of(tail));
                    }
                }
            }
        }
    }
}

/// What stands behind the length: the message and then its parameters. A message that is not all
/// there cannot be read, or is taken as empty and without parameters.
pub proof fn law_message_behind_head(body: Seq<u8>, sizes: MessageSizes)
    requires
        MessageFields::head_end(body, sizes).ok(),
    ensures
        ({
            let rest = MessageFields::head_end(body, sizes).rest;
            let len = MessageFields::message_len(body, sizes) as int;
            let lenient = MessageFields::read_leniently(body, sizes);
            &&& MessageFields::end(body, sizes).ok() <==> rest.len() >= len
            &&& rest.len() >= len ==> {
                let exact = MessageFields::read_exactly(body, sizes);
                &&& exact.short_message == rest.subrange(0, len)
                &&& exact.tlvs == TlvFields::series(rest.subrange(len, rest.len() as int))
                &&& lenient.short_message == rest.subrange(0, len)
                &&& lenient.tlvs == TlvFields::series(rest.subrange(len, rest.len() as int))
            }
            &&& rest.len() < len ==> lenient.short_message.len() == 0 && lenient.tlvs.len() == 0
        }),
{
    reveal(MessageFields::read);
    let rest = MessageFields::head_end(body, sizes).rest;
    let len = MessageFields::message_len(body, sizes) as int;
    if rest.len() >= len {
        assert(rest.take(len) =~= rest.subrange(0, len));
        assert(rest.skip(len) =~= rest.subrange(len, rest.len() as int));
    }
}

/// A message that is read as a body of its own is one of version 3.4, with at most 5, 20 and 20
/// bytes for the service and the addresses; a response has at most 64 bytes for the id, and the
/// status of its header.
pub proof fn law_message_limits(body: Seq<u8>, header: PduHeader)
    ensures
        ({
            let sizes = MessageSizes { service_type: 6, source_addr: 21, destination_addr: 21 };
            &&& SubmitSm::end(body) == MessageFields::end(body, sizes)
            &&& DeliverSm::end(body) == MessageFields::end(body, sizes)
            &&& forall|sm: SubmitSm| #[trigger]
                sm.is_body(header, body) ==> sm@ == MessageFields::read_exactly(body, sizes)
            &&& forall|sm: DeliverSm| #[trigger]
                sm.is_body(header, body) ==> sm@ == MessageFields::read_exactly(body, sizes)
        }),
        SubmitSmResp::end(body) == Scan::of(body).after_string(65, "message_id"@),
        DeliverSmResp::end(body) == Scan::of(body).after_string(65, "message_id"@),
        forall|r: SubmitSmResp| #[trigger]
            r.is_body(header, body) ==> r.command_status == header.command_status.code()
                && r.message_id@ == Scan::of(body).string(),
        forall|r: DeliverSmResp| #[trigger]
            r.is_body(header, body) ==> r.message_id@ == Scan::of(body).string(),
{
}

/// The room that parameters take is that of each of them.
pub proof fn law_room_for_parameters(tlvs: Seq<Tlv>, last: Tlv)
    ensures
        tlv_sizes(Seq::empty()) == 0,
        tlv_sizes(tlvs.push(last)) == tlv_sizes(tlvs) + last.size(),
{
    assert(tlvs.push(last).drop_last() =~= tlvs);
}

/// A message with nothing in it: every text and the content are empty, and every number is 0.
pub proof fn law_empty_message(sm: SubmitSm)
    requires
        call_ensures(SubmitSm::new, (), sm),
    ensures
        sm.service_type@.len() == 0,
        sm.source_addr@.len() == 0,
        sm.destination_addr@.len() == 0,
        sm.schedule_delivery_time@.len() == 0,
        sm.validity_period@.len() == 0,
        sm.short_message@.len() == 0,
        sm.tlvs@.len() == 0,
        sm.source_addr_ton == 0,
        sm.source_addr_npi == 0,
        sm.dest_addr_ton == 0,
        sm.dest_addr_npi == 0,
        sm.esm_class == 0,
        sm.protocol_id == 0,
        sm.priority_flag == 0,
        sm.registered_delivery == 0,
        sm.replace_if_present_flag == 0,
        sm.data_coding == 0,
        sm.sm_default_msg_id == 0,
{
    assert(sm@ == MessageFields::empty());
    assert(sm@.tlvs.len() == sm.tlvs@.len());
}

} // verus!
