//! Between SMPP and the protocol neutral model.

use crate::error::RsmsError;
use crate::frame::Frame;
use crate::longmsg::frame as longmsg_frame;
use crate::model;
use crate::model::{
    Address, AddressModel, BindMode, Concat, DeliveryStatus, Encoding, ExtraModel, MessageId,
    MessageIdModel, ProtocolAdapter, ProtocolExtra, Sequence, SmppExtra, SmppExtraModel, TlvModel,
    Unified, UnifiedBind, UnifiedBindModel, UnifiedBindResp, UnifiedDeliver, UnifiedDeliverModel,
    UnifiedMessage, UnifiedReport, UnifiedReportModel, UnifiedSubmit, UnifiedSubmitModel,
    UnifiedSubmitResp, UnifiedSubmitRespModel,
};
use crate::protocol::Protocol;
use crate::smpp::datatypes::bind::{
    BindFields, BindReceiver, BindRespFields, BindTransceiver, BindTransceiverResp,
    BindTransmitter,
};
use crate::smpp::datatypes::command_id::CommandId;
use crate::smpp::datatypes::link::{EnquireLink, EnquireLinkResp, Unbind, UnbindResp};
use crate::smpp::datatypes::short_message::{
    DeliverSm, DeliverSmResp, MessageFields, SubmitSm, SubmitSmResp,
};
use crate::smpp::datatypes::tlv;
use crate::smpp::datatypes::tlv::{Tlv, TlvFields};
use crate::smpp::grammar;
use crate::smpp::message;
use crate::smpp::message::{Message, SmppMessage};
use crate::smpp::pdu;
use crate::smpp::pdu::Pdu;
use crate::text;
use crate::wire;
use vstd::prelude::*;
use vstd::slice::{slice_subrange, slice_to_vec};
use vstd::string::*;
use vstd::utf8::*;

verus! {

/// The adapter of SMPP.
pub struct SmppAdapter;

/// The optional parameter with the id that a receipt is for.
pub const RECEIPTED_MESSAGE_ID: u16 = 0x001E;

/// The alphabet that a data coding stands for. 0x08 is the standard number of UCS-2; 0x10 is
/// taken for it as well, as some gateways use it.
pub open spec fn encoding_of(dcs: u8) -> Encoding {
    if dcs == 0x00 {
        Encoding::Gsm7
    } else if dcs == 0x01 {
        Encoding::Ascii
    } else if dcs == 0x02 {
        Encoding::Binary
    } else if dcs == 0x08 || dcs == 0x10 {
        Encoding::Ucs2
    } else {
        Encoding::Other(dcs)
    }
}

/// The data coding of an alphabet. SMPP has none for GBK, which goes out as the default.
pub open spec fn dcs_of(encoding: Encoding) -> u8 {
    match encoding {
        Encoding::Gsm7 => 0x00,
        Encoding::Ascii => 0x01,
        Encoding::Binary => 0x02,
        Encoding::Ucs2 => 0x08,
        Encoding::Gbk => 0x00,
        Encoding::Other(v) => v,
    }
}

/// Parameters as the model has them.
pub open spec fn unified_tlvs(tlvs: Seq<TlvFields>) -> Seq<TlvModel> {
    Seq::new(tlvs.len(), |i: int| TlvModel { tag: tlvs[i].tag, value: tlvs[i].value })
}

/// Parameters as SMPP has them.
pub open spec fn smpp_tlvs(tlvs: Seq<TlvModel>) -> Seq<TlvFields> {
    Seq::new(tlvs.len(), |i: int| TlvFields::of(tlvs[i].tag, tlvs[i].value))
}

/// A message parted from its concatenation header, if its class says that it has a header and
/// it does.
pub open spec fn parted(esm_class: u8, content: Seq<u8>) -> (Option<Concat>, Seq<u8>) {
    if esm_class & 0x40 != 0 {
        match Concat::of_udh(content) {
            Some((concat, len)) => (Some(concat), content.skip(len as int)),
            None => (None, content),
        }
    } else {
        (None, content)
    }
}

/// A message with its concatenation header in front, if it has one, and the class that says so.
pub open spec fn headed(concat: Option<Concat>, content: Seq<u8>, esm_class: u8) -> (Seq<u8>, u8) {
    match concat {
        Some(c) => (c.prefix() + content, esm_class | 0x40),
        None => (content, esm_class),
    }
}

/// A number with its type and plan.
pub open spec fn full_address(number: Seq<char>, ton: u8, npi: u8) -> AddressModel {
    AddressModel { number, ton: Some(ton), npi: Some(npi) }
}

/// A value, or zero.
pub open spec fn or_zero(value: Option<u8>) -> u8 {
    match value {
        Some(v) => v,
        None => 0,
    }
}

/// The value of the first parameter with a tag.
pub open spec fn first_tlv(tlvs: Seq<TlvFields>, tag: u16) -> Option<Seq<u8>>
    decreases tlvs.len(),
{
    if tlvs.len() == 0 {
        None
    } else if tlvs[0].tag == tag {
        Some(tlvs[0].value)
    } else {
        first_tlv(tlvs.skip(1), tag)
    }
}

/// The id in the text of a receipt, behind `id:`.
pub open spec fn id_in_text(bytes: Seq<u8>) -> Option<Seq<char>> {
    text::tagged_word(text::lossy_chars(bytes), "id:"@)
}

/// The id that a receipt is for: that of the parameter, and if there is none or it is empty,
/// that in the text, and if there is none either, nothing.
pub open spec fn receipted_id(m: MessageFields) -> Seq<char> {
    let given = match first_tlv(m.tlvs, RECEIPTED_MESSAGE_ID) {
        Some(value) => text::trim_zeros(text::lossy_chars(value)),
        None => Seq::empty(),
    };
    if given.len() > 0 {
        given
    } else {
        match id_in_text(m.short_message) {
            Some(id) => id,
            None => Seq::empty(),
        }
    }
}

/// A submitted message in the model.
pub open spec fn unified_submit(m: MessageFields) -> UnifiedSubmitModel {
    let (concat, content) = parted(m.esm_class, m.short_message);
    UnifiedSubmitModel {
        src: full_address(m.source_addr, m.source_addr_ton, m.source_addr_npi),
        dests: seq![full_address(m.destination_addr, m.dest_addr_ton, m.dest_addr_npi)],
        content,
        encoding: encoding_of(m.data_coding),
        want_report: m.registered_delivery & 0x01 != 0,
        concat,
        extra: ExtraModel::Smpp(
            SmppExtraModel {
                service_type: m.service_type,
                esm_class: m.esm_class,
                protocol_id: m.protocol_id,
                priority_flag: m.priority_flag,
                schedule_delivery_time: m.schedule_delivery_time,
                validity_period: m.validity_period,
                registered_delivery: m.registered_delivery,
                replace_if_present_flag: m.replace_if_present_flag,
                sm_default_msg_id: m.sm_default_msg_id,
            },
        ),
        tlvs: unified_tlvs(m.tlvs),
    }
}

/// Whether a delivered message is a receipt.
pub open spec fn is_receipt(esm_class: u8) -> bool {
    esm_class & 0x04 != 0
}

/// A delivered message in the model: a report if it is a receipt.
pub open spec fn unified_deliver(m: MessageFields) -> Unified {
    let src = full_address(m.source_addr, m.source_addr_ton, m.source_addr_npi);
    let dest = full_address(m.destination_addr, m.dest_addr_ton, m.dest_addr_npi);
    if is_receipt(m.esm_class) {
        Unified::Report(
            UnifiedReportModel {
                msg_id: MessageIdModel::Text(receipted_id(m)),
                status: DeliveryStatus::of_receipt(m.short_message),
                src,
                dest,
                raw: m.short_message,
            },
        )
    } else {
        let (concat, content) = parted(m.esm_class, m.short_message);
        Unified::Deliver(
            UnifiedDeliverModel {
                src,
                dest,
                content,
                encoding: encoding_of(m.data_coding),
                concat,
                extra: ExtraModel::Absent,
                tlvs: unified_tlvs(m.tlvs),
            },
        )
    }
}

/// A request to bind in the model. The password is kept as its bytes.
pub open spec fn unified_bind(bind: BindFields, mode: BindMode) -> Unified {
    Unified::Bind(
        UnifiedBindModel {
            client_id: bind.system_id,
            authenticator: encode_utf8(bind.password),
            timestamp: 0,
            version: bind.interface_version,
            system_type: Some(bind.system_type),
            mode,
            login_mode: None,
        },
    )
}

/// A PDU in the model. Queries, cancellations and refusals are not part of it.
pub open spec fn unified(m: Message) -> Unified {
    match m {
        Message::SubmitSm(s) => Unified::Submit(unified_submit(s)),
        Message::SubmitSmResp { message_id, command_status } => Unified::SubmitResp(
            UnifiedSubmitRespModel {
                msg_id: MessageIdModel::Text(message_id),
                status: command_status,
            },
        ),
        Message::DeliverSm(d) => unified_deliver(d),
        Message::DeliverSmResp { .. } => Unified::DeliverResp,
        Message::BindTransmitter(b) => unified_bind(b, BindMode::Transmitter),
        Message::BindReceiver(b) => unified_bind(b, BindMode::Receiver),
        Message::BindTransceiver(b) => unified_bind(b, BindMode::Transceiver),
        Message::BindTransmitterResp(r) => Unified::BindResp { status: r.command_status },
        Message::BindReceiverResp(r) => Unified::BindResp { status: r.command_status },
        Message::BindTransceiverResp(r) => Unified::BindResp { status: r.command_status },
        Message::EnquireLink => Unified::Ping,
        Message::EnquireLinkResp => Unified::PingResp,
        Message::Unbind => Unified::Unbind,
        Message::UnbindResp => Unified::UnbindResp,
        Message::Unknown { command_id, body } => Unified::Unknown { command_id, raw: body },
        Message::QuerySm(_) => nothing_known(CommandId::QUERY_SM),
        Message::QuerySmResp(_) => nothing_known(CommandId::QUERY_SM_RESP),
        Message::CancelSm(_) => nothing_known(CommandId::CANCEL_SM),
        Message::CancelSmResp => nothing_known(CommandId::CANCEL_SM_RESP),
        Message::GenericNack => nothing_known(CommandId::GENERIC_NACK),
    }
}

/// A PDU of which the model knows the command alone.
pub open spec fn nothing_known(id: CommandId) -> Unified {
    Unified::Unknown { command_id: id.code(), raw: Seq::empty() }
}

/// A submitted message as a PDU. It goes to the first of its numbers.
pub open spec fn smpp_submit(s: UnifiedSubmitModel) -> MessageFields {
    let extra = s.extra.smpp();
    let dest = if s.dests.len() > 0 {
        s.dests[0]
    } else {
        AddressModel { number: Seq::empty(), ton: None, npi: None }
    };
    let (short_message, esm_class) = headed(s.concat, s.content, extra.esm_class);
    MessageFields {
        service_type: extra.service_type,
        source_addr_ton: or_zero(s.src.ton),
        source_addr_npi: or_zero(s.src.npi),
        source_addr: s.src.number,
        dest_addr_ton: or_zero(dest.ton),
        dest_addr_npi: or_zero(dest.npi),
        destination_addr: dest.number,
        esm_class,
        protocol_id: extra.protocol_id,
        priority_flag: extra.priority_flag,
        schedule_delivery_time: extra.schedule_delivery_time,
        validity_period: extra.validity_period,
        registered_delivery: extra.registered_delivery,
        replace_if_present_flag: extra.replace_if_present_flag,
        data_coding: dcs_of(s.encoding),
        sm_default_msg_id: extra.sm_default_msg_id,
        short_message,
        tlvs: smpp_tlvs(s.tlvs),
    }
}

/// A delivered message as a PDU, never marked as a receipt.
pub open spec fn smpp_deliver(d: UnifiedDeliverModel) -> MessageFields {
    let extra = d.extra.smpp();
    let (short_message, esm_class) = headed(d.concat, d.content, extra.esm_class);
    MessageFields {
        service_type: extra.service_type,
        source_addr_ton: or_zero(d.src.ton),
        source_addr_npi: or_zero(d.src.npi),
        source_addr: d.src.number,
        dest_addr_ton: or_zero(d.dest.ton),
        dest_addr_npi: or_zero(d.dest.npi),
        destination_addr: d.dest.number,
        esm_class: esm_class & 0xFB,
        protocol_id: extra.protocol_id,
        priority_flag: extra.priority_flag,
        schedule_delivery_time: extra.schedule_delivery_time,
        validity_period: extra.validity_period,
        registered_delivery: extra.registered_delivery,
        replace_if_present_flag: extra.replace_if_present_flag,
        data_coding: dcs_of(d.encoding),
        sm_default_msg_id: extra.sm_default_msg_id,
        short_message,
        tlvs: smpp_tlvs(d.tlvs),
    }
}

/// A report as a PDU: a receipt with the id as a parameter.
pub open spec fn smpp_report(r: UnifiedReportModel) -> MessageFields {
    MessageFields {
        source_addr_ton: or_zero(r.src.ton),
        source_addr_npi: or_zero(r.src.npi),
        source_addr: r.src.number,
        dest_addr_ton: or_zero(r.dest.ton),
        dest_addr_npi: or_zero(r.dest.npi),
        destination_addr: r.dest.number,
        esm_class: 0x04,
        short_message: r.raw,
        tlvs: seq![
            TlvFields::of(RECEIPTED_MESSAGE_ID, encode_utf8(r.msg_id.read_as_text())),
        ],
        ..MessageFields::empty()
    }
}

/// A request to bind as a PDU.
pub open spec fn smpp_bind(b: UnifiedBindModel) -> BindFields {
    BindFields {
        system_id: b.client_id,
        password: text::lossy_chars(b.authenticator),
        system_type: match b.system_type {
            Some(s) => s,
            None => Seq::empty(),
        },
        interface_version: b.version,
        addr_ton: 0,
        addr_npi: 0,
        address_range: Seq::empty(),
    }
}

/// A message of the model as a PDU. What is unknown cannot be sent.
pub open spec fn smpp(u: Unified) -> Option<Message> {
    match u {
        Unified::Submit(s) => Some(Message::SubmitSm(smpp_submit(s))),
        Unified::SubmitResp(r) => Some(
            Message::SubmitSmResp {
                message_id: r.msg_id.read_as_text(),
                command_status: r.status,
            },
        ),
        Unified::DeliverResp | Unified::ReportResp => Some(
            Message::DeliverSmResp { message_id: Seq::empty() },
        ),
        Unified::Bind(b) => Some(
            match b.mode {
                BindMode::Transceiver => Message::BindTransceiver(smpp_bind(b)),
                BindMode::Transmitter => Message::BindTransmitter(smpp_bind(b)),
                BindMode::Receiver => Message::BindReceiver(smpp_bind(b)),
            },
        ),
        Unified::BindResp { status } => Some(
            Message::BindTransceiverResp(
                BindRespFields {
                    system_id: Seq::empty(),
                    sc_interface_version: 0,
                    command_status: status,
                },
            ),
        ),
        Unified::Deliver(d) => Some(Message::DeliverSm(smpp_deliver(d))),
        Unified::Report(r) => Some(Message::DeliverSm(smpp_report(r))),
        Unified::Ping => Some(Message::EnquireLink),
        Unified::PingResp => Some(Message::EnquireLinkResp),
        Unified::Unbind => Some(Message::Unbind),
        Unified::UnbindResp => Some(Message::UnbindResp),
        Unified::Unknown { .. } => None,
    }
}

/// The text of the error for a message that cannot be sent.
pub open spec fn unsupported_text(command_id: u32, raw: Seq<u8>) -> Seq<char> {
    "SMPP encode 暂不支持该消息类型: Unknown { command_id: "@ + text::decimal_chars(
        command_id as nat,
    ) + ", raw: "@ + text::list_chars(raw) + " }"@
}

fn encoding_from_dcs(dcs: u8) -> (encoding: Encoding)
    ensures
        encoding == encoding_of(dcs),
{
    match dcs {
        0x00 => Encoding::Gsm7,
        0x01 => Encoding::Ascii,
        0x02 => Encoding::Binary,
        0x08 | 0x10 => Encoding::Ucs2,
        other => Encoding::Other(other),
    }
}

fn dcs_from_encoding(enc: Encoding) -> (dcs: u8)
    ensures
        dcs == dcs_of(enc),
{
    match enc {
        Encoding::Gsm7 => 0x00,
        Encoding::Ascii => 0x01,
        Encoding::Binary => 0x02,
        Encoding::Ucs2 => 0x08,
        Encoding::Gbk => 0x00,
        Encoding::Other(v) => v,
    }
}

fn tlvs_to_unified(tlvs: &[Tlv]) -> (res: Vec<model::Tlv>)
    ensures
        model::tlv_views(res@) == unified_tlvs(tlv::tlv_views(tlvs@)),
{
    let mut res: Vec<model::Tlv> = Vec::new();
    let mut i: usize = 0;
    while i < tlvs.len()
        invariant
            i <= tlvs@.len(),
            res@.len() == i,
            forall|j: int|
                0 <= j < i ==> (#[trigger] res@[j])@ == unified_tlvs(tlv::tlv_views(tlvs@))[j],
        decreases tlvs@.len() - i,
    {
        let value = slice_to_vec(wire::shared_slice(&tlvs[i].value));
        res.push(model::Tlv { tag: tlvs[i].tag, value });
        i = i + 1;
    }
    assert(model::tlv_views(res@) =~= unified_tlvs(tlv::tlv_views(tlvs@)));
    res
}

fn tlvs_from_unified(tlvs: &[model::Tlv]) -> (res: Vec<Tlv>)
    ensures
        tlv::tlv_views(res@) == smpp_tlvs(model::tlv_views(tlvs@)),
{
    let mut res: Vec<Tlv> = Vec::new();
    let mut i: usize = 0;
    while i < tlvs.len()
        invariant
            i <= tlvs@.len(),
            res@.len() == i,
            forall|j: int|
                0 <= j < i ==> (#[trigger] res@[j])@ == smpp_tlvs(model::tlv_views(tlvs@))[j],
        decreases tlvs@.len() - i,
    {
        let value = slice_to_vec(tlvs[i].value.as_slice());
        res.push(Tlv::new(tlvs[i].tag, value));
        i = i + 1;
    }
    assert(tlv::tlv_views(res@) =~= smpp_tlvs(model::tlv_views(tlvs@)));
    res
}

fn split_udh(esm_class: u8, content: Vec<u8>) -> (res: (Option<Concat>, Vec<u8>))
    ensures
        (res.0, res.1@) == parted(esm_class, content@),
{
    if esm_class & 0x40 != 0 {
        match Concat::from_udh(content.as_slice()) {
            Some((c, off)) => {
                let rest = slice_to_vec(slice_subrange(content.as_slice(), off, content.len()));
                assert(rest@ =~= content@.skip(off as int));
                return (Some(c), rest);
            },
            None => {},
        }
    }
    (None, content)
}

fn join_udh(concat: &Option<Concat>, content: &[u8], esm_class: u8) -> (res: (Vec<u8>, u8))
    ensures
        (res.0@, res.1) == headed(*concat, content@, esm_class),
{
    match concat {
        Some(c) => {
            let mut body = c.to_udh_prefix();
            body.extend_from_slice(content);
            assert(body@ =~= c.prefix() + content@);
            (body, esm_class | 0x40)
        },
        None => (slice_to_vec(content), esm_class),
    }
}

fn receipt_id_from_text(bytes: &[u8]) -> (id: Option<String>)
    ensures
        match id_in_text(bytes@) {
            Some(chars) => id matches Some(s) && s@ == chars,
            None => id is None,
        },
{
    let s = text::from_utf8_lossy(bytes);
    text::word_behind(s.as_str(), "id:")
}

fn submit_to_unified(s: SubmitSm) -> (res: UnifiedSubmit)
    ensures
        res@ == unified_submit(s@),
{
    let tlvs = tlvs_to_unified(s.tlvs.as_slice());
    let (concat, content) = split_udh(s.esm_class, s.short_message);
    let mut dests: Vec<Address> = Vec::new();
    dests.push(
        Address {
            number: s.destination_addr,
            ton: Some(s.dest_addr_ton),
            npi: Some(s.dest_addr_npi),
        },
    );
    let res = UnifiedSubmit {
        src: Address {
            number: s.source_addr,
            ton: Some(s.source_addr_ton),
            npi: Some(s.source_addr_npi),
        },
        dests,
        content,
        encoding: encoding_from_dcs(s.data_coding),
        want_report: s.registered_delivery & 0x01 != 0,
        concat,
        extra: ProtocolExtra::Smpp(
            SmppExtra {
                service_type: s.service_type,
                esm_class: s.esm_class,
                protocol_id: s.protocol_id,
                priority_flag: s.priority_flag,
                schedule_delivery_time: s.schedule_delivery_time,
                validity_period: s.validity_period,
                registered_delivery: s.registered_delivery,
                replace_if_present_flag: s.replace_if_present_flag,
                sm_default_msg_id: s.sm_default_msg_id,
            },
        ),
        tlvs,
    };
    assert(model::address_views(res.dests@) =~= unified_submit(s@).dests);
    res
}

/// The id that a receipt is for.
fn receipt_id(tlvs: &[Tlv], short_message: &[u8]) -> (id: String)
    ensures
        forall|m: MessageFields|
            m.tlvs == tlv::tlv_views(tlvs@) && m.short_message == short_message@ ==> id@
                == #[trigger] receipted_id(m),
{
    let ghost views = tlv::tlv_views(tlvs@);
    let mut i: usize = 0;
    assert(views.skip(0) =~= views);
    while i < tlvs.len() && tlvs[i].tag != RECEIPTED_MESSAGE_ID
        invariant
            i <= tlvs@.len(),
            views == tlv::tlv_views(tlvs@),
            first_tlv(views.skip(i as int), RECEIPTED_MESSAGE_ID) == first_tlv(
                views,
                RECEIPTED_MESSAGE_ID,
            ),
        decreases tlvs@.len() - i,
    {
        assert(views.skip(i as int).skip(1) =~= views.skip(i + 1));
        i = i + 1;
    }
    if i < tlvs.len() {
        assert(views.skip(i as int)[0] == tlvs@[i as int]@);
        let given = text::from_utf8_lossy(wire::shared_slice(&tlvs[i].value));
        let given = text::without_zeros(given.as_str());
        if given.as_str().unicode_len() > 0 {
            return given;
        }
    }
    match receipt_id_from_text(short_message) {
        Some(id) => id,
        None => String::new(),
    }
}

fn deliver_to_unified(d: DeliverSm) -> (res: UnifiedMessage)
    ensures
        res@ == unified_deliver(d@),
{
    let dest = Address {
        number: d.destination_addr,
        ton: Some(d.dest_addr_ton),
        npi: Some(d.dest_addr_npi),
    };
    let src = Address {
        number: d.source_addr,
        ton: Some(d.source_addr_ton),
        npi: Some(d.source_addr_npi),
    };
    if d.esm_class & 0x04 != 0 {
        let id = receipt_id(d.tlvs.as_slice(), d.short_message.as_slice());
        assert(id@ == receipted_id(d@));
        UnifiedMessage::Report(
            UnifiedReport {
                msg_id: MessageId::Text(id),
                status: DeliveryStatus::from_receipt_text(d.short_message.as_slice()),
                src,
                dest,
                raw: d.short_message,
            },
        )
    } else {
        let tlvs = tlvs_to_unified(d.tlvs.as_slice());
        let (concat, content) = split_udh(d.esm_class, d.short_message);
        UnifiedMessage::Deliver(
            UnifiedDeliver {
                src,
                dest,
                content,
                encoding: encoding_from_dcs(d.data_coding),
                concat,
                extra: ProtocolExtra::Absent,
                tlvs,
            },
        )
    }
}

fn bind_to_unified(
    system_id: String,
    password: String,
    system_type: String,
    interface_version: u8,
    mode: BindMode,
) -> (res: UnifiedBind)
    ensures
        res@ == (UnifiedBindModel {
            client_id: system_id@,
            authenticator: encode_utf8(password@),
            timestamp: 0,
            version: interface_version,
            system_type: Some(system_type@),
            mode,
            login_mode: None,
        }),
{
    UnifiedBind {
        client_id: system_id,
        authenticator: slice_to_vec(password.as_str().as_bytes()),
        timestamp: 0,
        version: interface_version,
        system_type: Some(system_type),
        mode,
        login_mode: None,
    }
}

fn unknown(id: CommandId) -> (res: UnifiedMessage)
    ensures
        res@ == nothing_known(id),
{
    UnifiedMessage::Unknown { command_id: id.as_u32(), raw: Vec::new() }
}

fn smpp_to_unified(msg: SmppMessage) -> (res: UnifiedMessage)
    ensures
        res@ == unified(msg@),
{
    match msg {
        SmppMessage::SubmitSm(s) => UnifiedMessage::Submit(submit_to_unified(s)),
        SmppMessage::SubmitSmResp(r) => UnifiedMessage::SubmitResp(
            UnifiedSubmitResp { msg_id: MessageId::Text(r.message_id), status: r.command_status },
        ),
        SmppMessage::DeliverSm(d) => deliver_to_unified(d),
        SmppMessage::DeliverSmResp(_) => UnifiedMessage::DeliverResp,
        SmppMessage::BindTransmitter(b) => UnifiedMessage::Bind(
            bind_to_unified(
                b.system_id,
                b.password,
                b.system_type,
                b.interface_version,
                BindMode::Transmitter,
            ),
        ),
        SmppMessage::BindReceiver(b) => UnifiedMessage::Bind(
            bind_to_unified(
                b.system_id,
                b.password,
                b.system_type,
                b.interface_version,
                BindMode::Receiver,
            ),
        ),
        SmppMessage::BindTransceiver(b) => UnifiedMessage::Bind(
            bind_to_unified(
                b.system_id,
                b.password,
                b.system_type,
                b.interface_version,
                BindMode::Transceiver,
            ),
        ),
        SmppMessage::BindTransmitterResp(r) => UnifiedMessage::BindResp(
            UnifiedBindResp { status: r.command_status },
        ),
        SmppMessage::BindReceiverResp(r) => UnifiedMessage::BindResp(
            UnifiedBindResp { status: r.command_status },
        ),
        SmppMessage::BindTransceiverResp(r) => UnifiedMessage::BindResp(
            UnifiedBindResp { status: r.command_status },
        ),
        SmppMessage::EnquireLink(_) => UnifiedMessage::Ping,
        SmppMessage::EnquireLinkResp(_) => UnifiedMessage::PingResp,
        SmppMessage::Unbind(_) => UnifiedMessage::Unbind,
        SmppMessage::UnbindResp(_) => UnifiedMessage::UnbindResp,
        SmppMessage::Unknown { command_id, body } => UnifiedMessage::Unknown {
            command_id,
            raw: body,
        },
        SmppMessage::QuerySm(_) => unknown(CommandId::QUERY_SM),
        SmppMessage::QuerySmResp(_) => unknown(CommandId::QUERY_SM_RESP),
        SmppMessage::CancelSm(_) => unknown(CommandId::CANCEL_SM),
        SmppMessage::CancelSmResp(_) => unknown(CommandId::CANCEL_SM_RESP),
        SmppMessage::GenericNack(_) => unknown(CommandId::GENERIC_NACK),
    }
}

fn zero_if_none(value: Option<u8>) -> (v: u8)
    ensures
        v == or_zero(value),
{
    match value {
        Some(v) => v,
        None => 0,
    }
}

fn submit_from_unified(s: &UnifiedSubmit) -> (sm: SubmitSm)
    ensures
        sm@ == smpp_submit(s@),
{
    let extra = s.extra.smpp();
    let dest = if s.dests.len() > 0 {
        s.dests[0].copy()
    } else {
        Address::plain("")
    };
    proof {
        reveal_strlit("");
        assert(""@ =~= Seq::<char>::empty());
    }
    let (short_message, esm_class) = join_udh(&s.concat, s.content.as_slice(), extra.esm_class);
    SubmitSm {
        service_type: extra.service_type,
        source_addr_ton: zero_if_none(s.src.ton),
        source_addr_npi: zero_if_none(s.src.npi),
        source_addr: s.src.number.clone(),
        dest_addr_ton: zero_if_none(dest.ton),
        dest_addr_npi: zero_if_none(dest.npi),
        destination_addr: dest.number,
        esm_class,
        protocol_id: extra.protocol_id,
        priority_flag: extra.priority_flag,
        schedule_delivery_time: extra.schedule_delivery_time,
        validity_period: extra.validity_period,
        registered_delivery: extra.registered_delivery,
        replace_if_present_flag: extra.replace_if_present_flag,
        data_coding: dcs_from_encoding(s.encoding),
        sm_default_msg_id: extra.sm_default_msg_id,
        short_message,
        tlvs: tlvs_from_unified(s.tlvs.as_slice()),
    }
}

fn deliver_from_unified(d: &UnifiedDeliver) -> (sm: DeliverSm)
    ensures
        sm@ == smpp_deliver(d@),
{
    let extra = d.extra.smpp();
    let (short_message, esm_class) = join_udh(&d.concat, d.content.as_slice(), extra.esm_class);
    DeliverSm {
        service_type: extra.service_type,
        source_addr_ton: zero_if_none(d.src.ton),
        source_addr_npi: zero_if_none(d.src.npi),
        source_addr: d.src.number.clone(),
        dest_addr_ton: zero_if_none(d.dest.ton),
        dest_addr_npi: zero_if_none(d.dest.npi),
        destination_addr: d.dest.number.clone(),
        esm_class: esm_class & 0xFB,
        protocol_id: extra.protocol_id,
        priority_flag: extra.priority_flag,
        schedule_delivery_time: extra.schedule_delivery_time,
        validity_period: extra.validity_period,
        registered_delivery: extra.registered_delivery,
        replace_if_present_flag: extra.replace_if_present_flag,
        data_coding: dcs_from_encoding(d.encoding),
        sm_default_msg_id: extra.sm_default_msg_id,
        short_message,
        tlvs: tlvs_from_unified(d.tlvs.as_slice()),
    }
}

fn report_from_unified(r: &UnifiedReport) -> (sm: DeliverSm)
    ensures
        sm@ == smpp_report(r@),
{
    let id = r.msg_id.read_as_text();
    let mut tlvs: Vec<Tlv> = Vec::new();
    tlvs.push(Tlv::new(RECEIPTED_MESSAGE_ID, slice_to_vec(id.as_str().as_bytes())));
    let sm = DeliverSm {
        service_type: String::new(),
        source_addr_ton: zero_if_none(r.src.ton),
        source_addr_npi: zero_if_none(r.src.npi),
        source_addr: r.src.number.clone(),
        dest_addr_ton: zero_if_none(r.dest.ton),
        dest_addr_npi: zero_if_none(r.dest.npi),
        destination_addr: r.dest.number.clone(),
        esm_class: 0x04,
        protocol_id: 0,
        priority_flag: 0,
        schedule_delivery_time: String::new(),
        validity_period: String::new(),
        registered_delivery: 0,
        replace_if_present_flag: 0,
        data_coding: 0,
        sm_default_msg_id: 0,
        short_message: slice_to_vec(r.raw.as_slice()),
        tlvs,
    };
    assert(tlv::tlv_views(sm.tlvs@) =~= smpp_report(r@).tlvs);
    sm
}

fn bind_from_unified(b: &UnifiedBind) -> (pdu: Pdu)
    ensures
        smpp(Unified::Bind(b@)) == Some(pdu.message()),
{
    let password = text::from_utf8_lossy(b.authenticator.as_slice());
    let system_type = match &b.system_type {
        Some(s) => s.clone(),
        None => String::new(),
    };
    match b.mode {
        BindMode::Transceiver => Pdu::BindTransceiver(
            BindTransceiver::new(
                b.client_id.as_str(),
                password.as_str(),
                system_type.as_str(),
                b.version,
            ),
        ),
        BindMode::Transmitter => Pdu::BindTransmitter(
            BindTransmitter::new(
                b.client_id.as_str(),
                password.as_str(),
                system_type.as_str(),
                b.version,
            ),
        ),
        BindMode::Receiver => Pdu::BindReceiver(
            BindReceiver::new(
                b.client_id.as_str(),
                password.as_str(),
                system_type.as_str(),
                b.version,
            ),
        ),
    }
}

/// The PDU of a message, if it has one.
fn unified_to_pdu(msg: &UnifiedMessage) -> (pdu: Option<Pdu>)
    ensures
        match smpp(msg@) {
            Some(m) => pdu matches Some(p) && p.message() == m,
            None => pdu is None,
        },
{
    match msg {
        UnifiedMessage::Submit(s) => Some(Pdu::SubmitSm(submit_from_unified(s))),
        UnifiedMessage::SubmitResp(r) => Some(
            Pdu::SubmitSmResp(
                SubmitSmResp { message_id: r.msg_id.read_as_text(), command_status: r.status },
            ),
        ),
        UnifiedMessage::DeliverResp | UnifiedMessage::ReportResp => Some(
            Pdu::DeliverSmResp(DeliverSmResp { message_id: String::new() }),
        ),
        UnifiedMessage::Bind(b) => Some(bind_from_unified(b)),
        UnifiedMessage::BindResp(r) => Some(
            Pdu::BindTransceiverResp(
                BindTransceiverResp {
                    system_id: String::new(),
                    sc_interface_version: 0,
                    command_status: r.status,
                },
            ),
        ),
        UnifiedMessage::Deliver(d) => Some(Pdu::DeliverSm(deliver_from_unified(d))),
        UnifiedMessage::Report(r) => Some(Pdu::DeliverSm(report_from_unified(r))),
        UnifiedMessage::Ping => Some(Pdu::EnquireLink(EnquireLink)),
        UnifiedMessage::PingResp => Some(Pdu::EnquireLinkResp(EnquireLinkResp)),
        UnifiedMessage::Unbind => Some(Pdu::Unbind(Unbind)),
        UnifiedMessage::UnbindResp => Some(Pdu::UnbindResp(UnbindResp)),
        UnifiedMessage::Unknown { .. } => None,
    }
}

fn unified_to_smpp_bytes(msg: &UnifiedMessage, seq: Sequence) -> (res: Result<Vec<u8>, RsmsError>)
    requires
        smpp(msg@) matches Some(m) ==> m.written().ok(),
    ensures
        match smpp(msg@) {
            Some(m) => res matches Ok(bytes) && bytes@ == m.bytes(seq.number()),
            None => res matches Err(e) && (msg@ matches Unified::Unknown { command_id, raw }
                && e.is_other(unsupported_text(command_id, raw))),
        },
{
    match unified_to_pdu(msg) {
        Some(pdu) => {
            proof {
                message::lemma_pdu_message(pdu, seq.number());
            }
            Ok(pdu.to_pdu_bytes(seq.as_u32()).to_vec())
        },
        None => {
            let mut s = "SMPP encode 暂不支持该消息类型: Unknown { command_id: ".to_owned();
            if let UnifiedMessage::Unknown { command_id, raw } = msg {
                s.append(text::decimal(*command_id as u64).as_str());
                s.append(", raw: ");
                s.append(text::list(raw.as_slice()).as_str());
                s.append(" }");
            }
            Err(RsmsError::Other(s))
        },
    }
}

impl ProtocolAdapter for SmppAdapter {
    open spec fn protocol_of(&self) -> Protocol {
        Protocol::Smpp
    }

    open spec fn reads(&self, pdu: Seq<u8>) -> Result<Unified, Seq<char>> {
        match message::decoded(pdu, None) {
            Ok(m) => Ok(unified(m)),
            Err(text) => Err(text),
        }
    }

    open spec fn can_encode(&self, message: Unified) -> bool {
        smpp(message) matches Some(m) ==> m.written().ok()
    }

    open spec fn writes(&self, message: Unified, sequence: Sequence) -> Result<Seq<u8>, Seq<char>> {
        match smpp(message) {
            Some(m) => Ok(m.bytes(sequence.number())),
            None => Err(unsupported_text(message->Unknown_command_id, message->raw)),
        }
    }

    fn protocol(&self) -> Protocol {
        Protocol::Smpp
    }

    fn decode(&self, frame: &Frame) -> Result<UnifiedMessage, RsmsError> {
        match message::decode_message(frame.data_as_slice()) {
            Ok(msg) => Ok(smpp_to_unified(msg)),
            Err(e) => Err(e),
        }
    }

    fn encode(&self, msg: &UnifiedMessage, seq: Sequence) -> Result<Vec<u8>, RsmsError> {
        unified_to_smpp_bytes(msg, seq)
    }
}

/// Every data coding but 0x10, which UCS-2 does not go out with, comes back from the model as it
/// was.
pub proof fn law_data_coding_roundtrip(dcs: u8)
    requires
        dcs != 0x10,
    ensures
        dcs_of(encoding_of(dcs)) == dcs,
{
}

/// Every alphabet but GBK, which SMPP does not have, comes back from SMPP as it was, unless it is
/// a number that stands for another alphabet.
pub proof fn law_encoding_roundtrip(encoding: Encoding)
    requires
        encoding != Encoding::Gbk,
        encoding matches Encoding::Other(v) ==> encoding_of(v) == encoding,
    ensures
        encoding_of(dcs_of(encoding)) == encoding,
{
}

/// A message that gets a concatenation header is parted from it again, and a message without one
/// that is not marked is left as it is.
pub proof fn law_head_then_part(concat: Option<Concat>, content: Seq<u8>, esm_class: u8)
    requires
        concat is None ==> esm_class & 0x40 == 0,
    ensures
        ({
            let (body, class) = headed(concat, content, esm_class);
            parted(class, body) == (concat, content)
        }),
{
    if let Some(c) = concat {
        model::law_concat_roundtrip(c, content);
        assert((esm_class | 0x40) & 0x40 != 0) by (bit_vector);
    }
}

/// The message starts with the very header that would be written for it, or with none.
pub open spec fn plainly_headed(esm_class: u8, content: Seq<u8>) -> bool {
    parted(esm_class, content).0 matches Some(c) ==> content == c.prefix() + parted(
        esm_class,
        content,
    ).1
}

/// A message that is parted from a header that would be written the same gets it back.
pub proof fn law_part_then_head(esm_class: u8, content: Seq<u8>)
    requires
        plainly_headed(esm_class, content),
    ensures
        ({
            let (concat, rest) = parted(esm_class, content);
            headed(concat, rest, esm_class) == (content, esm_class)
        }),
{
    assert(esm_class & 0x40 != 0 ==> esm_class | 0x40 == esm_class) by (bit_vector);
}

proof fn lemma_tlvs_roundtrip(tlvs: Seq<TlvFields>)
    requires
        forall|i: int| 0 <= i < tlvs.len() ==> (#[trigger] tlvs[i]).wf(),
    ensures
        smpp_tlvs(unified_tlvs(tlvs)) == tlvs,
{
    assert forall|i: int| 0 <= i < tlvs.len() implies smpp_tlvs(unified_tlvs(tlvs))[i]
        == #[trigger] tlvs[i] by {
        assert(tlvs[i].wf());
        assert(tlvs[i].value.len() < 0x1_0000);
    }
    assert(smpp_tlvs(unified_tlvs(tlvs)) =~= tlvs);
}

/// A submitted message goes through the model without loss.
pub proof fn law_submit_lossless(m: MessageFields)
    requires
        m.data_coding != 0x10,
        plainly_headed(m.esm_class, m.short_message),
        forall|i: int| 0 <= i < m.tlvs.len() ==> (#[trigger] m.tlvs[i]).wf(),
    ensures
        smpp(unified(Message::SubmitSm(m))) == Some(Message::SubmitSm(m)),
{
    law_data_coding_roundtrip(m.data_coding);
    law_part_then_head(m.esm_class, m.short_message);
    lemma_tlvs_roundtrip(m.tlvs);
    assert(smpp_submit(unified_submit(m)) =~= m);
}

/// A message from a phone that uses no field which the model leaves out goes through the model
/// without loss.
pub proof fn law_deliver_lossless(m: MessageFields)
    requires
        m.data_coding != 0x10,
        plainly_headed(m.esm_class, m.short_message),
        forall|i: int| 0 <= i < m.tlvs.len() ==> (#[trigger] m.tlvs[i]).wf(),
        m.esm_class == (if parted(m.esm_class, m.short_message).0 is Some {
            0x40u8
        } else {
            0u8
        }),
        m.service_type.len() == 0,
        m.protocol_id == 0,
        m.priority_flag == 0,
        m.schedule_delivery_time.len() == 0,
        m.validity_period.len() == 0,
        m.registered_delivery == 0,
        m.replace_if_present_flag == 0,
        m.sm_default_msg_id == 0,
    ensures
        unified(Message::DeliverSm(m)) is Deliver,
        smpp(unified(Message::DeliverSm(m))) == Some(Message::DeliverSm(m)),
{
    law_data_coding_roundtrip(m.data_coding);
    law_part_then_head(m.esm_class, m.short_message);
    lemma_tlvs_roundtrip(m.tlvs);
    assert(0x40u8 & 0x04 == 0 && 0u8 & 0x04 == 0 && 0u8 | 0x40 == 0x40 && 0x40u8 & 0xFB == 0x40
        && 0u8 & 0xFB == 0) by (bit_vector);
    let u = unified_deliver(m);
    assert(m.service_type =~= Seq::<char>::empty());
    assert(m.schedule_delivery_time =~= Seq::<char>::empty());
    assert(m.validity_period =~= Seq::<char>::empty());
    assert(smpp_deliver(u->Deliver_0) =~= m);
}

/// A request to bind for all addresses goes through the model without loss.
pub proof fn law_bind_lossless(bind: BindFields)
    requires
        bind.addr_ton == 0,
        bind.addr_npi == 0,
        bind.address_range.len() == 0,
    ensures
        smpp(unified(Message::BindTransmitter(bind))) == Some(Message::BindTransmitter(bind)),
        smpp(unified(Message::BindReceiver(bind))) == Some(Message::BindReceiver(bind)),
        smpp(unified(Message::BindTransceiver(bind))) == Some(Message::BindTransceiver(bind)),
{
    text::law_utf8_roundtrip(bind.password);
    assert(bind.address_range =~= Seq::<char>::empty());
}

/// The result of a submitted message goes through the model both ways.
pub proof fn law_submit_resp_lossless(message_id: Seq<char>, command_status: u32)
    ensures
        smpp(unified(Message::SubmitSmResp { message_id, command_status })) == Some(
            Message::SubmitSmResp { message_id, command_status },
        ),
{
}

/// The result of a request to bind goes through the model both ways, though all results go out
/// as those of a transceiver.
pub proof fn law_bind_resp_status_kept(resp: BindRespFields, status: u32)
    ensures
        unified(Message::BindTransmitterResp(resp)) == (Unified::BindResp {
            status: resp.command_status,
        }),
        unified(Message::BindReceiverResp(resp)) == (Unified::BindResp {
            status: resp.command_status,
        }),
        unified(Message::BindTransceiverResp(resp)) == (Unified::BindResp {
            status: resp.command_status,
        }),
        smpp(Unified::BindResp { status }) matches Some(m) && m.status() == status && unified(m)
            == (Unified::BindResp { status }),
{
}

/// A report is sent as a message that is read back as the same report, if its id does not end in
/// a zero.
pub proof fn law_report_stable(m: MessageFields)
    requires
        is_receipt(m.esm_class),
        receipted_id(m).len() > 0 ==> receipted_id(m).last() != '\0',
    ensures
        unified(Message::DeliverSm(m)) is Report,
        smpp(unified(Message::DeliverSm(m))) matches Some(sent) && unified(sent) == unified(
            Message::DeliverSm(m),
        ),
{
    let id = receipted_id(m);
    let report = unified_deliver(m);
    let sent = smpp_report(report->Report_0);
    assert(0x04u8 & 0x04 != 0) by (bit_vector);
    text::law_utf8_roundtrip(id);
    assert(sent.tlvs[0].value == encode_utf8(id));
    assert(first_tlv(sent.tlvs, RECEIPTED_MESSAGE_ID) == Some(encode_utf8(id)));
    assert(text::trim_zeros(id) == id);
    assert(receipted_id(sent) =~= id);
}

/// The response to a report is the response to a delivered message.
pub proof fn law_report_resp_is_deliver_resp()
    ensures
        smpp(Unified::ReportResp) == smpp(Unified::DeliverResp),
{
}

/// A PDU that can be read and that goes through the model without loss, read and written again
/// with the same number, is the same on the wire.
pub proof fn law_bytes_lossless(m: Message, sequence: Sequence)
    requires
        message::readable(m),
        smpp(unified(m)) == Some(m),
    ensures
        SmppAdapter.reads(m.bytes(sequence.number())) == Ok::<Unified, Seq<char>>(unified(m)),
        SmppAdapter.can_encode(unified(m)),
        SmppAdapter.writes(unified(m), sequence) == Ok::<Seq<u8>, Seq<char>>(
            m.bytes(sequence.number()),
        ),
{
    message::law_pdu_roundtrip(m, sequence.number(), None);
}

/// A message of the model whose PDU can be read and stands for that message is read back from
/// the wire as it was.
pub proof fn law_message_survives_wire(u: Unified, sequence: Sequence)
    requires
        smpp(u) matches Some(m) && message::readable(m) && unified(m) == u,
    ensures
        SmppAdapter.can_encode(u),
        SmppAdapter.writes(u, sequence) matches Ok(bytes) && SmppAdapter.reads(bytes) == Ok::<
            Unified,
            Seq<char>,
        >(u),
{
    message::law_pdu_roundtrip(smpp(u)->0, sequence.number(), None);
}

/// What a delivered message that is no receipt is read as: who sent it, to whom, and what, field
/// by field.
pub proof fn law_deliver_is_read(pdu: Seq<u8>, d: DeliverSm, read: UnifiedMessage)
    requires
        message::decoded(pdu, None) == Ok::<Message, Seq<char>>(Message::DeliverSm(d@)),
        SmppAdapter.reads(pdu) == Ok::<Unified, Seq<char>>(read@),
        d.esm_class & 0x04 == 0,
    ensures
        read matches UnifiedMessage::Deliver(m) && {
            &&& m.src.number@ == d.source_addr@
            &&& m.src.ton == Some(d.source_addr_ton)
            &&& m.src.npi == Some(d.source_addr_npi)
            &&& m.dest.number@ == d.destination_addr@
            &&& m.dest.ton == Some(d.dest_addr_ton)
            &&& m.dest.npi == Some(d.dest_addr_npi)
            &&& m.encoding == (if d.data_coding == 0 {
                Encoding::Gsm7
            } else if d.data_coding == 1 {
                Encoding::Ascii
            } else if d.data_coding == 2 {
                Encoding::Binary
            } else if d.data_coding == 8 || d.data_coding == 16 {
                Encoding::Ucs2
            } else {
                Encoding::Other(d.data_coding)
            })
            &&& d.esm_class & 0x40 == 0 ==> m.concat is None && m.content@ == d.short_message@
            &&& d.esm_class & 0x40 != 0 ==> {
                let s = d.short_message@;
                &&& s.len() > s[0] && s[0] >= 5 && s[1] == 0 ==> m.concat == Some(
                    Concat { reference: s[3] as u16, total: s[4], sequence: s[5] },
                ) && m.content@ == s.subrange(s[0] + 1, s.len() as int)
                &&& s.len() > s[0] && s[0] >= 6 && s[1] == 8 ==> m.concat == Some(
                    Concat {
                        reference: (s[3] * 256 + s[4]) as u16,
                        total: s[5],
                        sequence: s[6],
                    },
                ) && m.content@ == s.subrange(s[0] + 1, s.len() as int)
                &&& s.len() <= 5 || s.len() <= s[0] || s[0] < 5 || (s[1] != 0 && s[1] != 8)
                    ==> m.concat is None && m.content@ == s
            }
            &&& m.tlvs@.len() == d.tlvs@.len()
            &&& forall|i: int|
                #![trigger m.tlvs@[i]]
                0 <= i < d.tlvs@.len() ==> m.tlvs@[i].tag == d.tlvs@[i].tag && m.tlvs@[i].value@
                    == wire::shared_bytes(d.tlvs@[i].value)
        },
{
    let m = read->Deliver_0;
    assert(read@ == unified_deliver(d@));
    assert(m@ == unified_deliver(d@)->Deliver_0);
    longmsg_frame::law_header_by_bytes(d.short_message@);
    assert(m@.tlvs == unified_tlvs(tlv::tlv_views(d.tlvs@)));
    assert(model::tlv_views(m.tlvs@).len() == m.tlvs@.len());
    assert forall|i: int| #![trigger m.tlvs@[i]] 0 <= i < d.tlvs@.len() implies m.tlvs@[i].tag
        == d.tlvs@[i].tag && m.tlvs@[i].value@ == wire::shared_bytes(d.tlvs@[i].value) by {
        assert(model::tlv_views(m.tlvs@)[i] == m.tlvs@[i]@);
        assert(unified_tlvs(tlv::tlv_views(d.tlvs@))[i].tag == d.tlvs@[i].tag);
    }
}

/// What a receipt is read as: whom it is from and for, and its text as it came.
pub proof fn law_receipt_is_read(pdu: Seq<u8>, d: DeliverSm, read: UnifiedMessage)
    requires
        message::decoded(pdu, None) == Ok::<Message, Seq<char>>(Message::DeliverSm(d@)),
        SmppAdapter.reads(pdu) == Ok::<Unified, Seq<char>>(read@),
        d.esm_class & 0x04 != 0,
    ensures
        read matches UnifiedMessage::Report(m) && {
            &&& m.src.number@ == d.source_addr@
            &&& m.src.ton == Some(d.source_addr_ton)
            &&& m.src.npi == Some(d.source_addr_npi)
            &&& m.dest.number@ == d.destination_addr@
            &&& m.dest.ton == Some(d.dest_addr_ton)
            &&& m.dest.npi == Some(d.dest_addr_npi)
            &&& m.raw@ == d.short_message@
            &&& m.msg_id is Text
        },
{
}

/// The id of a receipt is the text of the first parameter 0x001E, without the zeros behind it.
/// If there is no such parameter, or nothing in it, it is the word behind `id:` in the text of the
/// receipt, and if there is none either, nothing.
pub proof fn law_receipted_id(m: MessageFields, k: int, id: Seq<char>, zeros: Seq<char>)
    requires
        forall|i: int| 0 <= i < k && i < m.tlvs.len() ==> (#[trigger] m.tlvs[i]).tag != 0x001E,
        0 <= k <= m.tlvs.len(),
        k < m.tlvs.len() ==> m.tlvs[k].tag == 0x001E && m.tlvs[k].value == encode_utf8(id + zeros),
        id.len() > 0 ==> id.last() != '\0',
        forall|i: int| 0 <= i < zeros.len() ==> #[trigger] zeros[i] == '\0',
        m.esm_class & 0x04 != 0,
    ensures
        unified(Message::DeliverSm(m)) matches Unified::Report(r) && {
            &&& k < m.tlvs.len() && id.len() > 0 ==> r.msg_id == MessageIdModel::Text(id)
            &&& k == m.tlvs.len() || id.len() == 0 ==> r.msg_id == MessageIdModel::Text(
                match text::tagged_word(text::lossy_chars(m.short_message), "id:"@) {
                    Some(word) => word,
                    None => Seq::empty(),
                },
            )
            &&& r.status == (match text::tagged_word(
                text::lossy_chars(m.short_message),
                "stat:"@,
            ) {
                Some(word) => DeliveryStatus::of_word(word),
                None => DeliveryStatus::Unknown,
            })
        },
{
    lemma_first_tlv(m.tlvs, k);
    if k < m.tlvs.len() {
        text::law_utf8_roundtrip(id + zeros);
        text::lemma_zeros_trimmed(id, zeros);
    }
}

proof fn lemma_first_tlv(tlvs: Seq<TlvFields>, k: int)
    requires
        0 <= k <= tlvs.len(),
        forall|i: int| 0 <= i < k && i < tlvs.len() ==> (#[trigger] tlvs[i]).tag != 0x001E,
        k < tlvs.len() ==> tlvs[k].tag == 0x001E,
    ensures
        first_tlv(tlvs, 0x001E) == (if k < tlvs.len() {
            Some(tlvs[k].value)
        } else {
            None
        }),
    decreases k,
{
    if k > 0 {
        assert forall|i: int| 0 <= i < k - 1 implies (#[trigger] tlvs.skip(1)[i]).tag != 0x001E by {
            assert(tlvs.skip(1)[i] == tlvs[i + 1]);
        }
        lemma_first_tlv(tlvs.skip(1), k - 1);
    }
}

/// What a submitted message is read as: who sends it, to whom, and what, field by field.
pub proof fn law_submit_is_read(pdu: Seq<u8>, d: SubmitSm, read: UnifiedMessage)
    requires
        message::decoded(pdu, None) == Ok::<Message, Seq<char>>(Message::SubmitSm(d@)),
        SmppAdapter.reads(pdu) == Ok::<Unified, Seq<char>>(read@),
    ensures
        read matches UnifiedMessage::Submit(m) && {
            &&& m.src.number@ == d.source_addr@
            &&& m.src.ton == Some(d.source_addr_ton)
            &&& m.src.npi == Some(d.source_addr_npi)
            &&& m.dests@.len() == 1
            &&& m.dests@[0].number@ == d.destination_addr@
            &&& m.dests@[0].ton == Some(d.dest_addr_ton)
            &&& m.dests@[0].npi == Some(d.dest_addr_npi)
            &&& m.encoding == (if d.data_coding == 0 {
                Encoding::Gsm7
            } else if d.data_coding == 1 {
                Encoding::Ascii
            } else if d.data_coding == 2 {
                Encoding::Binary
            } else if d.data_coding == 8 || d.data_coding == 16 {
                Encoding::Ucs2
            } else {
                Encoding::Other(d.data_coding)
            })
            &&& m.want_report <==> d.registered_delivery % 2 == 1
            &&& m.extra matches ProtocolExtra::Smpp(e) && {
                &&& e.service_type@ == d.service_type@
                &&& e.esm_class == d.esm_class
                &&& e.protocol_id == d.protocol_id
                &&& e.priority_flag == d.priority_flag
                &&& e.schedule_delivery_time@ == d.schedule_delivery_time@
                &&& e.validity_period@ == d.validity_period@
                &&& e.registered_delivery == d.registered_delivery
                &&& e.replace_if_present_flag == d.replace_if_present_flag
                &&& e.sm_default_msg_id == d.sm_default_msg_id
            }
            &&& d.esm_class & 0x40 == 0 ==> m.concat is None && m.content@ == d.short_message@
            &&& d.esm_class & 0x40 != 0 ==> {
                let s = d.short_message@;
                &&& s.len() > s[0] && s[0] >= 5 && s[1] == 0 ==> m.concat == Some(
                    Concat { reference: s[3] as u16, total: s[4], sequence: s[5] },
                ) && m.content@ == s.subrange(s[0] + 1, s.len() as int)
                &&& s.len() > s[0] && s[0] >= 6 && s[1] == 8 ==> m.concat == Some(
                    Concat {
                        reference: (s[3] * 256 + s[4]) as u16,
                        total: s[5],
                        sequence: s[6],
                    },
                ) && m.content@ == s.subrange(s[0] + 1, s.len() as int)
                &&& s.len() <= 5 || s.len() <= s[0] || s[0] < 5 || (s[1] != 0 && s[1] != 8)
                    ==> m.concat is None && m.content@ == s
            }
            &&& m.tlvs@.len() == d.tlvs@.len()
            &&& forall|i: int|
                #![trigger m.tlvs@[i]]
                0 <= i < d.tlvs@.len() ==> m.tlvs@[i].tag == d.tlvs@[i].tag && m.tlvs@[i].value@
                    == wire::shared_bytes(d.tlvs@[i].value)
        },
{
    let m = read->Submit_0;
    assert(read@ == Unified::Submit(unified_submit(d@)));
    assert(m@ == unified_submit(d@));
    assert(m@.dests == unified_submit(d@).dests);
    assert(model::address_views(m.dests@).len() == 1);
    let flags = d.registered_delivery;
    assert(flags & 0x01 != 0 <==> flags % 2 == 1) by (bit_vector);
    assert(model::address_views(m.dests@)[0] == m.dests@[0]@);
    longmsg_frame::law_header_by_bytes(d.short_message@);
    assert(m@.tlvs == unified_tlvs(tlv::tlv_views(d.tlvs@)));
    assert(model::tlv_views(m.tlvs@).len() == m.tlvs@.len());
    assert forall|i: int| #![trigger m.tlvs@[i]] 0 <= i < d.tlvs@.len() implies m.tlvs@[i].tag
        == d.tlvs@[i].tag && m.tlvs@[i].value@ == wire::shared_bytes(d.tlvs@[i].value) by {
        assert(model::tlv_views(m.tlvs@)[i] == m.tlvs@[i]@);
        assert(unified_tlvs(tlv::tlv_views(d.tlvs@))[i].tag == d.tlvs@[i].tag);
    }
}

/// What the other PDUs are read as: a response with its id and its status, a request to bind with
/// its name, its password, its version and its mode, and the rest as what they are.
pub proof fn law_others_are_read(
    id: Seq<char>,
    status: u32,
    bind: BindFields,
    resp: BindRespFields,
    command_id: u32,
    body: Seq<u8>,
)
    ensures
        unified(Message::SubmitSmResp { message_id: id, command_status: status }) matches
            Unified::SubmitResp(r) && r.msg_id == MessageIdModel::Text(id) && r.status == status,
        unified(Message::DeliverSmResp { message_id: id }) is DeliverResp,
        unified(Message::EnquireLink) is Ping,
        unified(Message::EnquireLinkResp) is PingResp,
        unified(Message::Unbind) is Unbind,
        unified(Message::UnbindResp) is UnbindResp,
        unified(Message::BindTransmitter(bind)) matches Unified::Bind(b) && b.mode
            == BindMode::Transmitter && is_login(b, bind),
        unified(Message::BindReceiver(bind)) matches Unified::Bind(b) && b.mode
            == BindMode::Receiver && is_login(b, bind),
        unified(Message::BindTransceiver(bind)) matches Unified::Bind(b) && b.mode
            == BindMode::Transceiver && is_login(b, bind),
        unified(Message::Unknown { command_id, body }) == (Unified::Unknown {
            command_id,
            raw: body,
        }),
        unified(Message::CancelSmResp) matches Unified::Unknown { command_id, raw } && command_id
            == 0x8000_0008 && raw.len() == 0,
        unified(Message::GenericNack) matches Unified::Unknown { command_id, raw } && command_id
            == 0x8000_0000 && raw.len() == 0,
{
}

/// Whether a login of the model says what a request to bind says.
pub open spec fn is_login(b: UnifiedBindModel, bind: BindFields) -> bool {
    &&& b.client_id == bind.system_id
    &&& b.authenticator == encode_utf8(bind.password)
    &&& b.version == bind.interface_version
    &&& b.system_type == Some(bind.system_type)
    &&& b.timestamp == 0
    &&& b.login_mode is None
}

/// What a message from a phone is written as: who sent it and to whom.
pub proof fn law_deliver_is_written(m: UnifiedDeliver, sequence: Sequence, sm: DeliverSm)
    requires
        smpp(Unified::Deliver(m@)) == Some(Message::DeliverSm(sm@)),
    ensures
        SmppAdapter.writes(Unified::Deliver(m@), sequence) == Ok::<Seq<u8>, Seq<char>>(
            Message::DeliverSm(sm@).bytes(sequence->0),
        ),
        sm.source_addr@ == m.src.number@,
        sm.source_addr_ton == (match m.src.ton {
            Some(v) => v,
            None => 0,
        }),
        sm.source_addr_npi == (match m.src.npi {
            Some(v) => v,
            None => 0,
        }),
        sm.destination_addr@ == m.dest.number@,
        sm.dest_addr_ton == (match m.dest.ton {
            Some(v) => v,
            None => 0,
        }),
        sm.dest_addr_npi == (match m.dest.npi {
            Some(v) => v,
            None => 0,
        }),
{
    assert(sm@ == smpp_deliver(m@));
}

/// What a submitted message is written as: who sends it and to whom. Of several numbers it goes
/// to the first.
pub proof fn law_submit_is_written(m: UnifiedSubmit, sequence: Sequence, sm: SubmitSm)
    requires
        smpp(Unified::Submit(m@)) == Some(Message::SubmitSm(sm@)),
    ensures
        SmppAdapter.writes(Unified::Submit(m@), sequence) == Ok::<Seq<u8>, Seq<char>>(
            Message::SubmitSm(sm@).bytes(sequence->0),
        ),
        sm.source_addr@ == m.src.number@,
        sm.source_addr_ton == (match m.src.ton {
            Some(v) => v,
            None => 0,
        }),
        sm.source_addr_npi == (match m.src.npi {
            Some(v) => v,
            None => 0,
        }),
        m.dests@.len() > 0 ==> sm.destination_addr@ == m.dests@[0].number@ && sm.dest_addr_ton == (
        match m.dests@[0].ton {
            Some(v) => v,
            None => 0,
        }) && sm.dest_addr_npi == (match m.dests@[0].npi {
            Some(v) => v,
            None => 0,
        }),
        m.dests@.len() == 0 ==> sm.destination_addr@.len() == 0,
{
    assert(sm@ == smpp_submit(m@));
    if m.dests@.len() > 0 {
        assert(model::address_views(m.dests@)[0] == m.dests@[0]@);
    }
}

/// The text of a message from a phone on the wire: with its header in front if it is a segment,
/// under the number of its alphabet. It is never marked as a receipt, and marked as having a
/// header if it has one.
pub proof fn law_deliver_text_is_written(m: UnifiedDeliver, sm: DeliverSm)
    requires
        smpp(Unified::Deliver(m@)) == Some(Message::DeliverSm(sm@)),
    ensures
        sm.data_coding == (match m.encoding {
            Encoding::Gsm7 => 0u8,
            Encoding::Ascii => 1u8,
            Encoding::Binary => 2u8,
            Encoding::Ucs2 => 8u8,
            Encoding::Gbk => 0u8,
            Encoding::Other(v) => v,
        }),
        m.concat is None ==> sm.short_message@ == m.content@,
        m.concat matches Some(c) ==> sm.short_message@ == (if c.reference <= 255 {
            seq![5u8, 0u8, 3u8, c.reference as u8, c.total, c.sequence]
        } else {
            seq![
                6u8,
                8u8,
                4u8,
                (c.reference / 256) as u8,
                (c.reference % 256) as u8,
                c.total,
                c.sequence,
            ]
        }) + m.content@,
        sm.esm_class & 0x04 == 0,
        m.concat is Some ==> sm.esm_class & 0x40 != 0,
        m.concat is None ==> (m.extra matches ProtocolExtra::Smpp(e) ==> sm.esm_class == e.esm_class
            & 0xFB) && (m.extra is Absent ==> sm.esm_class == 0),
{
    assert(sm@ == smpp_deliver(m@));
    if let Some(c) = m.concat {
        longmsg_frame::law_header_on_wire(c.reference, c.total, c.sequence);
        assert(c.prefix() =~= (if c.reference <= 255 {
            seq![5u8, 0u8, 3u8, c.reference as u8, c.total, c.sequence]
        } else {
            seq![
                6u8,
                8u8,
                4u8,
                (c.reference / 256) as u8,
                (c.reference % 256) as u8,
                c.total,
                c.sequence,
            ]
        }));
    }
    let class: u8 = match m.extra {
        ProtocolExtra::Smpp(e) => e.esm_class,
        ProtocolExtra::Absent => 0,
    };
    assert((class | 0x40) & 0xFB & 0x04 == 0 && class & 0xFB & 0x04 == 0 && (class | 0x40) & 0xFB
        & 0x40 != 0 && 0u8 & 0xFB == 0) by (bit_vector);
}

/// The text of a submitted message on the wire: with its header in front if it is a segment,
/// under the number of its alphabet, and marked as having a header if it has one.
pub proof fn law_submit_text_is_written(m: UnifiedSubmit, sm: SubmitSm)
    requires
        smpp(Unified::Submit(m@)) == Some(Message::SubmitSm(sm@)),
    ensures
        sm.data_coding == (match m.encoding {
            Encoding::Gsm7 => 0u8,
            Encoding::Ascii => 1u8,
            Encoding::Binary => 2u8,
            Encoding::Ucs2 => 8u8,
            Encoding::Gbk => 0u8,
            Encoding::Other(v) => v,
        }),
        m.concat is None ==> sm.short_message@ == m.content@,
        m.concat matches Some(c) ==> sm.short_message@ == (if c.reference <= 255 {
            seq![5u8, 0u8, 3u8, c.reference as u8, c.total, c.sequence]
        } else {
            seq![
                6u8,
                8u8,
                4u8,
                (c.reference / 256) as u8,
                (c.reference % 256) as u8,
                c.total,
                c.sequence,
            ]
        }) + m.content@,
        m.concat is Some ==> sm.esm_class & 0x40 != 0,
        m.concat is None ==> (m.extra matches ProtocolExtra::Smpp(e) ==> sm.esm_class
            == e.esm_class) && (m.extra is Absent ==> sm.esm_class == 0),
{
    assert(sm@ == smpp_submit(m@));
    if let Some(c) = m.concat {
        longmsg_frame::law_header_on_wire(c.reference, c.total, c.sequence);
        assert(c.prefix() =~= (if c.reference <= 255 {
            seq![5u8, 0u8, 3u8, c.reference as u8, c.total, c.sequence]
        } else {
            seq![
                6u8,
                8u8,
                4u8,
                (c.reference / 256) as u8,
                (c.reference % 256) as u8,
                c.total,
                c.sequence,
            ]
        }));
    }
    let class: u8 = match m.extra {
        ProtocolExtra::Smpp(e) => e.esm_class,
        ProtocolExtra::Absent => 0,
    };
    assert((class | 0x40) & 0x40 != 0) by (bit_vector);
}

/// What only SMPP has of a message from a phone goes out as it is, and as zeros if the message
/// says nothing of it.
pub proof fn law_deliver_extra_is_written(m: UnifiedDeliver, sm: DeliverSm)
    requires
        smpp(Unified::Deliver(m@)) == Some(Message::DeliverSm(sm@)),
    ensures
        m.extra matches ProtocolExtra::Smpp(e) ==> {
            &&& sm.service_type@ == e.service_type@
            &&& sm.protocol_id == e.protocol_id
            &&& sm.priority_flag == e.priority_flag
            &&& sm.schedule_delivery_time@ == e.schedule_delivery_time@
            &&& sm.validity_period@ == e.validity_period@
            &&& sm.registered_delivery == e.registered_delivery
            &&& sm.replace_if_present_flag == e.replace_if_present_flag
            &&& sm.sm_default_msg_id == e.sm_default_msg_id
        },
        m.extra is Absent ==> {
            &&& sm.service_type@.len() == 0
            &&& sm.protocol_id == 0
            &&& sm.priority_flag == 0
            &&& sm.schedule_delivery_time@.len() == 0
            &&& sm.validity_period@.len() == 0
            &&& sm.registered_delivery == 0
            &&& sm.replace_if_present_flag == 0
            &&& sm.sm_default_msg_id == 0
        },
{
    assert(sm@ == smpp_deliver(m@));
}

/// What only SMPP has of a submitted message goes out as it is, and as zeros if the message says
/// nothing of it.
pub proof fn law_submit_extra_is_written(m: UnifiedSubmit, sm: SubmitSm)
    requires
        smpp(Unified::Submit(m@)) == Some(Message::SubmitSm(sm@)),
    ensures
        m.extra matches ProtocolExtra::Smpp(e) ==> {
            &&& sm.service_type@ == e.service_type@
            &&& sm.protocol_id == e.protocol_id
            &&& sm.priority_flag == e.priority_flag
            &&& sm.schedule_delivery_time@ == e.schedule_delivery_time@
            &&& sm.validity_period@ == e.validity_period@
            &&& sm.registered_delivery == e.registered_delivery
            &&& sm.replace_if_present_flag == e.replace_if_present_flag
            &&& sm.sm_default_msg_id == e.sm_default_msg_id
        },
        m.extra is Absent ==> {
            &&& sm.service_type@.len() == 0
            &&& sm.protocol_id == 0
            &&& sm.priority_flag == 0
            &&& sm.schedule_delivery_time@.len() == 0
            &&& sm.validity_period@.len() == 0
            &&& sm.registered_delivery == 0
            &&& sm.replace_if_present_flag == 0
            &&& sm.sm_default_msg_id == 0
        },
{
    assert(sm@ == smpp_submit(m@));
}

/// The parameters of a message go out one for one.
pub proof fn law_parameters_are_written(
    s: UnifiedSubmit,
    submit: SubmitSm,
    d: UnifiedDeliver,
    deliver: DeliverSm,
    i: int,
)
    requires
        smpp(Unified::Submit(s@)) == Some(Message::SubmitSm(submit@)),
        smpp(Unified::Deliver(d@)) == Some(Message::DeliverSm(deliver@)),
    ensures
        submit.tlvs@.len() == s.tlvs@.len(),
        0 <= i < s.tlvs@.len() ==> submit.tlvs@[i].tag == s.tlvs@[i].tag && wire::shared_bytes(
            submit.tlvs@[i].value,
        ) == s.tlvs@[i].value@ && submit.tlvs@[i].length == s.tlvs@[i].value@.len() % 65536,
        deliver.tlvs@.len() == d.tlvs@.len(),
        0 <= i < d.tlvs@.len() ==> deliver.tlvs@[i].tag == d.tlvs@[i].tag && wire::shared_bytes(
            deliver.tlvs@[i].value,
        ) == d.tlvs@[i].value@ && deliver.tlvs@[i].length == d.tlvs@[i].value@.len() % 65536,
{
    assert(submit@.tlvs == smpp_tlvs(s@.tlvs));
    assert(deliver@.tlvs == smpp_tlvs(d@.tlvs));
    assert(tlv::tlv_views(submit.tlvs@).len() == submit.tlvs@.len());
    assert(tlv::tlv_views(deliver.tlvs@).len() == deliver.tlvs@.len());
    if 0 <= i < s.tlvs@.len() {
        assert(tlv::tlv_views(submit.tlvs@)[i] == submit.tlvs@[i]@);
        assert(model::tlv_views(s.tlvs@)[i] == s.tlvs@[i]@);
    }
    if 0 <= i < d.tlvs@.len() {
        assert(tlv::tlv_views(deliver.tlvs@)[i] == deliver.tlvs@[i]@);
        assert(model::tlv_views(d.tlvs@)[i] == d.tlvs@[i]@);
    }
}

/// What a report is written as: a receipt with the report's text, and with its id in the parameter
/// 0x001E alone.
pub proof fn law_report_is_written(m: UnifiedReport, sequence: Sequence, sm: DeliverSm)
    requires
        smpp(Unified::Report(m@)) == Some(Message::DeliverSm(sm@)),
    ensures
        SmppAdapter.writes(Unified::Report(m@), sequence) == Ok::<Seq<u8>, Seq<char>>(
            Message::DeliverSm(sm@).bytes(sequence->0),
        ),
        sm.source_addr@ == m.src.number@,
        sm.destination_addr@ == m.dest.number@,
        m.src.ton matches Some(v) ==> sm.source_addr_ton == v,
        m.src.npi matches Some(v) ==> sm.source_addr_npi == v,
        m.dest.ton matches Some(v) ==> sm.dest_addr_ton == v,
        m.dest.npi matches Some(v) ==> sm.dest_addr_npi == v,
        sm.esm_class == 4,
        sm.short_message@ == m.raw@,
        sm.tlvs@.len() == 1,
        sm.tlvs@[0].tag == 0x001E,
        m.msg_id matches MessageId::Text(id) ==> wire::shared_bytes(sm.tlvs@[0].value)
            == encode_utf8(id@),
{
    assert(tlv::tlv_views(sm.tlvs@)[0] == sm.tlvs@[0]@);
}

/// What the other messages are written as.
pub proof fn law_others_are_written(
    id: Seq<char>,
    status: u32,
    b: UnifiedBindModel,
)
    ensures
        smpp(Unified::SubmitResp(UnifiedSubmitRespModel { msg_id: MessageIdModel::Text(id), status }))
            == Some(Message::SubmitSmResp { message_id: id, command_status: status }),
        smpp(Unified::DeliverResp) matches Some(Message::DeliverSmResp { message_id })
            && message_id.len() == 0,
        smpp(Unified::ReportResp) matches Some(Message::DeliverSmResp { message_id })
            && message_id.len() == 0,
        smpp(Unified::Ping) == Some(Message::EnquireLink),
        smpp(Unified::PingResp) == Some(Message::EnquireLinkResp),
        smpp(Unified::Unbind) == Some(Message::Unbind),
        smpp(Unified::UnbindResp) == Some(Message::UnbindResp),
        smpp(Unified::BindResp { status }) matches Some(Message::BindTransceiverResp(r))
            && r.command_status == status,
        b.mode == BindMode::Transmitter ==> (smpp(Unified::Bind(b)) matches Some(
            Message::BindTransmitter(f),
        ) && asks_for(f, b)),
        b.mode == BindMode::Receiver ==> (smpp(Unified::Bind(b)) matches Some(
            Message::BindReceiver(f),
        ) && asks_for(f, b)),
        b.mode == BindMode::Transceiver ==> (smpp(Unified::Bind(b)) matches Some(
            Message::BindTransceiver(f),
        ) && asks_for(f, b)),
{
    assert forall|password: Seq<char>| b.authenticator == #[trigger] encode_utf8(password) implies
        smpp_bind(b).password == password by {
        text::law_utf8_roundtrip(password);
    }
}

/// What goes out is the PDU with the number that it is sent under; only what is unknown cannot go
/// out.
pub proof fn law_what_goes_out(u: Unified, sequence: Sequence)
    ensures
        u is Unknown <==> SmppAdapter.writes(u, sequence) is Err,
        smpp(u) matches Some(m) ==> SmppAdapter.writes(u, sequence) == Ok::<Seq<u8>, Seq<char>>(
            m.bytes(sequence->0),
        ),
{
}

/// Whether a request to bind says what a login of the model says.
pub open spec fn asks_for(f: BindFields, b: UnifiedBindModel) -> bool {
    &&& f.system_id == b.client_id
    &&& forall|password: Seq<char>|
        b.authenticator == #[trigger] encode_utf8(password) ==> f.password == password
    &&& f.interface_version == b.version
    &&& b.system_type matches Some(s) ==> f.system_type == s
    &&& b.system_type is None ==> f.system_type.len() == 0
    &&& f.addr_ton == 0 && f.addr_npi == 0 && f.address_range.len() == 0
}

} // verus!
