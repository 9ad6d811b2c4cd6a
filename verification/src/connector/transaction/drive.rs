//! Frames that go out and come in, and what they mean for the transactions.

use crate::connector::adapter_registry::{adapter_for, Adapters};
use crate::connector::command;
use crate::connector::framing;
use crate::connector::transaction::info;
use crate::connector::transaction::info::{
    Callback, Mo, MoInfo, Notice, Report, ReportInfo, Submission, SubmitInfo, Transaction,
    TransactionStatus,
};
use crate::connector::transaction::manager;
use crate::connector::transaction::manager::{TransactionManager, Transactions};
use crate::frame::Frame;
use crate::model::{
    DeliveryStatus, MessageId, MessageIdModel, Unified, UnifiedDeliver, UnifiedMessage, UnifiedReport,
    UnifiedSubmitResp,
};
use crate::protocol::Protocol;
use crate::smpp::adapter;
use crate::smpp::datatypes::short_message::DeliverSm;
use crate::smpp::message;
use crate::smpp::message::Message;
use crate::text;
use crate::wire;
use std::time::Instant;
use vstd::prelude::*;
use vstd::slice::slice_to_vec;

verus! {

/// A message's id as text: bytes in hexadecimal. Responses and reports both go by it, so that
/// they meet.
pub open spec fn id_text(id: MessageIdModel) -> Seq<char> {
    match id {
        MessageIdModel::Text(s) => s,
        MessageIdModel::Binary(b) => text::hex_bytes_chars(b),
    }
}

/// A message's id as text.
pub fn msg_id_to_string(id: &MessageId) -> (s: String)
    ensures
        s@ == id_text(id@),
{
    match id {
        MessageId::Text(s) => s.clone(),
        MessageId::Binary(b) => text::hex_bytes(b.as_slice()),
    }
}

/// Whether a PDU submits a message, and is long enough to tell.
pub open spec fn submits(protocol: Protocol, raw: Seq<u8>) -> bool {
    &&& raw.len() >= 8
    &&& framing::sequence_in(raw, protocol) is Some
    &&& wire::be32(raw.skip(4)) == command::submit_command(protocol)
}

/// What is known of a message by its PDU: the PDU itself, to be sent again if need be.
pub open spec fn outbound(protocol: Protocol, raw: Seq<u8>, submit_time: Instant) -> Submission {
    Submission {
        sequence_id: framing::sequence_in(raw, protocol)->0,
        msg_id: None,
        dest_id: Seq::empty(),
        src_id: Seq::empty(),
        content: raw,
        protocol: protocol.name(),
        submit_time,
    }
}

/// Notes a PDU that goes out, if it submits a message, and tells whether it does. Its time is
/// now.
pub fn register_outbound(tm: &mut TransactionManager, protocol: Protocol, raw: &[u8]) -> (noted:
    bool)
    ensures
        noted == submits(protocol, raw@),
        noted ==> exists|now: Instant|
            final(tm)@ == old(tm)@.submitted(#[trigger] outbound(protocol, raw@, now)),
        !noted ==> final(tm)@ == old(tm)@,
{
    if raw.len() < 8 {
        return false;
    }
    let sequence_id: u32 = match framing::pdu_sequence(raw, protocol) {
        Some(sequence_id) => sequence_id,
        None => {
            return false;
        },
    };
    if !command::is_submit(protocol, wire::read_be32(raw, 4)) {
        return false;
    }
    let info = SubmitInfo::new(
        sequence_id,
        String::new(),
        String::new(),
        slice_to_vec(raw),
        protocol.as_str(),
    );
    assert(info@ =~= outbound(protocol, raw@, info.submit_time));
    tm.add_submit_transaction(info);
    true
}

/// What a message that came in means for the transactions: a response and a report go to the
/// message that they are about, a message from a phone to the application, and anything else
/// nowhere.
pub open spec fn drives(
    before: Transactions,
    sequence_id: u32,
    message: Unified,
    after: Transactions,
    notice: Option<Notice>,
) -> bool {
    match message {
        Unified::SubmitResp(r) => {
            &&& after == before.answered(sequence_id, Some(id_text(r.msg_id)))
            &&& notice == before.answer_notice(sequence_id, Some(id_text(r.msg_id)), r.status)
        },
        Unified::Report(r) => before.handles_report(
            Report {
                msg_id: id_text(r.msg_id),
                src_terminal_id: r.src.number,
                stat: r.status.name(),
            },
            after,
            notice,
        ),
        Unified::Deliver(d) => {
            &&& after == before
            &&& notice == Some(
                Notice::Mo(
                    Mo {
                        dest_id: d.dest.number,
                        src_terminal_id: d.src.number,
                        content: d.content,
                    },
                ),
            )
        },
        _ => after == before && notice is None,
    }
}

/// Tells the transactions of a message that came in, with the sequence number of its frame.
pub fn drive_message(tm: &mut TransactionManager, sequence_id: u32, message: UnifiedMessage) -> (
    callback: Option<Callback>)
    ensures
        drives(old(tm)@, sequence_id, message@, final(tm)@, info::notice_view(callback)),
{
    match message {
        UnifiedMessage::SubmitResp(r) => {
            let id = msg_id_to_string(&r.msg_id);
            tm.on_submit_resp(sequence_id, Some(id), r.status)
        },
        UnifiedMessage::Report(r) => {
            let report = ReportInfo {
                msg_id: msg_id_to_string(&r.msg_id),
                src_terminal_id: r.src.number,
                stat: r.status.as_str().to_owned(),
            };
            tm.on_report(report)
        },
        UnifiedMessage::Deliver(d) => Some(
            tm.on_mo(
                MoInfo {
                    dest_id: d.dest.number,
                    src_terminal_id: d.src.number,
                    content: d.content,
                },
            ),
        ),
        _ => None,
    }
}

/// Tells the transactions of a frame that came in. One that cannot be read means nothing, nor
/// does one of a protocol without an adapter.
pub fn drive_inbound(
    tm: &mut TransactionManager,
    adapters: Adapters<'_>,
    protocol: Protocol,
    frame: &Frame,
) -> (callback: Option<Callback>)
    ensures
        match adapters.reads(protocol, frame.data@) {
            Some(Ok(message)) => drives(
                old(tm)@,
                frame.sequence_id,
                message,
                final(tm)@,
                info::notice_view(callback),
            ),
            _ => callback is None && final(tm)@ == old(tm)@,
        },
{
    match adapter_for(protocol, adapters) {
        Some(adapter) => match adapter.decode(frame) {
            Ok(message) => drive_message(tm, frame.sequence_id, message),
            Err(_) => None,
        },
        None => None,
    }
}

/// A response and a report with the same id meet: the id that the response brings is the one
/// that the report is looked up by.
pub proof fn law_response_meets_report(
    state: Transactions,
    info: Submission,
    id: MessageIdModel,
    after: Transactions,
    notice: Option<Notice>,
    report: Report,
)
    requires
        id_text(id) != manager::sequence_key(info.sequence_id),
        report.msg_id == id_text(id),
        state.submitted(info).answered(info.sequence_id, Some(id_text(id))).handles_report(
            report,
            after,
            notice,
        ),
    ensures
        notice == Some(
            Notice::Report(report, Submission { msg_id: Some(id_text(id)), ..info }),
        ),
{
    manager::law_submit_to_report(state, info, id_text(id));
    let tx = Transaction {
        info: Submission { msg_id: Some(id_text(id)), ..info },
        status: TransactionStatus::RespReceived,
    };
    let answered = state.submitted(info).answered(info.sequence_id, Some(id_text(id)));
    assert(answered.matches_report(report.msg_id, tx));
}

/// A message from a phone reaches the application once, with the number that it is for, the number
/// that it is from and its text byte for byte, and the transactions stay as they were.
pub proof fn law_phones_are_heard(
    before: Transactions,
    sequence_id: u32,
    d: UnifiedDeliver,
    after: Transactions,
    callback: Option<Callback>,
)
    requires
        drives(
            before,
            sequence_id,
            UnifiedMessage::Deliver(d)@,
            after,
            info::notice_view(callback),
        ),
    ensures
        after == before,
        callback matches Some(Callback::Mo(mo)) && mo.dest_id@ == d.dest.number@
            && mo.src_terminal_id@ == d.src.number@ && mo.content@ == d.content@,
{
}

/// The text that a phone sends reaches the application through SMPP as it is: with the sender as
/// the source and the receiver as the destination, and with all bytes behind the header if it is
/// marked as having one, and all bytes if it is not.
pub proof fn law_phones_are_heard_over_smpp(
    before: Transactions,
    frame: Frame,
    d: DeliverSm,
    message: UnifiedMessage,
    after: Transactions,
    callback: Option<Callback>,
    adapters: Adapters<'_>,
)
    requires
        message::decoded(frame.data@, None) == Ok::<Message, Seq<char>>(Message::DeliverSm(d@)),
        adapters.reads(Protocol::Smpp, frame.data@) == Some(Ok::<Unified, Seq<char>>(message@)),
        drives(before, frame.sequence_id, message@, after, info::notice_view(callback)),
        d.esm_class & 0x04 == 0,
    ensures
        after == before,
        callback matches Some(Callback::Mo(mo)) && {
            &&& mo.dest_id@ == d.destination_addr@
            &&& mo.src_terminal_id@ == d.source_addr@
            &&& d.esm_class & 0x40 == 0 ==> mo.content@ == d.short_message@
            &&& d.esm_class & 0x40 != 0 ==> {
                let s = d.short_message@;
                &&& s.len() > s[0] && s[0] >= 6 && (s[1] == 0 || s[1] == 8) ==> mo.content@
                    == s.subrange(s[0] + 1, s.len() as int)
                &&& s.len() > 5 && s[0] == 5 && s[1] == 0 ==> mo.content@ == s.subrange(
                    6,
                    s.len() as int,
                )
                &&& s.len() <= 5 || s.len() <= s[0] || s[0] < 5 || (s[1] != 0 && s[1] != 8)
                    ==> mo.content@ == s
            }
        },
{
    adapter::law_deliver_is_read(frame.data@, d, message);
    law_phones_are_heard(before, frame.sequence_id, message->Deliver_0, after, callback);
}

/// The response to a message that waits for one reaches the application with the message, as a
/// success if its status is 0 and else as an error with the status. The message is no longer
/// known by its number, but by the id that the response brought; the other messages stay as they
/// were. A response that nobody waits for changes nothing.
pub proof fn law_responses_are_told(
    before: Transactions,
    sequence_id: u32,
    r: UnifiedSubmitResp,
    id: Seq<char>,
    after: Transactions,
    callback: Option<Callback>,
    other: Seq<char>,
)
    requires
        drives(
            before,
            sequence_id,
            UnifiedMessage::SubmitResp(r)@,
            after,
            info::notice_view(callback),
        ),
        r.msg_id matches MessageId::Text(s) && s@ == id,
    ensures
        ({
            let key = text::decimal_chars(sequence_id as nat);
            &&& !before.by_key.contains_key(key) ==> after == before && callback is None
            &&& before.by_key.contains_key(key) ==> {
                let sent = before.by_key[key].info;
                &&& r.status == 0 ==> (callback matches Some(Callback::SubmitOk(info))
                    && is_message(info, sent, id))
                &&& r.status != 0 ==> (callback matches Some(Callback::SubmitError(info, status))
                    && status == r.status && is_message(info, sent, id))
                &&& !after.by_key.contains_key(key)
                &&& id != key ==> after.by_key.contains_key(id) && after.by_key[id].info.sequence_id
                    == sent.sequence_id && after.by_key[id].info.content == sent.content
                    && after.by_key[id].info.msg_id == Some(id) && after.by_key[id].status
                    == TransactionStatus::RespReceived
                &&& after.msg_ids.contains_key(sequence_id) && after.msg_ids[sequence_id] == id
            }
            &&& other != key && other != id ==> after.by_key.contains_key(other)
                == before.by_key.contains_key(other) && (before.by_key.contains_key(other)
                ==> after.by_key[other] == before.by_key[other])
        }),
{
}

/// Whether what the application is told of is a message as it was sent, with the id that it has
/// now.
pub open spec fn is_message(info: SubmitInfo, sent: Submission, id: Seq<char>) -> bool {
    &&& info.sequence_id == sent.sequence_id
    &&& info.content@ == sent.content
    &&& info.dest_id@ == sent.dest_id
    &&& info.src_id@ == sent.src_id
    &&& info.protocol@ == sent.protocol
    &&& info.submit_time == sent.submit_time
    &&& info.msg_id matches Some(s) && s@ == id
}

/// A report on a message that is known by the id reaches the application with that message, the
/// number that it is from and the name of the status, and the message is forgotten.
pub proof fn law_reports_are_told(
    before: Transactions,
    sequence_id: u32,
    r: UnifiedReport,
    id: Seq<char>,
    after: Transactions,
    callback: Option<Callback>,
)
    requires
        drives(
            before,
            sequence_id,
            UnifiedMessage::Report(r)@,
            after,
            info::notice_view(callback),
        ),
        r.msg_id matches MessageId::Text(s) && s@ == id,
        before.by_key.contains_key(id),
        before.by_key[id].info.msg_id == Some(id),
    ensures
        callback matches Some(Callback::Report(report, info)) && {
            &&& report.msg_id@ == id
            &&& report.src_terminal_id@ == r.src.number@
            &&& report.stat@ == (match r.status {
                DeliveryStatus::Delivered => "Delivered"@,
                DeliveryStatus::Expired => "Expired"@,
                DeliveryStatus::Deleted => "Deleted"@,
                DeliveryStatus::Undeliverable => "Undeliverable"@,
                DeliveryStatus::Accepted => "Accepted"@,
                DeliveryStatus::Rejected => "Rejected"@,
                DeliveryStatus::Unknown => "Unknown"@,
            })
            &&& is_message(info, before.by_key[id].info, id)
        },
        after.by_key == before.by_key.remove(id),
        after.msg_ids == before.msg_ids.remove(before.by_key[id].info.sequence_id),
{
    let report = Report {
        msg_id: id,
        src_terminal_id: r.src.number@,
        stat: r.status.name(),
    };
    let notice = info::notice_view(callback);
    assert(UnifiedMessage::Report(r)@ == Unified::Report(r@));
    assert(id_text(r@.msg_id) == id);
    assert(before.handles_report(report, after, notice));
    assert(before.matches_report(id, before.by_key[id]));
    assert(notice is Some);
    let told = notice->0;
    let tx = choose|tx: Transaction| #[trigger]
        before.matches_report(report.msg_id, tx) && told == Notice::Report(report, tx.info) && after
            == before.reported(tx);
    assert(before.matches_report(report.msg_id, tx));
    assert(tx == before.by_key[id]);
    assert(callback is Some && callback->0@ == told);
}

/// A report on an id that no message has changes nothing, and the application is told nothing.
pub proof fn law_unknown_reports_pass(
    before: Transactions,
    sequence_id: u32,
    r: UnifiedReport,
    id: Seq<char>,
    after: Transactions,
    callback: Option<Callback>,
)
    requires
        drives(
            before,
            sequence_id,
            UnifiedMessage::Report(r)@,
            after,
            info::notice_view(callback),
        ),
        r.msg_id matches MessageId::Text(s) && s@ == id,
        !before.by_key.contains_key(id),
        forall|key: Seq<char>|
            before.by_key.contains_key(key) ==> #[trigger] before.by_key[key].info.msg_id != Some(
                id,
            ),
    ensures
        after == before,
        callback is None,
{
}

/// What is no response, no report and no message from a phone changes nothing, and the application
/// is told nothing.
pub proof fn law_others_pass(
    before: Transactions,
    sequence_id: u32,
    message: UnifiedMessage,
    after: Transactions,
    callback: Option<Callback>,
)
    requires
        drives(before, sequence_id, message@, after, info::notice_view(callback)),
        !(message is SubmitResp || message is Report || message is Deliver),
    ensures
        after == before,
        callback is None,
{
}

/// Which PDUs are noted on their way out: those with the command that submits a message, which is
/// 4 in CMPP and SMPP, 2 in SMGP and 3 in SGIP, and with a sequence number, which stands at byte 8
/// in CMPP and SMGP and at byte 12 in SMPP and SGIP. A message that is noted waits for its response under that number, with
/// the whole PDU as its content.
pub proof fn law_submits_are_noted(
    before: Transactions,
    protocol: Protocol,
    raw: Seq<u8>,
    now: Instant,
)
    ensures
        ({
            let at: int = match protocol {
                Protocol::Cmpp => 8,
                Protocol::Smgp => 8,
                Protocol::Sgip => 12,
                Protocol::Smpp => 12,
            };
            let command = raw[4] * 16777216 + raw[5] * 65536 + raw[6] * 256 + raw[7];
            let number = raw[at] * 16777216 + raw[at + 1] * 65536 + raw[at + 2] * 256 + raw[at + 3];
            &&& submits(protocol, raw) <==> raw.len() >= at + 4 && command == (match protocol {
                Protocol::Cmpp => 4int,
                Protocol::Smgp => 2int,
                Protocol::Sgip => 3int,
                Protocol::Smpp => 4int,
            })
            &&& submits(protocol, raw) ==> {
                let key = text::decimal_chars(number as nat);
                let after = before.submitted(outbound(protocol, raw, now));
                &&& after.by_key.contains_key(key)
                &&& after.by_key[key].status == TransactionStatus::Pending
                &&& after.by_key[key].info.sequence_id == number
                &&& after.by_key[key].info.content == raw
                &&& after.by_key[key].info.msg_id is None
                &&& after.by_key[key].info.submit_time == now
            }
        }),
{
    wire::law_high_byte_first(0, 0, raw.skip(4));
    wire::law_high_byte_first(0, 0, raw.skip(8));
    wire::law_high_byte_first(0, 0, raw.skip(12));
    wire::law_high_byte_first(0, 0, raw.skip(16));
}

} // verus!
