//! Submitted messages, their responses and their reports.

use rsms::connector::adapter_registry::{adapter_for, Adapters};
use rsms::connector::transaction::cmpp::{CmppDeliver, CmppSubmit};
use rsms::connector::transaction::drive::{
    drive_inbound, drive_message, msg_id_to_string, register_outbound,
};
use rsms::connector::transaction::info::{Callback, MoInfo, ReportInfo, SubmitInfo};
use rsms::connector::transaction::manager::TransactionManager;
use rsms::connector::transaction::sgip::{SgipDeliver, SgipSubmit};
use rsms::connector::transaction::smgp::{SmgpDeliver, SmgpSubmit};
use rsms::connector::transaction::smpp::{SmppDeliver, SmppSubmit};
use rsms::connector::transaction::{cmpp, sgip, smgp};
use rsms::encoded_pdu::RawPdu;
use rsms::error::RsmsError;
use rsms::frame::Frame;
use rsms::model::{
    Address, DeliveryStatus, MessageId, ProtocolAdapter, Sequence, UnifiedMessage, UnifiedReport,
    UnifiedSubmitResp,
};
use rsms::protocol::Protocol;
use rsms::smpp::datatypes::short_message::{DeliverSm, SubmitSm};
use rsms::smpp::pdu::Pdu;
use std::time::{Duration, Instant};

fn deliver_with_esm(esm_class: u8) -> SmppDeliver {
    SmppDeliver::new(deliver_sm(esm_class))
}

fn deliver_sm(esm_class: u8) -> DeliverSm {
    DeliverSm {
        service_type: String::new(),
        source_addr_ton: 0,
        source_addr_npi: 0,
        source_addr: "10086".to_string(),
        dest_addr_ton: 0,
        dest_addr_npi: 0,
        destination_addr: "13800138000".to_string(),
        esm_class,
        protocol_id: 0,
        priority_flag: 0,
        schedule_delivery_time: String::new(),
        validity_period: String::new(),
        registered_delivery: 0,
        replace_if_present_flag: 0,
        data_coding: 0,
        sm_default_msg_id: 0,
        short_message: Vec::new(),
        tlvs: Vec::new(),
    }
}

#[test]
fn is_report_detects_smsc_delivery_receipt_bit() {
    assert!(deliver_with_esm(0x04).is_report());
    assert!(deliver_with_esm(0x04 | 0x01).is_report());
    assert!(!deliver_with_esm(0x00).is_report());
    assert!(!deliver_with_esm(0x01).is_report());
    assert!(!deliver_with_esm(0x03).is_report());
}

fn submit_info(seq: u32) -> SubmitInfo {
    SubmitInfo::new(seq, "dest".to_string(), "src".to_string(), vec![], "cmpp")
}

fn report(msg_id: &str) -> ReportInfo {
    ReportInfo {
        msg_id: msg_id.to_string(),
        src_terminal_id: "x".to_string(),
        stat: "DELIVRD".to_string(),
    }
}

#[test]
fn resp_rekeys_to_msg_id_and_report_matches() {
    let mut tm = TransactionManager::new(10);

    tm.add_submit_transaction(submit_info(1));
    match tm.on_submit_resp(1, Some("MSGID-1".to_string()), 0) {
        Some(Callback::SubmitOk(info)) => {
            assert_eq!(info.sequence_id, 1);
            assert_eq!(info.msg_id.as_deref(), Some("MSGID-1"));
        }
        other => panic!("expected a response, got {other:?}"),
    }
    match tm.on_report(report("MSGID-1")) {
        Some(Callback::Report(report, info)) => {
            assert_eq!(report.stat, "DELIVRD");
            assert_eq!(info.sequence_id, 1);
        }
        other => panic!("expected a report, got {other:?}"),
    }
    assert_eq!(tm.transaction_count(), 0);
}

#[test]
fn no_report_is_lost_among_many() {
    let mut tm = TransactionManager::new(30);
    let n = 1000u32;
    for i in 0..n {
        tm.add_submit_transaction(submit_info(i));
    }
    assert_eq!(tm.pending_count(), n as usize);
    for i in 0..n {
        let told = tm.on_submit_resp(i, Some(format!("M-{i}")), 0);
        assert!(matches!(told, Some(Callback::SubmitOk(_))));
    }
    assert_eq!(tm.pending_count(), 0);
    assert_eq!(tm.transaction_count(), n as usize);
    for i in (0..n).rev() {
        match tm.on_report(report(&format!("M-{i}"))) {
            Some(Callback::Report(_, info)) => assert_eq!(info.sequence_id, i),
            other => panic!("expected a report, got {other:?}"),
        }
    }
    assert_eq!(tm.transaction_count(), 0);
}

#[test]
fn nobody_is_told_of_what_nobody_sent() {
    let mut tm = TransactionManager::new(10);
    tm.add_submit_transaction(submit_info(1));
    assert!(tm.on_submit_resp(2, None, 0).is_none());
    assert!(tm.on_report(report("M")).is_none());
    assert_eq!((tm.transaction_count(), tm.pending_count()), (1, 1));
}

#[test]
fn failed_sends_are_forgotten() {
    let mut tm = TransactionManager::new(10);
    tm.add_submit_transaction(submit_info(1));
    match tm.on_send_failed(1, "broken pipe") {
        Some(Callback::SendFailed { sequence_id: 1, error }) => assert_eq!(error, "broken pipe"),
        other => panic!("expected a failure, got {other:?}"),
    }
    assert_eq!(tm.transaction_count(), 0);
}

#[test]
fn only_overdue_messages_time_out() {
    let mut tm = TransactionManager::new(10);
    tm.add_submit_transaction(submit_info(1));
    tm.add_submit_transaction(submit_info(2));
    tm.on_submit_resp(2, None, 0);
    let now = Instant::now();
    assert!(tm.check_timeouts(now + Duration::from_secs(5)).is_empty());
    let late = tm.check_timeouts(now + Duration::from_secs(11));
    assert_eq!(late.len(), 1);
    assert_eq!(late[0].sequence_id, 1);
    assert_eq!((tm.transaction_count(), tm.pending_count()), (1, 0));
}

#[test]
fn messages_from_phones_are_passed_on() {
    let tm = TransactionManager::new(10);
    let mo = MoInfo {
        dest_id: "10086".to_string(),
        src_terminal_id: "13800138000".to_string(),
        content: b"hi".to_vec(),
    };
    match tm.on_mo(mo) {
        Callback::Mo(mo) => assert_eq!(mo.content, b"hi"),
        other => panic!("expected a message, got {other:?}"),
    }
}

fn smpp_frame(raw: Vec<u8>) -> Frame {
    let cmd = u32::from_be_bytes([raw[4], raw[5], raw[6], raw[7]]);
    let seq = u32::from_be_bytes([raw[12], raw[13], raw[14], raw[15]]);
    Frame::new(cmd, seq, RawPdu::from_vec(raw))
}

fn smpp_encode(msg: &UnifiedMessage, seq: u32) -> Vec<u8> {
    adapter_for(Protocol::Smpp, Adapters::new()).unwrap().encode(msg, Sequence::Plain(seq)).unwrap()
}

fn smpp_submit(seq: u32) -> Vec<u8> {
    let sm = SubmitSm::new().with_message("13800138000", "1065900000", b"hi");
    Pdu::from(sm).to_pdu_bytes(seq).to_vec()
}

fn smpp_resp(seq: u32, status: u32) -> Vec<u8> {
    let resp = UnifiedSubmitResp { msg_id: MessageId::Text("9".to_string()), status };
    smpp_encode(&UnifiedMessage::SubmitResp(resp), seq)
}

#[test]
fn only_submitted_messages_are_noted() {
    let mut tm = TransactionManager::new(10);
    assert!(register_outbound(&mut tm, Protocol::Smpp, &smpp_submit(7)));
    assert_eq!(tm.transaction_count(), 1);
    assert!(!register_outbound(&mut tm, Protocol::Smpp, &smpp_resp(7, 0)));
    assert!(!register_outbound(&mut tm, Protocol::Smpp, &[0; 8]));
    assert_eq!(tm.transaction_count(), 1);
}

#[test]
fn frames_drive_responses_and_reports() {
    let mut tm = TransactionManager::new(10);
    register_outbound(&mut tm, Protocol::Smpp, &smpp_submit(7));
    match drive_inbound(&mut tm, Adapters::new(), Protocol::Smpp, &smpp_frame(smpp_resp(7, 0))) {
        Some(Callback::SubmitOk(info)) => {
            assert_eq!(info.content, smpp_submit(7));
            assert_eq!((info.dest_id.as_str(), info.protocol), ("", "smpp"));
            assert_eq!(info.msg_id.as_deref(), Some("9"));
        }
        other => panic!("expected a response, got {other:?}"),
    }
    let report = UnifiedMessage::Report(UnifiedReport {
        msg_id: MessageId::Text("9".to_string()),
        status: DeliveryStatus::Delivered,
        src: Address::plain("13800138000"),
        dest: Address::plain("1065900000"),
        raw: b"id:9 stat:DELIVRD".to_vec(),
    });
    let frame = smpp_frame(smpp_encode(&report, 99));
    match drive_inbound(&mut tm, Adapters::new(), Protocol::Smpp, &frame) {
        Some(Callback::Report(report, info)) => {
            assert_eq!(report.stat, "Delivered");
            assert_eq!(info.sequence_id, 7);
        }
        other => panic!("expected a report, got {other:?}"),
    }
    assert_eq!(tm.transaction_count(), 0);
}

#[test]
fn refused_messages_are_errors() {
    let mut tm = TransactionManager::new(10);
    register_outbound(&mut tm, Protocol::Smpp, &smpp_submit(5));
    match drive_inbound(&mut tm, Adapters::new(), Protocol::Smpp, &smpp_frame(smpp_resp(5, 9))) {
        Some(Callback::SubmitError(info, 9)) => assert_eq!(info.sequence_id, 5),
        other => panic!("expected an error, got {other:?}"),
    }
}

#[test]
fn decoded_messages_drive_transactions() {
    let mut tm = TransactionManager::new(10);
    tm.add_submit_transaction(submit_info(7));
    let resp = UnifiedMessage::SubmitResp(UnifiedSubmitResp {
        msg_id: MessageId::Binary(vec![0, 0, 0, 0, 0, 0, 0, 9]),
        status: 0,
    });
    assert!(matches!(drive_message(&mut tm, 7, resp), Some(Callback::SubmitOk(_))));
    let report = UnifiedMessage::Report(UnifiedReport {
        msg_id: MessageId::Binary(vec![0, 0, 0, 0, 0, 0, 0, 9]),
        status: DeliveryStatus::Delivered,
        src: Address::plain("13800138000"),
        dest: Address::plain("1065900000"),
        raw: vec![],
    });
    assert!(matches!(drive_message(&mut tm, 99, report), Some(Callback::Report(_, _))));
    assert_eq!(tm.transaction_count(), 0);
    assert!(drive_message(&mut tm, 1, UnifiedMessage::Ping).is_none());
}

#[test]
fn binary_ids_are_written_in_hexadecimal() {
    assert_eq!(msg_id_to_string(&MessageId::Binary(vec![0, 0x9f])), "009f");
    assert_eq!(msg_id_to_string(&MessageId::Text("abc".to_string())), "abc");
}

#[test]
fn messages_of_each_protocol_are_read() {
    let submit = CmppSubmit::new(cmpp::Submit {
        msg_id: [1, 2, 3, 4, 5, 6, 7, 0xab],
        src_id: "1065".to_string(),
        dest_terminal_ids: vec!["138".to_string(), "139".to_string()],
        msg_content: b"hi".to_vec(),
    });
    assert_eq!(submit.msg_id(), "01020304050607ab");
    assert_eq!((submit.dest_id().as_str(), submit.src_id().as_str()), ("138", "1065"));
    assert_eq!(submit.protocol_name(), "CMPP");
    let (id, dest, src, content, protocol) = submit.into_parts();
    assert_eq!((id.as_str(), dest.as_str(), src.as_str()), ("01020304050607ab", "138", "1065"));
    assert_eq!((content, protocol), (b"hi".to_vec(), "CMPP"));
    let mut deliver = cmpp::Deliver::new();
    deliver.registered_delivery = 1;
    assert!(CmppDeliver::new(deliver).is_report());
    let submit = SmgpSubmit::new(smgp::Submit::new());
    assert_eq!((submit.dest_id().as_str(), submit.protocol_name()), ("", "SMGP"));
    let mut deliver = smgp::Deliver::new();
    deliver.is_report = 1;
    assert!(SmgpDeliver::new(deliver).is_report());
    let submit = SgipSubmit::new(sgip::Submit::new());
    assert_eq!((submit.src_id().as_str(), submit.protocol_name()), ("", "SGIP"));
    assert!(!SgipDeliver::new(sgip::Deliver::new()).is_report());
    let submit = SmppSubmit::new(SubmitSm::new().with_message("138", "1065", b"hi"));
    assert_eq!((submit.dest_id().as_str(), submit.protocol_name()), ("138", "SMPP"));
    assert_eq!(submit.content(), b"hi");
}

#[test]
fn empty_messages_have_no_ids() {
    assert_eq!(CmppSubmit::default().inner.msg_id, [0; 8]);
    assert_eq!(CmppDeliver::default().inner.msg_id, [0; 8]);
    assert_eq!(SmgpDeliver::default().inner.msg_id, [0; 10]);
}

/// Reads a frame as the response that accepts it, with its bytes as the id.
struct Stub(Protocol);

impl ProtocolAdapter for Stub {
    fn protocol(&self) -> Protocol {
        self.0
    }

    fn decode(&self, frame: &Frame) -> Result<UnifiedMessage, RsmsError> {
        let msg_id = MessageId::Binary(frame.data_as_slice().to_vec());
        Ok(UnifiedMessage::SubmitResp(UnifiedSubmitResp { msg_id, status: 0 }))
    }

    fn encode(&self, _msg: &UnifiedMessage, _seq: Sequence) -> Result<Vec<u8>, RsmsError> {
        Err(RsmsError::Other("not written".to_string()))
    }
}

#[test]
fn brought_adapters_drive_transactions() {
    let frame = Frame::new(1, 7, RawPdu::from_vec(vec![0xAB, 0xCD]));
    let cmpp = Stub(Protocol::Cmpp);
    let adapters = Adapters { cmpp: Some(&cmpp), ..Adapters::new() };
    let mut tm = TransactionManager::new(10);
    tm.add_submit_transaction(submit_info(7));
    assert!(drive_inbound(&mut tm, adapters, Protocol::Smgp, &frame).is_none());
    assert!(drive_inbound(&mut tm, adapters, Protocol::Smpp, &frame).is_none());
    assert_eq!(tm.pending_count(), 1);
    match drive_inbound(&mut tm, adapters, Protocol::Cmpp, &frame) {
        Some(Callback::SubmitOk(info)) => assert_eq!(info.msg_id.as_deref(), Some("abcd")),
        other => panic!("expected a response, got {other:?}"),
    }
    assert_eq!(tm.pending_count(), 0);
}

#[test]
fn messages_can_be_copied() {
    let mut submit = CmppSubmit::default();
    submit.inner.dest_terminal_ids.push("13800138000".to_string());
    assert_eq!(submit.clone().inner.dest_terminal_ids, ["13800138000"]);
    let mut deliver = SmgpDeliver::default();
    deliver.inner.msg_content = b"hi".to_vec();
    assert_eq!(deliver.clone().inner.msg_content, b"hi");
    let mut deliver = SgipDeliver::default();
    deliver.inner.user_number = "13800138000".to_string();
    assert_eq!(deliver.clone().inner.user_number, "13800138000");
}
