//! SMPP messages as unified messages, and back.

use rsms::encoded_pdu::RawPdu;
use rsms::error::RsmsError;
use rsms::frame::Frame;
use rsms::model::{
    BindMode, Concat, DeliveryStatus, Encoding, MessageId, ProtocolAdapter, Sequence,
    UnifiedBindResp, UnifiedMessage, UnifiedSubmitResp,
};
use rsms::protocol::Protocol;
use rsms::smpp::adapter::SmppAdapter;
use rsms::smpp::datatypes::bind::{BindTransceiver, BindTransceiverResp};
use rsms::smpp::datatypes::link::EnquireLink;
use rsms::smpp::datatypes::short_message::{DeliverSm, SubmitSm, SubmitSmResp};
use rsms::smpp::datatypes::tlv::Tlv;
use rsms::smpp::pdu::Pdu;

fn frame_of(bytes: Vec<u8>) -> Frame {
    Frame::from(RawPdu::from_vec(bytes))
}

#[test]
fn decode_submit_carries_ton_npi_and_tlv() {
    let mut s = SubmitSm::new();
    s.source_addr = "1065900000".to_string();
    s.source_addr_ton = 5;
    s.source_addr_npi = 0;
    s.destination_addr = "13800138000".to_string();
    s.dest_addr_ton = 1;
    s.dest_addr_npi = 1;
    s.data_coding = 0x08;
    s.short_message = b"Hi".to_vec();
    s.tlvs.push(Tlv::new(0x0204, vec![0x00, 0x2A]));
    let bytes = Pdu::from(s).to_pdu_bytes(7).to_vec();

    match SmppAdapter.decode(&frame_of(bytes)).unwrap() {
        UnifiedMessage::Submit(u) => {
            assert_eq!(u.src.number, "1065900000");
            assert_eq!(u.src.ton, Some(5));
            assert_eq!(u.dests[0].ton, Some(1));
            assert_eq!(u.dests[0].npi, Some(1));
            assert!(matches!(u.encoding, Encoding::Ucs2));
            assert_eq!(u.tlvs.len(), 1);
            assert_eq!(u.tlvs[0].tag, 0x0204);
            assert_eq!(u.tlvs[0].value, vec![0x00, 0x2A]);
        }
        _ => panic!("expected Submit"),
    }
}

#[test]
fn decode_deliver_receipt_is_report() {
    let mut d = DeliverSm {
        service_type: String::new(),
        source_addr_ton: 0,
        source_addr_npi: 0,
        source_addr: String::new(),
        dest_addr_ton: 0,
        dest_addr_npi: 0,
        destination_addr: String::new(),
        esm_class: 0,
        protocol_id: 0,
        priority_flag: 0,
        schedule_delivery_time: String::new(),
        validity_period: String::new(),
        registered_delivery: 0,
        replace_if_present_flag: 0,
        data_coding: 0,
        sm_default_msg_id: 0,
        short_message: vec![],
        tlvs: vec![],
    };
    d.esm_class = 0x04;
    d.destination_addr = "1065900000".to_string();
    let bytes = Pdu::from(d).to_pdu_bytes(8).to_vec();
    assert!(matches!(
        SmppAdapter.decode(&frame_of(bytes)).unwrap(),
        UnifiedMessage::Report(_)
    ));
}

#[test]
fn report_msg_id_falls_back_to_receipt_text_when_no_tlv() {
    let mut d = DeliverSm {
        service_type: String::new(),
        source_addr_ton: 0,
        source_addr_npi: 0,
        source_addr: "1065900000".to_string(),
        dest_addr_ton: 0,
        dest_addr_npi: 0,
        destination_addr: "13800138000".to_string(),
        esm_class: 0x04,
        protocol_id: 0,
        priority_flag: 0,
        schedule_delivery_time: String::new(),
        validity_period: String::new(),
        registered_delivery: 0,
        replace_if_present_flag: 0,
        data_coding: 0,
        sm_default_msg_id: 0,
        short_message: b"id:0620155538080677202838 stat:DELIVRD".to_vec(),
        tlvs: vec![],
    };
    d.esm_class = 0x04;
    let bytes = Pdu::from(d).to_pdu_bytes(9).to_vec();
    match SmppAdapter.decode(&frame_of(bytes)).unwrap() {
        UnifiedMessage::Report(r) => assert_eq!(
            r.msg_id,
            MessageId::Text("0620155538080677202838".to_string())
        ),
        other => panic!("expected Report, got {other:?}"),
    }
}

#[test]
fn submit_byte_roundtrip_via_unified() {
    let mut s = SubmitSm::new();
    s.service_type = "CMT".to_string();
    s.source_addr_ton = 5;
    s.source_addr_npi = 0;
    s.source_addr = "1065900000".to_string();
    s.dest_addr_ton = 1;
    s.dest_addr_npi = 1;
    s.destination_addr = "13800138000".to_string();
    s.esm_class = 0;
    s.registered_delivery = 1;
    s.data_coding = 0x08;
    s.short_message = b"\x4e\x2d".to_vec();
    s.tlvs.push(Tlv::new(0x0204, vec![0x00, 0x2A]));
    let original = Pdu::from(s).to_pdu_bytes(42).to_vec();

    let unified = SmppAdapter.decode(&frame_of(original.clone())).unwrap();
    let reencoded = SmppAdapter.encode(&unified, Sequence::Plain(42)).unwrap();
    assert_eq!(reencoded, original);
}

#[test]
fn bind_transceiver_byte_roundtrip_via_unified() {
    let bt = BindTransceiver::new("900001", "secret", "CMT", 0x34);
    let original = Pdu::from(bt).to_pdu_bytes(11).to_vec();

    let unified = SmppAdapter.decode(&frame_of(original.clone())).unwrap();
    match &unified {
        UnifiedMessage::Bind(b) => {
            assert_eq!(b.client_id, "900001");
            assert_eq!(b.authenticator, b"secret".to_vec());
            assert_eq!(b.system_type.as_deref(), Some("CMT"));
            assert_eq!(b.mode, BindMode::Transceiver);
            assert_eq!(b.login_mode, None);
            assert_eq!(b.version, 0x34);
        }
        other => panic!("expected Bind, got {other:?}"),
    }
    let reencoded = SmppAdapter.encode(&unified, Sequence::Plain(11)).unwrap();
    assert_eq!(reencoded, original);
}

#[test]
fn deliver_mo_byte_roundtrip_via_unified() {
    let mut d = DeliverSm {
        service_type: String::new(),
        source_addr_ton: 1,
        source_addr_npi: 1,
        source_addr: "13800138000".to_string(),
        dest_addr_ton: 5,
        dest_addr_npi: 0,
        destination_addr: "1065900000".to_string(),
        esm_class: 0,
        protocol_id: 0,
        priority_flag: 0,
        schedule_delivery_time: String::new(),
        validity_period: String::new(),
        registered_delivery: 0,
        replace_if_present_flag: 0,
        data_coding: 0x08,
        sm_default_msg_id: 0,
        short_message: b"\x4e\x2d".to_vec(),
        tlvs: vec![Tlv::new(0x0204, vec![0x00, 0x2A])],
    };
    d.esm_class = 0;
    let original = Pdu::from(d).to_pdu_bytes(12).to_vec();

    let unified = SmppAdapter.decode(&frame_of(original.clone())).unwrap();
    assert!(matches!(unified, UnifiedMessage::Deliver(_)), "expected Deliver");
    let reencoded = SmppAdapter.encode(&unified, Sequence::Plain(12)).unwrap();
    assert_eq!(reencoded, original);
}

#[test]
fn report_byte_roundtrip_via_unified() {
    let d = DeliverSm {
        service_type: String::new(),
        source_addr_ton: 5,
        source_addr_npi: 0,
        source_addr: "1065900000".to_string(),
        dest_addr_ton: 1,
        dest_addr_npi: 1,
        destination_addr: "13800138000".to_string(),
        esm_class: 0x04,
        protocol_id: 0,
        priority_flag: 0,
        schedule_delivery_time: String::new(),
        validity_period: String::new(),
        registered_delivery: 0,
        replace_if_present_flag: 0,
        data_coding: 0,
        sm_default_msg_id: 0,
        short_message: b"id:9876543210 stat:DELIVRD".to_vec(),
        tlvs: vec![Tlv::new(0x001E, b"9876543210".to_vec())],
    };
    let original = Pdu::from(d).to_pdu_bytes(13).to_vec();

    let unified1 = SmppAdapter.decode(&frame_of(original.clone())).unwrap();
    match &unified1 {
        UnifiedMessage::Report(r) => {
            assert_eq!(r.msg_id, MessageId::Text("9876543210".to_string()));
            assert_eq!(r.src.number, "1065900000");
            assert_eq!(r.dest.number, "13800138000");
        }
        other => panic!("expected Report, got {other:?}"),
    }
    let reencoded = SmppAdapter.encode(&unified1, Sequence::Plain(13)).unwrap();
    let unified2 = SmppAdapter.decode(&frame_of(reencoded)).unwrap();
    assert_eq!(unified1, unified2);
}


fn set_command_status(mut bytes: Vec<u8>, status: u32) -> Vec<u8> {
    bytes[8..12].copy_from_slice(&status.to_be_bytes());
    bytes
}

#[test]
fn decode_submit_resp_surfaces_command_status() {
    let bytes = Pdu::from(SubmitSmResp { message_id: "9".to_string(), command_status: 0 })
        .to_pdu_bytes(7)
        .to_vec();
    let bytes = set_command_status(bytes, 0x0000_0045);
    match SmppAdapter.decode(&frame_of(bytes)).unwrap() {
        UnifiedMessage::SubmitResp(r) => {
            assert_eq!(r.status, 0x45);
        }
        other => panic!("expected SubmitResp, got {other:?}"),
    }
}

#[test]
fn decode_bind_resp_surfaces_command_status() {
    let bytes = Pdu::from(BindTransceiverResp {
        system_id: "900001".to_string(),
        sc_interface_version: 0x34,
        command_status: 0,
    })
    .to_pdu_bytes(11)
    .to_vec();
    let bytes = set_command_status(bytes, 0x0000_000D);
    match SmppAdapter.decode(&frame_of(bytes)).unwrap() {
        UnifiedMessage::BindResp(r) => {
            assert_eq!(r.status, 0x0D);
        }
        other => panic!("expected BindResp, got {other:?}"),
    }
}

#[test]
fn encode_submit_resp_writes_command_status() {
    let msg = UnifiedMessage::SubmitResp(UnifiedSubmitResp {
        msg_id: MessageId::Text("9".to_string()),
        status: 0x58,
    });
    let bytes = SmppAdapter.encode(&msg, Sequence::Plain(1)).unwrap();
    let cs = u32::from_be_bytes([bytes[8], bytes[9], bytes[10], bytes[11]]);
    assert_eq!(cs, 0x58);
}

#[test]
fn encode_bind_resp_writes_command_status() {
    let msg = UnifiedMessage::BindResp(UnifiedBindResp { status: 0x0D });
    let bytes = SmppAdapter.encode(&msg, Sequence::Plain(1)).unwrap();
    let cs = u32::from_be_bytes([bytes[8], bytes[9], bytes[10], bytes[11]]);
    assert_eq!(cs, 0x0D);
}

#[test]
fn decode_report_parses_delivery_status() {
    let d = DeliverSm {
        service_type: String::new(),
        source_addr_ton: 0,
        source_addr_npi: 0,
        source_addr: String::new(),
        dest_addr_ton: 0,
        dest_addr_npi: 0,
        destination_addr: "1065900000".to_string(),
        esm_class: 0x04,
        protocol_id: 0,
        priority_flag: 0,
        schedule_delivery_time: String::new(),
        validity_period: String::new(),
        registered_delivery: 0,
        replace_if_present_flag: 0,
        data_coding: 0,
        sm_default_msg_id: 0,
        short_message: b"id:9876543210 sub:001 dlvrd:001 stat:DELIVRD err:000 text:hi".to_vec(),
        tlvs: vec![Tlv::new(0x001E, b"9876543210".to_vec())],
    };
    let bytes = Pdu::from(d).to_pdu_bytes(20).to_vec();
    match SmppAdapter.decode(&frame_of(bytes)).unwrap() {
        UnifiedMessage::Report(r) => {
            assert_eq!(r.status, DeliveryStatus::Delivered);
        }
        other => panic!("expected Report, got {other:?}"),
    }
}

#[test]
fn submit_concat_udh_roundtrip_via_unified() {
    let mut s = SubmitSm::new();
    s.source_addr = "10086".to_string();
    s.destination_addr = "13800138000".to_string();
    s.esm_class = 0x40;
    s.data_coding = 0;
    s.short_message = vec![0x05, 0x00, 0x03, 7, 2, 1, b'A', b'B'];
    let original = Pdu::from(s).to_pdu_bytes(30).to_vec();

    let unified = SmppAdapter.decode(&frame_of(original.clone())).unwrap();
    match &unified {
        UnifiedMessage::Submit(u) => {
            assert_eq!(u.concat, Some(Concat { reference: 7, total: 2, sequence: 1 }));
            assert_eq!(u.content, b"AB");
        }
        other => panic!("expected Submit, got {other:?}"),
    }
    let reencoded = SmppAdapter.encode(&unified, Sequence::Plain(30)).unwrap();
    assert_eq!(reencoded, original);
}

#[test]
fn report_resp_equals_deliver_resp() {
    let seq = Sequence::Plain(42);
    let a = SmppAdapter.encode(&UnifiedMessage::ReportResp, seq).unwrap();
    let b = SmppAdapter.encode(&UnifiedMessage::DeliverResp, seq).unwrap();
    assert_eq!(a, b);
}

#[test]
fn adapter_is_for_smpp() {
    assert_eq!(SmppAdapter.protocol(), Protocol::Smpp);
}

#[test]
fn ping_goes_both_ways() {
    let bytes = SmppAdapter.encode(&UnifiedMessage::Ping, Sequence::Plain(3)).unwrap();
    assert_eq!(bytes, Pdu::from(EnquireLink::new()).to_pdu_bytes(3).to_vec());
    assert!(matches!(SmppAdapter.decode(&frame_of(bytes)).unwrap(), UnifiedMessage::Ping));
}

#[test]
fn what_smpp_cannot_carry_is_refused() {
    let msg = UnifiedMessage::Unknown { command_id: 5, raw: vec![1, 2] };
    match SmppAdapter.encode(&msg, Sequence::Plain(1)) {
        Err(RsmsError::Other(s)) => assert!(s.ends_with("Unknown { command_id: 5, raw: [1, 2] }")),
        other => panic!("expected an error, got {other:?}"),
    }
    match SmppAdapter.decode(&frame_of(vec![0; 4])) {
        Err(RsmsError::Codec(s)) => assert_eq!(s, "buffer too short for SMPP header"),
        other => panic!("expected an error, got {other:?}"),
    }
}

#[test]
fn receipts_have_words_for_states() {
    let word = |s: &str| DeliveryStatus::from_receipt_text(format!("id:1 stat:{s} err:000").as_bytes());
    assert_eq!(word("DELIVRD"), DeliveryStatus::Delivered);
    assert_eq!(word("EXPIRED"), DeliveryStatus::Expired);
    assert_eq!(word("DELETED"), DeliveryStatus::Deleted);
    assert_eq!(word("UNDELIV"), DeliveryStatus::Undeliverable);
    assert_eq!(word("ACCEPTD"), DeliveryStatus::Accepted);
    assert_eq!(word("REJECTD"), DeliveryStatus::Rejected);
    assert_eq!(word("UNKNOWN"), DeliveryStatus::Unknown);
    assert_eq!(DeliveryStatus::from_receipt_text(b"no state"), DeliveryStatus::Unknown);
    assert_eq!(DeliveryStatus::Delivered.as_str(), "Delivered");
}

#[test]
fn concatenation_headers_are_read_back() {
    let small = Concat { reference: 7, total: 2, sequence: 1 };
    assert_eq!(small.to_udh_prefix(), vec![5, 0, 3, 7, 2, 1]);
    let large = Concat { reference: 0x1234, total: 3, sequence: 2 };
    assert_eq!(large.to_udh_prefix(), vec![6, 8, 4, 0x12, 0x34, 3, 2]);
    let mut content = large.to_udh_prefix();
    content.push(b'A');
    assert_eq!(Concat::from_udh(&content), Some((large, 7)));
    assert_eq!(Concat::from_udh(b"plain text"), None);
}

#[test]
fn alphabets_go_both_ways() {
    let through = |dcs: u8| {
        let mut sm = SubmitSm::new().with_message("138", "1065", b"hi");
        sm.data_coding = dcs;
        let bytes = Pdu::from(sm).to_pdu_bytes(1).to_vec();
        let unified = SmppAdapter.decode(&frame_of(bytes.clone())).unwrap();
        let back = SmppAdapter.encode(&unified, Sequence::Plain(1)).unwrap();
        (unified, back == bytes)
    };
    for dcs in [0, 1, 4, 8, 0xF5] {
        assert!(through(dcs).1, "data coding {dcs} is kept");
    }
    let (unified, same) = through(0x10);
    assert!(matches!(unified, UnifiedMessage::Submit(s) if s.encoding == Encoding::Ucs2));
    assert!(!same);
}

#[test]
fn results_of_submitting_go_both_ways() {
    let resp = SubmitSmResp { message_id: "9".to_string(), command_status: 0x58 };
    let bytes = Pdu::from(resp).to_pdu_bytes(6).to_vec();
    let unified = SmppAdapter.decode(&frame_of(bytes.clone())).unwrap();
    assert_eq!(SmppAdapter.encode(&unified, Sequence::Plain(6)).unwrap(), bytes);
}
