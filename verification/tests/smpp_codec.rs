//! SMPP headers, bodies and whole PDUs.

use bytes::{BufMut, BytesMut};
use rsms::error::RsmsError;
use rsms::smpp::codec::{CodecError, Decodable, Encodable, PduHeader};
use rsms::smpp::datatypes::address::Address;
use rsms::smpp::datatypes::bind::{BindReceiverResp, BindTransmitter};
use rsms::smpp::datatypes::cancel_sm::CancelSm;
use rsms::smpp::datatypes::command_id::CommandId;
use rsms::smpp::datatypes::command_status::CommandStatus;
use rsms::smpp::datatypes::data_coding::DataCoding;
use rsms::smpp::datatypes::link::{EnquireLink, GenericNack, Unbind};
use rsms::smpp::datatypes::query_sm::{QuerySm, QuerySmResp};
use rsms::smpp::datatypes::short_message::{DeliverSmResp, SubmitSm, SubmitSmResp};
use rsms::smpp::datatypes::tlv::Tlv;
use rsms::smpp::message::{decode_message, decode_message_with_version, SmppMessage};
use rsms::smpp::pdu::Pdu;
use rsms::smpp::registry::{register_all_pdus, PduRegistry};
use rsms::smpp::submit_decode::{decode_deliver_sm, decode_submit_sm};
use rsms::smpp::version::SmppVersion;
use std::io::Cursor;

#[test]
fn test_command_id_is_response() {
    assert!(!CommandId::BIND_TRANSMITTER.is_response());
    assert!(CommandId::BIND_TRANSMITTER_RESP.is_response());
    assert!(!CommandId::SUBMIT_SM.is_response());
    assert!(CommandId::SUBMIT_SM_RESP.is_response());
    assert!(!CommandId::ENQUIRE_LINK.is_response());
    assert!(CommandId::ENQUIRE_LINK_RESP.is_response());
}

#[test]
fn test_pdu_header_encode_decode() {
    let header = PduHeader {
        command_length: 24,
        command_id: CommandId::ENQUIRE_LINK,
        command_status: CommandStatus::ESME_ROK,
        sequence_number: 42,
    };

    let mut buf = BytesMut::new();
    header.encode(&mut buf).unwrap();

    let mut cursor = Cursor::new(buf.as_ref());
    let decoded = PduHeader::decode(&mut cursor).unwrap();

    assert_eq!(header, decoded);
}

#[test]
fn test_enquire_link_roundtrip() {
    let original = EnquireLink::new();

    let mut buf = BytesMut::new();
    original.encode(&mut buf).unwrap();
    let body_len = buf.len();

    let header = PduHeader {
        command_length: (body_len + PduHeader::SIZE) as u32,
        command_id: CommandId::ENQUIRE_LINK,
        command_status: CommandStatus::ESME_ROK,
        sequence_number: 1,
    };
    header.encode(&mut buf).unwrap();

    let mut cursor = Cursor::new(buf.as_ref());
    let decoded_header = PduHeader::decode(&mut cursor).unwrap();
    assert_eq!(decoded_header.command_id, CommandId::ENQUIRE_LINK);

    let decoded = EnquireLink::decode(decoded_header, &mut cursor).unwrap();
    assert_eq!(original, decoded);
}

#[test]
fn test_bind_transmitter_roundtrip() {
    let original = BindTransmitter::new("test_system", "password", "SMPP", 0x34);

    let mut body_buf = BytesMut::new();
    original.encode(&mut body_buf).unwrap();
    let body_len = body_buf.len();

    let header = PduHeader {
        command_length: (body_len + PduHeader::SIZE) as u32,
        command_id: CommandId::BIND_TRANSMITTER,
        command_status: CommandStatus::ESME_ROK,
        sequence_number: 1,
    };

    let mut full_buf = BytesMut::new();
    header.encode(&mut full_buf).unwrap();
    full_buf.extend_from_slice(&body_buf);

    let mut cursor = Cursor::new(full_buf.as_ref());
    let decoded_header = PduHeader::decode(&mut cursor).unwrap();
    assert_eq!(decoded_header.command_id, CommandId::BIND_TRANSMITTER);
    assert_eq!(decoded_header.command_status, CommandStatus::ESME_ROK);

    let decoded = BindTransmitter::decode(decoded_header, &mut cursor).unwrap();
    assert_eq!(original.system_id, decoded.system_id);
    assert_eq!(original.password, decoded.password);
}

#[test]
fn test_submit_sm_roundtrip() {
    let mut original = SubmitSm::new();
    original.service_type = "CMT".to_string();
    original.source_addr = "1234567890".to_string();
    original.destination_addr = "0987654321".to_string();
    original.short_message = b"Hello, World!".to_vec();

    let mut body_buf = BytesMut::new();
    original.encode(&mut body_buf).unwrap();
    let body_len = body_buf.len();

    let header = PduHeader {
        command_length: (body_len + PduHeader::SIZE) as u32,
        command_id: CommandId::SUBMIT_SM,
        command_status: CommandStatus::ESME_ROK,
        sequence_number: 1,
    };

    let mut full_buf = BytesMut::new();
    header.encode(&mut full_buf).unwrap();
    full_buf.extend_from_slice(&body_buf);

    let mut cursor = Cursor::new(full_buf.as_ref());
    let decoded_header = PduHeader::decode(&mut cursor).unwrap();
    assert_eq!(decoded_header.command_id, CommandId::SUBMIT_SM);

    let decoded = SubmitSm::decode(decoded_header, &mut cursor).unwrap();
    assert_eq!(original.destination_addr, decoded.destination_addr);
    assert_eq!(original.source_addr, decoded.source_addr);
}

#[test]
fn test_codec_error_to_command_status() {
    let err = CodecError::InvalidCommandId(0x9999);
    assert_eq!(err.to_command_status(), CommandStatus::ESME_RINVCMDID);

    let err = CodecError::InvalidPduLength { length: 5, min: 16, max: 65536 };
    assert_eq!(err.to_command_status(), CommandStatus::ESME_RINVMSGLEN);
}

#[test]
fn test_generic_nack_decode() {
    let mut encoded = BytesMut::new();
    encoded.put_u32(16);
    encoded.put_u32(0x80000000u32);
    encoded.put_u32(0x00000003);
    encoded.put_u32(123);

    let mut cursor = Cursor::new(encoded.as_ref());
    let header = PduHeader::decode(&mut cursor).unwrap();
    let decoded = GenericNack::decode(header, &mut cursor).unwrap();

    assert_eq!(decoded, GenericNack::new());
}

#[test]
fn decode_message_short_body_never_panics() {
    let command_ids: &[u32] = &[
        CommandId::BIND_TRANSMITTER.as_u32(),
        CommandId::BIND_TRANSMITTER_RESP.as_u32(),
        CommandId::BIND_RECEIVER.as_u32(),
        CommandId::BIND_RECEIVER_RESP.as_u32(),
        CommandId::BIND_TRANSCEIVER.as_u32(),
        CommandId::BIND_TRANSCEIVER_RESP.as_u32(),
        CommandId::SUBMIT_SM.as_u32(),
        CommandId::SUBMIT_SM_RESP.as_u32(),
        CommandId::DELIVER_SM.as_u32(),
        CommandId::DELIVER_SM_RESP.as_u32(),
        CommandId::DATA_SM.as_u32(),
    ];

    for &cmd_id in command_ids {
        for n in 0u32..48 {
            let total_len = 16 + n;
            let mut pdu = vec![0u8; total_len as usize];
            pdu[0..4].copy_from_slice(&total_len.to_be_bytes());
            pdu[4..8].copy_from_slice(&cmd_id.to_be_bytes());
            pdu[12..16].copy_from_slice(&1u32.to_be_bytes());

            let _ = decode_message_with_version(&pdu, Some(SmppVersion::V34));
            let _ = decode_message_with_version(&pdu, Some(SmppVersion::V50));
        }
    }
}

#[test]
fn header_errors() {
    let decode = |length: u32, id: u32, status: u32, sequence: u32| {
        let mut buf = BytesMut::new();
        buf.put_u32(length);
        buf.put_u32(id);
        buf.put_u32(status);
        buf.put_u32(sequence);
        let data = buf.to_vec();
        let mut cursor = Cursor::new(&data[..]);
        PduHeader::decode(&mut cursor)
    };
    assert!(matches!(
        decode(15, 0x15, 0, 1),
        Err(CodecError::InvalidPduLength { length: 15, min: 16, max: 65536 })
    ));
    assert!(matches!(decode(16, 0x9999, 0, 1), Err(CodecError::InvalidCommandId(0x9999))));
    assert!(decode(16, 0x15, 0, 1).is_ok());
    let data = [0u8; 3];
    let mut cursor = Cursor::new(&data[..]);
    assert!(matches!(PduHeader::decode(&mut cursor), Err(CodecError::Incomplete)));
}

#[test]
fn enquire_link_on_the_wire() {
    let bytes = Pdu::from(EnquireLink::new()).to_pdu_bytes(1).to_vec();
    assert_eq!(bytes, vec![0, 0, 0, 16, 0, 0, 0, 0x15, 0, 0, 0, 0, 0, 0, 0, 1]);
    assert!(matches!(decode_message(&bytes), Ok(SmppMessage::EnquireLink(_))));
}

#[test]
fn pdus_are_read_back() {
    let bytes = Pdu::from(QuerySm::new("17", "10086")).to_pdu_bytes(2).to_vec();
    match decode_message(&bytes).unwrap() {
        SmppMessage::QuerySm(q) => {
            assert_eq!(q.message_id, "17");
            assert_eq!(q.source_addr, "10086");
        }
        other => panic!("expected a query, got {other:?}"),
    }
    let bytes = Pdu::from(CancelSm::new("18", "10010")).to_pdu_bytes(2).to_vec();
    match decode_message(&bytes).unwrap() {
        SmppMessage::CancelSm(c) => assert_eq!(c.message_id, "18"),
        other => panic!("expected a cancellation, got {other:?}"),
    }
    let resp = BindReceiverResp {
        system_id: "SERVER".to_string(),
        sc_interface_version: 0x34,
        command_status: 13,
    };
    let bytes = Pdu::from(resp).to_pdu_bytes(3).to_vec();
    match decode_message(&bytes).unwrap() {
        SmppMessage::BindReceiverResp(r) => {
            assert_eq!(r.system_id, "SERVER");
            assert_eq!(r.command_status, 13);
        }
        other => panic!("expected a response, got {other:?}"),
    }
    let bytes = Pdu::from(DeliverSmResp { message_id: "5".to_string() }).to_pdu_bytes(3).to_vec();
    match decode_message(&bytes).unwrap() {
        SmppMessage::DeliverSmResp(r) => assert_eq!(r.message_id, "5"),
        other => panic!("expected a response, got {other:?}"),
    }
}

#[test]
fn unknown_commands_are_kept() {
    let data = [0, 0, 0, 18, 0, 0, 0x77, 0x77, 0, 0, 0, 0, 0, 0, 0, 1, 0xAB, 0xCD];
    match decode_message(&data).unwrap() {
        SmppMessage::Unknown { command_id, body } => {
            assert_eq!(command_id, 0x7777);
            assert_eq!(body, vec![0xAB, 0xCD]);
        }
        other => panic!("expected something unknown, got {other:?}"),
    }
}

#[test]
fn message_errors() {
    match decode_message(&[0; 15]) {
        Err(RsmsError::Codec(s)) => assert_eq!(s, "buffer too short for SMPP header"),
        other => panic!("expected an error, got {other:?}"),
    }
    let mut long = [0u8; 16];
    long[..4].copy_from_slice(&100_001u32.to_be_bytes());
    match decode_message(&long) {
        Err(RsmsError::Codec(s)) => assert_eq!(s, "invalid SMPP length: 100001"),
        other => panic!("expected an error, got {other:?}"),
    }
    let mut short = [0u8; 20];
    short[..4].copy_from_slice(&20u32.to_be_bytes());
    short[7] = 4;
    match decode_message(&short) {
        Err(RsmsError::Codec(s)) => assert_eq!(s, "SubmitSm body too short"),
        other => panic!("expected an error, got {other:?}"),
    }
}

#[test]
fn longer_addresses_need_the_later_version() {
    let mut sm = SubmitSm::new();
    sm.source_addr = "1".repeat(20);
    sm.destination_addr = "2".repeat(20);
    let bytes = Pdu::from(sm).to_pdu_bytes(1).to_vec();
    let mut body = bytes[16..].to_vec();
    assert!(decode_submit_sm(Some(SmppVersion::V34), 0, &body).is_ok());
    assert!(decode_deliver_sm(None, 0, &body).is_ok());
    // One more digit in the source address.
    body.insert(3, b'1');
    assert!(decode_submit_sm(Some(SmppVersion::V34), 0, &body).is_err());
    match decode_submit_sm(Some(SmppVersion::V50), 0, &body) {
        Ok(sm) => assert_eq!(sm.source_addr.len(), 21),
        Err(e) => panic!("unexpected error {e:?}"),
    }
}

#[test]
fn messages_that_are_not_all_there_are_empty() {
    let mut sm = SubmitSm::new();
    sm.short_message = b"hi".to_vec();
    sm.tlvs.push(Tlv::new(0x0204, vec![0, 7]));
    let bytes = Pdu::from(sm).to_pdu_bytes(1).to_vec();
    let mut body = bytes[16..].to_vec();
    match decode_submit_sm(None, 0, &body) {
        Ok(sm) => assert_eq!((sm.short_message, sm.tlvs.len()), (b"hi".to_vec(), 1)),
        Err(e) => panic!("unexpected error {e:?}"),
    }
    // The length byte stands in front of the text and the parameter.
    let at = body.len() - 9;
    assert_eq!(body[at], 2);
    body[at] = 200;
    match decode_submit_sm(None, 0, &body) {
        Ok(sm) => assert_eq!((sm.short_message.len(), sm.tlvs.len()), (0, 0)),
        Err(e) => panic!("unexpected error {e:?}"),
    }
    // What is left would be a parameter of its own.
    body.truncate(at + 1);
    body.extend([2, 4, 0, 2, 0, 7]);
    match decode_deliver_sm(None, 0, &body) {
        Ok(sm) => assert_eq!((sm.short_message.len(), sm.tlvs.len()), (0, 0)),
        Err(e) => panic!("unexpected error {e:?}"),
    }
}

#[test]
fn registry_knows_what_was_registered() {
    let mut registry = PduRegistry::new();
    let body = [];
    let header = PduHeader {
        command_length: 16,
        command_id: CommandId::UNBIND,
        command_status: CommandStatus::ESME_ROK,
        sequence_number: 1,
    };
    let mut cursor = Cursor::new(&body[..]);
    assert!(!matches!(registry.decode(header, &mut cursor), Ok(Pdu::Unbind(_))));
    registry.register::<Unbind>();
    let header = PduHeader {
        command_length: 16,
        command_id: CommandId::UNBIND,
        command_status: CommandStatus::ESME_ROK,
        sequence_number: 1,
    };
    let mut cursor = Cursor::new(&body[..]);
    assert!(matches!(registry.decode(header, &mut cursor), Ok(Pdu::Unbind(_))));
    let mut all = PduRegistry::default();
    register_all_pdus(&mut all);
    let header = PduHeader {
        command_length: 16,
        command_id: CommandId::ENQUIRE_LINK,
        command_status: CommandStatus::ESME_ROK,
        sequence_number: 1,
    };
    let mut cursor = Cursor::new(&body[..]);
    assert!(matches!(all.decode(header, &mut cursor), Ok(Pdu::EnquireLink(_))));
}

/// A request of an application's own that is read as a refusal.
struct Data;

impl Decodable for Data {
    fn decode(_header: PduHeader, buf: &mut Cursor<&[u8]>) -> Result<Self, CodecError> {
        buf.set_position(1);
        Ok(Data)
    }

    fn command_id() -> CommandId {
        CommandId::DATA_SM
    }
}

impl From<Data> for Pdu {
    fn from(_data: Data) -> Self {
        Pdu::GenericNack(GenericNack::new())
    }
}

/// In place of the library's own.
struct Quiet;

impl Decodable for Quiet {
    fn decode(_header: PduHeader, _buf: &mut Cursor<&[u8]>) -> Result<Self, CodecError> {
        Err(CodecError::Incomplete)
    }

    fn command_id() -> CommandId {
        CommandId::UNBIND
    }
}

impl From<Quiet> for Pdu {
    fn from(_quiet: Quiet) -> Self {
        Pdu::Unknown
    }
}

#[test]
fn registered_types_read_their_bodies() {
    let header = |command_id: CommandId| PduHeader {
        command_length: 18,
        command_id,
        command_status: CommandStatus::ESME_ROK,
        sequence_number: 1,
    };
    let body = [7, 8];
    let mut registry = PduRegistry::default();
    let mut cursor = Cursor::new(&body[..]);
    assert!(matches!(
        registry.decode(header(CommandId::DATA_SM), &mut cursor),
        Err(CodecError::UnknownCommand(CommandId::DATA_SM))
    ));
    registry.register::<Data>();
    assert!(matches!(
        registry.decode(header(CommandId::DATA_SM), &mut cursor),
        Ok(Pdu::GenericNack(_))
    ));
    assert_eq!(cursor.position(), 1);
    registry.register::<Quiet>();
    assert!(matches!(
        registry.decode(header(CommandId::UNBIND), &mut cursor),
        Err(CodecError::Incomplete)
    ));
    registry.register::<Unbind>();
    assert!(matches!(registry.decode(header(CommandId::UNBIND), &mut cursor), Ok(Pdu::Unbind(_))));
}

#[test]
fn later_versions_read_the_same_messages() {
    let mut sm = SubmitSm::new().with_message("13800138000", "1065900000", b"hi");
    sm.service_type = "CMT".to_string();
    sm.tlvs.push(Tlv::new(0x0204, vec![0, 7]));
    let bytes = Pdu::from(sm.clone()).to_pdu_bytes(9).to_vec();
    for version in [None, Some(SmppVersion::V34), Some(SmppVersion::V50)] {
        match decode_message_with_version(&bytes, version) {
            Ok(SmppMessage::SubmitSm(read)) => assert_eq!(read, sm),
            other => panic!("expected the message, got {other:?}"),
        }
    }
}

#[test]
fn addresses_and_parameters_are_read_back() {
    let address = Address::new(1, 2, "13800138000");
    let mut buf = BytesMut::new();
    address.encode(&mut buf).unwrap();
    let mut cursor = Cursor::new(buf.as_ref());
    let decoded = Address::decode(&mut cursor).unwrap();
    assert_eq!((decoded.ton, decoded.npi), (1, 2));
    assert_eq!(decoded.address, "13800138000");
    let tlv = Tlv::new(0x0204, vec![0, 42]);
    assert_eq!(&tlv.to_bytes()[..], &[2, 4, 0, 2, 0, 42]);
    let data = tlv.to_bytes().to_vec();
    let mut cursor = Cursor::new(&data[..]);
    let decoded = Tlv::decode(&mut cursor).unwrap();
    assert_eq!(decoded.tag, 0x0204);
    assert_eq!(&decoded.value[..], &[0, 42]);
}

#[test]
fn codes_have_names() {
    assert_eq!(CommandId::from_u32(4), Some(CommandId::SUBMIT_SM));
    assert_eq!(CommandId::from_u32(0x10), None);
    assert_eq!(CommandStatus::from_u32(0), Some(CommandStatus::ESME_ROK));
    assert_eq!(CommandStatus::ESME_RINVCMDID.as_u32(), 3);
    assert!(DataCoding::from_u8(0x10).unwrap().is_ucs2());
    assert!(DataCoding::from_u8(1).unwrap().is_7bit());
    assert!(DataCoding::from_u8(2).unwrap().is_8bit());
    assert!(DataCoding::from_u8(0x0B).is_none());
}

#[test]
fn errors_as_text() {
    assert_eq!(CodecError::InvalidCommandId(0x9999).to_text(), "Invalid command_id: 0x9999");
    match RsmsError::from(CodecError::Incomplete) {
        RsmsError::Codec(s) => assert_eq!(s, "Incomplete PDU: need more data"),
        other => panic!("expected a codec error, got {other:?}"),
    }
}

#[test]
fn several_parameters_are_read_back() {
    let mut sm = SubmitSm::new().with_message("138", "1065", b"hi");
    sm.tlvs.push(Tlv::new(0x0204, vec![0, 42]));
    sm.tlvs.push(Tlv::new(0x0424, vec![]));
    sm.tlvs.push(Tlv::new(0x001E, b"9\0".to_vec()));
    let bytes = Pdu::from(sm).to_pdu_bytes(1).to_vec();
    match decode_message(&bytes).unwrap() {
        SmppMessage::SubmitSm(sm) => {
            let tags: Vec<u16> = sm.tlvs.iter().map(|tlv| tlv.tag).collect();
            assert_eq!(tags, vec![0x0204, 0x0424, 0x001E]);
            assert_eq!(&sm.tlvs[2].value[..], b"9\0");
        }
        other => panic!("expected a message, got {other:?}"),
    }
}

#[test]
fn sequence_numbers_do_not_matter_for_reading() {
    let resp = |seq: u32| {
        let resp = SubmitSmResp { message_id: "9".to_string(), command_status: 0x45 };
        Pdu::from(resp).to_pdu_bytes(seq).to_vec()
    };
    for seq in [0, 1, 0xFFFF_FFFF] {
        match decode_message(&resp(seq)).unwrap() {
            SmppMessage::SubmitSmResp(r) => {
                assert_eq!((r.message_id.as_str(), r.command_status), ("9", 0x45));
            }
            other => panic!("expected a response, got {other:?}"),
        }
    }
}

#[test]
fn answers_to_queries_are_read_back() {
    let resp = QuerySmResp {
        message_id: "17".to_string(),
        message_state: 2,
        message_state_text: Some("DELIVERED".to_string()),
    };
    let bytes = Pdu::from(resp).to_pdu_bytes(4).to_vec();
    match decode_message(&bytes).unwrap() {
        SmppMessage::QuerySmResp(r) => {
            assert_eq!((r.message_id.as_str(), r.message_state), ("17", 2));
            assert_eq!(r.message_state_text.as_deref(), Some("DELIVERED"));
        }
        other => panic!("expected a response, got {other:?}"),
    }
}

#[test]
fn responses_have_the_high_bit() {
    for code in [1, 2, 3, 4, 5, 6, 8, 9, 0x15, 0x103] {
        let request = CommandId::from_u32(code).unwrap();
        let response = CommandId::from_u32(code + 0x8000_0000).unwrap();
        assert!(!request.is_response() && response.is_response());
        assert_eq!(request.as_u32(), code);
    }
}

#[test]
fn strings_that_do_not_fit_are_refused() {
    let bind = BindTransmitter::new("sixteen-bytes-id", "secret", "", 0x34);
    let mut buf = BytesMut::new();
    match bind.encode(&mut buf) {
        Err(CodecError::FieldValidation { reason, .. }) => {
            assert_eq!(reason, "exceeds maximum length of 15 bytes");
        }
        other => panic!("expected an error, got {other:?}"),
    }
}

#[test]
fn header_refusals() {
    let decode = |length: u32, id: u32, status: u32, sequence: u32| {
        let words = [length, id, status, sequence];
        let data: Vec<u8> = words.iter().flat_map(|w| w.to_be_bytes()).collect();
        PduHeader::decode(&mut Cursor::new(&data[..]))
    };
    assert!(matches!(
        decode(65537, 0x15, 0, 1),
        Err(CodecError::InvalidPduLength { length: 65537, .. })
    ));
    assert!(matches!(decode(16, 0x15, 0x7777, 1), Err(CodecError::InvalidCommandStatus(0x7777))));
    assert!(matches!(decode(16, 0x15, 8, 1), Err(CodecError::InvalidRequestStatus { .. })));
    assert!(decode(16, 0x8000_0015, 8, 1).is_ok());
    assert!(matches!(decode(16, 0x15, 0, 0), Err(CodecError::ReservedSequenceNumber(0))));
    assert!(matches!(
        decode(16, 0x15, 0, 0xFFFF_FFFF),
        Err(CodecError::ReservedSequenceNumber(0xFFFF_FFFF))
    ));
}
