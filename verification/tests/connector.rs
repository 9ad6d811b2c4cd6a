//! Framing, sessions, handlers, pools and turns of the connector.

use rsms::connector::account::{AccountConnections, AccountPool};
use rsms::connector::adapter_registry::{adapter_for, Adapters};
use rsms::connector::client::{
    build_cmpp_active_test_pdu, build_sgip_keepalive_pdu, build_smgp_active_test_pdu,
    build_smpp_enquire_link_pdu, check_interval_ms, check_request, connect_plan, fetch_turn,
    keepalive_pdu, keepalive_turn, send_turn, ClientAction, ClientConfig, ClientEvent, ClientLoop,
    CmppDecoder, ConnectionEvent, FetchTurn, KeepaliveTurn, PendingQueue, SendTurn, SgipDecoder,
};
use rsms::connector::client_pool::{Adjustment, ClientPool};
use rsms::connector::command::{is_close, is_submit};
use rsms::connector::connection::{
    close_packet, decode_frames_drain, encode_close_packet, registration, Registration,
    ServerAction, ServerEvent, ServerLoop,
};
use rsms::connector::framing::{encode_pdu12, encode_pdu16, encode_pdu20, pdu_sequence};
use rsms::connector::handlers::{cmpp, sgip, smgp, smpp};
use rsms::connector::id_generator::SimpleIdGenerator;
use rsms::connector::pool::ConnectionState;
use rsms::connector::protocol::{
    AccountConfig, AccountPoolConfig, AuthCredentials, AuthResult, FrameDecoder, HandleResult,
    MessageItem,
};
use rsms::connector::server::{
    accept_turn, drain_turn, inbound_batch, inbound_turn, AcceptTurn, DrainTurn, FetcherTable,
    InboundTurn,
};
use rsms::connector::state::{ClientConnection, Connection};
use rsms::encoded_pdu::RawPdu;
use rsms::endpoint::EndpointConfig;
use rsms::error::RsmsError;
use rsms::frame::Frame;
use rsms::id_generator::IdGenerator;
use rsms::model::{ProtocolAdapter, Sequence, UnifiedMessage};
use rsms::protocol::Protocol;
use rsms::session::SessionState;
use rsms::smpp::datatypes::bind::BindTransceiver;
use rsms::smpp::datatypes::link::{EnquireLink, Unbind};
use rsms::smpp::message::{decode_message, SmppMessage};
use rsms::smpp::pdu::Pdu;
use std::time::Duration;

#[test]
fn smgp_close_fixed_to_12b() {
    let fixed = close_packet(Protocol::Smgp).expect("smgp close");
    assert_eq!(fixed.len(), 12);
    assert_ne!(fixed, encode_close_packet(Protocol::Smgp).expect("legacy"));
}

struct Stub(Protocol);

impl ProtocolAdapter for Stub {
    fn protocol(&self) -> Protocol {
        self.0
    }

    fn decode(&self, frame: &Frame) -> Result<UnifiedMessage, RsmsError> {
        Err(RsmsError::Codec(format!("no frame {}", frame.command_id)))
    }

    fn encode(&self, _msg: &UnifiedMessage, _seq: Sequence) -> Result<Vec<u8>, RsmsError> {
        Err(RsmsError::Other("not written".to_string()))
    }
}

#[test]
fn each_adapter_reports_its_protocol() {
    let (cmpp, smgp, sgip) = (Stub(Protocol::Cmpp), Stub(Protocol::Smgp), Stub(Protocol::Sgip));
    let adapters = Adapters { cmpp: Some(&cmpp), smgp: Some(&smgp), sgip: Some(&sgip) };
    for p in [Protocol::Cmpp, Protocol::Smgp, Protocol::Smpp, Protocol::Sgip] {
        assert_eq!(adapter_for(p, adapters).unwrap().protocol(), p);
    }
    let adapter = adapter_for(Protocol::Smpp, Adapters::new()).unwrap();
    assert_eq!(adapter.protocol(), Protocol::Smpp);
    for p in [Protocol::Cmpp, Protocol::Smgp, Protocol::Sgip] {
        assert!(adapter_for(p, Adapters::new()).is_none());
    }
}

#[test]
fn converged_keepalive_arms_byte_identical() {
    assert_eq!(keepalive_pdu(Protocol::Cmpp), build_cmpp_active_test_pdu());
    let adapter = adapter_for(Protocol::Smpp, Adapters::new()).unwrap();
    assert_eq!(
        adapter.encode(&UnifiedMessage::Ping, Sequence::Plain(1)).ok(),
        Some(build_smpp_enquire_link_pdu())
    );
    assert_eq!(keepalive_pdu(Protocol::Smpp), build_smpp_enquire_link_pdu());
}

#[test]
fn smgp_keepalive_fixed_sgip_no_ping() {
    let smgp = keepalive_pdu(Protocol::Smgp);
    assert_eq!(smgp.len(), 12);
    assert_ne!(smgp, build_smgp_active_test_pdu());
    assert_eq!(keepalive_pdu(Protocol::Sgip), build_sgip_keepalive_pdu());
}

#[test]
fn close_packet_uses_adapter_for_all_protocols() {
    for p in [Protocol::Cmpp, Protocol::Smgp, Protocol::Sgip, Protocol::Smpp] {
        match adapter_for(p, Adapters::new()) {
            Some(adapter) => {
                let via = adapter.encode(&UnifiedMessage::Unbind, Sequence::Plain(0)).ok();
                assert_eq!(close_packet(p), via);
            }
            None => assert!(close_packet(p).is_some()),
        }
    }
}

#[test]
fn signs_of_life_on_the_wire() {
    assert_eq!(build_cmpp_active_test_pdu(), vec![0, 0, 0, 12, 0, 0, 0, 8, 0, 0, 0, 1]);
    assert_eq!(build_smgp_active_test_pdu(), vec![0, 0, 0, 13, 0, 0, 0, 4, 0, 0, 0, 1, 0]);
    assert_eq!(keepalive_pdu(Protocol::Smgp), vec![0, 0, 0, 12, 0, 0, 0, 4, 0, 0, 0, 1]);
    assert_eq!(keepalive_pdu(Protocol::Cmpp), build_cmpp_active_test_pdu());
    assert_eq!(keepalive_pdu(Protocol::Smpp), build_smpp_enquire_link_pdu());
    assert_eq!(keepalive_pdu(Protocol::Sgip), build_sgip_keepalive_pdu());
    assert_eq!(build_sgip_keepalive_pdu()[..8], [0, 0, 0, 20, 0, 0, 0x10, 0]);
}

#[test]
fn closing_packets_on_the_wire() {
    assert_eq!(close_packet(Protocol::Cmpp).unwrap(), vec![0, 0, 0, 12, 0, 0, 0, 2, 0, 0, 0, 0]);
    assert_eq!(close_packet(Protocol::Smgp).unwrap(), vec![0, 0, 0, 12, 0, 0, 0, 6, 0, 0, 0, 0]);
    assert_eq!(close_packet(Protocol::Smpp).unwrap().len(), 16);
    assert_eq!(close_packet(Protocol::Sgip).unwrap().len(), 20);
    assert!(is_close(2) && is_close(6) && !is_close(4));
}

#[test]
fn pdus_have_their_lengths() {
    assert_eq!(encode_pdu12(4, 9, b"ab"), vec![0, 0, 0, 14, 0, 0, 0, 4, 0, 0, 0, 9, b'a', b'b']);
    let pdu = encode_pdu16(4, 7, 9, b"a");
    assert_eq!(pdu, vec![0, 0, 0, 17, 0, 0, 0, 4, 0, 0, 0, 7, 0, 0, 0, 9, b'a']);
    let pdu = encode_pdu20(3, b"a");
    assert_eq!(pdu.len(), 21);
    assert_eq!(&pdu[..8], &[0, 0, 0, 21, 0, 0, 0, 3]);
    assert_eq!(pdu_sequence(&encode_pdu12(4, 9, b""), Protocol::Cmpp), Some(9));
    assert_eq!(pdu_sequence(&encode_pdu16(4, 0, 5, b""), Protocol::Smpp), Some(5));
    assert_eq!(pdu_sequence(&[0; 11], Protocol::Cmpp), None);
}

#[test]
fn frames_are_cut_off_the_front() {
    let mut buf = encode_pdu12(4, 1, b"x");
    buf.extend(encode_pdu12(5, 2, b""));
    buf.extend([0, 0, 0, 12, 0, 0]);
    let frames = CmppDecoder.decode_frames(&mut buf).unwrap();
    assert_eq!(frames.len(), 2);
    assert_eq!((frames[0].command_id, frames[0].sequence_id, frames[0].len()), (4, 1, 13));
    assert_eq!((frames[1].command_id, frames[1].sequence_id), (5, 2));
    assert_eq!(buf, vec![0, 0, 0, 12, 0, 0]);
    // Bytes in front of a frame that no frame can start with are skipped.
    let mut buf = vec![0xFF, 0xFF, 0xFF];
    buf.extend(encode_pdu12(4, 7, b""));
    let frames = CmppDecoder.decode_frames(&mut buf).unwrap();
    assert_eq!((frames.len(), frames[0].sequence_id, buf.len()), (1, 7, 0));
    let mut buf = encode_pdu20(3, b"");
    let frames = SgipDecoder.decode_frames(&mut buf).unwrap();
    assert_eq!(frames[0].len(), 20);
    assert!(buf.is_empty());
}

fn decoded(decoder: impl FrameDecoder, buf: &mut Vec<u8>) -> Vec<Frame> {
    decoder.decode_frames(buf).unwrap()
}

#[test]
fn boxed_decoders_take_the_same_frames() {
    let mut buf = encode_pdu12(4, 9, b"abc");
    buf.extend([0, 0]);
    let frames = decoded(Box::new(CmppDecoder), &mut buf);
    assert_eq!((frames.len(), frames[0].sequence_id, frames[0].len()), (1, 9, 15));
    assert_eq!(buf, [0, 0]);
    let mut buf = encode_pdu20(3, b"");
    assert_eq!(decoded(Box::new(SgipDecoder), &mut buf)[0].len(), 20);
}

#[test]
fn servers_take_short_frames() {
    let mut buf = vec![0, 0, 0, 4, 0, 0, 0, 5, 9];
    let frames = decode_frames_drain(&mut buf, Protocol::Cmpp).unwrap();
    assert_eq!(frames.len(), 2);
    assert_eq!((frames[0].command_id, frames[0].sequence_id), (0, 0));
    assert_eq!(frames[1].data_as_slice(), &[0, 0, 0, 5, 9]);
}

fn frame(command_id: u32, sequence_id: u32) -> Frame {
    Frame::from(RawPdu::from_vec(encode_pdu12(command_id, sequence_id, b"")))
}

#[test]
fn clients_read_decode_and_handle() {
    let mut reader = ClientLoop::new();
    assert!(matches!(reader.next(ClientEvent::TimedOut { ready: true }), ClientAction::Read));
    assert!(matches!(reader.next(ClientEvent::Data(vec![1, 2])), ClientAction::Decode));
    assert_eq!(reader.buffer, vec![1, 2]);
    let frames = vec![frame(5, 1), frame(6, 2), frame(5, 3)];
    assert!(matches!(reader.next(ClientEvent::Decoded(frames)), ClientAction::Handle(f) if f.sequence_id == 1));
    assert!(matches!(reader.next(ClientEvent::Handled), ClientAction::Close(f) if f.sequence_id == 2));
    assert!(matches!(reader.next(ClientEvent::Handled), ClientAction::Read));
    assert!(matches!(
        reader.next(ClientEvent::Undecodable),
        ClientAction::Stop { decode_error: true }
    ));
    assert!(matches!(
        reader.next(ClientEvent::TimedOut { ready: false }),
        ClientAction::Stop { decode_error: false }
    ));
    assert!(matches!(reader.next(ClientEvent::Closed), ClientAction::Stop { decode_error: false }));
}

#[test]
fn servers_hand_frames_on() {
    let mut server = ServerLoop::new(Protocol::Cmpp, 60);
    assert_eq!(server.poll_ms(), 1000);
    assert!(matches!(server.next(ServerEvent::Opened, false), ServerAction::Read));
    let mut data = encode_pdu12(4, 1, b"");
    let whole = data.clone();
    data.truncate(7);
    assert!(matches!(server.next(ServerEvent::Data(data), false), ServerAction::Read));
    let rest = whole[7..].to_vec();
    assert!(matches!(
        server.next(ServerEvent::Data(rest), false),
        ServerAction::Handle(f) if f.sequence_id == 1
    ));
    assert!(matches!(
        server.next(ServerEvent::Handled(HandleResult::Continue), false),
        ServerAction::RunChain
    ));
    assert!(matches!(server.next(ServerEvent::ChainDone, false), ServerAction::Register));
    assert!(matches!(
        server.next(ServerEvent::Handled(HandleResult::Stop), false),
        ServerAction::Register
    ));
    assert!(matches!(
        server.next(ServerEvent::Registered, true),
        ServerAction::Stop { farewell: None }
    ));
    let idle = ServerEvent::TimedOut { idle_nanos: 60_000_000_000 };
    assert!(matches!(server.next(idle, false), ServerAction::Read));
    let idle = ServerEvent::TimedOut { idle_nanos: 60_000_000_001 };
    match server.next(idle, false) {
        ServerAction::Stop { farewell } => assert_eq!(farewell, close_packet(Protocol::Cmpp)),
        other => panic!("expected the end, got {other:?}"),
    }
}

#[test]
fn connections_join_their_accounts_once() {
    let name = || Some("900001".to_string());
    assert!(matches!(registration(true, true, name()), Registration::Keep));
    assert!(matches!(registration(false, false, name()), Registration::Keep));
    assert!(matches!(registration(false, true, None), Registration::Unauthenticated));
    match registration(false, true, name()) {
        Registration::Join(account) => assert_eq!(account, "900001"),
        other => panic!("expected an account, got {other:?}"),
    }
}

#[test]
fn requests_are_checked_in_order() {
    let config = ClientConfig::new();
    assert!(config.can_submit);
    let pdu = encode_pdu12(4, 9, b"");
    assert_eq!(check_request(&config, true, true, Protocol::Cmpp, &pdu).unwrap(), 9);
    let muted = config.with_can_submit(false);
    match check_request(&muted, false, false, Protocol::Cmpp, &[]) {
        Err(RsmsError::Other(s)) => assert_eq!(s, "submit not allowed"),
        other => panic!("expected an error, got {other:?}"),
    }
    match check_request(&config, false, false, Protocol::Cmpp, &[]) {
        Err(RsmsError::ConnectionClosed(s)) => assert_eq!(s, "connection not ready"),
        other => panic!("expected an error, got {other:?}"),
    }
    match check_request(&config, true, false, Protocol::Cmpp, &[]) {
        Err(RsmsError::Codec(s)) => assert_eq!(s, "Window not initialized"),
        other => panic!("expected an error, got {other:?}"),
    }
    assert!(check_request(&config, true, true, Protocol::Cmpp, &pdu[..11]).is_err());
}

#[test]
fn pending_pdus_go_out_in_order() {
    let mut queue = PendingQueue::new();
    for n in 1..=3 {
        queue.push_pending(RawPdu::from_vec(encode_pdu12(4, n, b"")));
    }
    assert_eq!(queue.pending_count(), 3);
    let next = queue.next_unsent(Protocol::Cmpp, &[1, 2]).unwrap();
    assert_eq!(next.to_vec(), encode_pdu12(4, 3, b""));
    assert_eq!(queue.pending_count(), 0);
    assert!(queue.pop_pending().is_none());
}

#[test]
fn outbound_turns() {
    assert_eq!(fetch_turn(false, true, true), FetchTurn::Stop);
    assert_eq!(fetch_turn(true, true, true), FetchTurn::Fetch { batch_size: 16 });
    assert!(matches!(fetch_turn(true, true, false), FetchTurn::Pause { .. }));
    let items = vec![
        MessageItem::Single(RawPdu::from_vec(vec![1])),
        MessageItem::Group { items: vec![RawPdu::from_vec(vec![2]), RawPdu::from_vec(vec![3])] },
    ];
    match send_turn(Ok(items), true) {
        SendTurn::Send(pdus) => {
            let bytes: Vec<Vec<u8>> = pdus.iter().map(|p| p.to_vec()).collect();
            assert_eq!(bytes, vec![vec![1], vec![2], vec![3]]);
        }
        other => panic!("expected PDUs, got {other:?}"),
    }
    assert!(matches!(send_turn(Ok(vec![]), true), SendTurn::Pause { .. }));
    assert!(matches!(send_turn(Err(RsmsError::SyncClosed), true), SendTurn::Pause { .. }));
}

#[test]
fn signs_of_life_are_sent_in_time() {
    assert_eq!(check_interval_ms(60), 1000);
    assert_eq!(check_interval_ms(1), 100);
    assert_eq!(keepalive_turn(false, 0, 60), KeepaliveTurn::Stop);
    assert_eq!(keepalive_turn(true, 29_000_000_000, 60), KeepaliveTurn::Wait);
    assert_eq!(keepalive_turn(true, 31_000_000_000, 60), KeepaliveTurn::Send);
}

#[test]
fn connecting_follows_the_endpoint() {
    let endpoint = EndpointConfig::new("ep", "127.0.0.1", 7890, 16, 60)
        .with_window_size(32)
        .with_timeout(Duration::from_millis(500));
    let plan = connect_plan(&endpoint, None, true);
    assert_eq!(plan.address, "127.0.0.1:7890");
    assert_eq!(plan.window_size, 32);
    assert_eq!(plan.resp_timeout_secs, Some(1));
    assert_eq!(plan.idle_timeout, 60);
    assert!(connect_plan(&endpoint, None, false).resp_timeout_secs.is_none());
}

#[test]
fn cmpp_clients_log_in() {
    let connect = || cmpp::CmppConnect {
        sequence_id: 3,
        source_addr: "900001".to_string(),
        authenticator_source: [7; 16],
        version: 0x20,
        timestamp: 11,
    };
    let login = match cmpp::on_request(cmpp::CmppRequest::Connect(connect()), true) {
        cmpp::CmppStep::Authenticate { login, client_id, credentials } => {
            assert_eq!(client_id, "900001");
            assert!(matches!(
                credentials,
                AuthCredentials::Cmpp { version: 0x20, timestamp: 11, .. }
            ));
            login
        }
        other => panic!("expected a question, got {other:?}"),
    };
    let outcome = cmpp::on_verdict(login, Ok(AuthResult::success("900001")));
    assert_eq!(outcome.account.as_deref(), Some("900001"));
    let reply = outcome.reply.unwrap();
    assert_eq!(reply, cmpp::encode_connect_resp(3, 0x20, 0));
    assert_eq!(reply.len(), 30);
    assert_eq!(cmpp::encode_connect_resp(3, 0x30, 0).len(), 33);
    let outcome = cmpp::on_verdict(login, Ok(AuthResult::failure(3, "wrong password")));
    assert!(outcome.account.is_none());
    assert_eq!(outcome.reply.unwrap(), cmpp::encode_connect_resp(3, 0x20, 3));
    assert!(cmpp::is_version_supported(0x30) && !cmpp::is_version_supported(0x40));
    assert!(cmpp::is_cmpp_v2(0x20) && !cmpp::is_cmpp_v2(0x30));
    match cmpp::on_request(cmpp::CmppRequest::Terminate { sequence_id: 5 }, true) {
        cmpp::CmppStep::Done(outcome) => {
            assert_eq!(outcome.reply.unwrap()[4..12], [0x80, 0, 0, 2, 0, 0, 0, 5]);
        }
        other => panic!("expected an answer, got {other:?}"),
    }
    let pdu = cmpp::encode_error_response(0x8000_0001, 5, 9);
    assert_eq!(pdu[4..], [0x80, 0, 0, 1, 0, 0, 0, 5, 0, 0, 0, 9]);
}

#[test]
fn smgp_clients_log_in() {
    let connect = smgp::SmgpConnect {
        sequence_id: 3,
        client_id: "900001".to_string(),
        authenticator: [7; 16],
        version: 0x30,
    };
    let login = match smgp::on_request(smgp::SmgpRequest::Login(connect), true) {
        smgp::SmgpStep::Authenticate { login, client_id, .. } => {
            assert_eq!(client_id, "900001");
            login
        }
        other => panic!("expected a question, got {other:?}"),
    };
    let reply = smgp::on_verdict(login, Err(RsmsError::SyncTimeout)).reply.unwrap();
    assert_eq!(reply.sequence_id, 3);
    assert!(matches!(reply.body, smgp::SmgpBody::LoginResp { version: 0x30, .. }));
    let outcome = smgp::on_verdict(login, Ok(AuthResult::success("900001")));
    assert_eq!(outcome.account.as_deref(), Some("900001"));
    let reply = outcome.reply.unwrap();
    assert_eq!(reply.body, smgp::SmgpBody::LoginResp { status: 0, version: 0x30 });
    assert_eq!(reply.frame(b"xy")[..12], [0, 0, 0, 14, 0x80, 0, 0, 1, 0, 0, 0, 3]);
}

#[test]
fn sgip_clients_log_in() {
    let bind = sgip::SgipBind {
        login_name: "sp".to_string(),
        login_password: "secret".to_string(),
    };
    match sgip::on_request(sgip::SgipRequest::Bind(bind), true) {
        sgip::SgipStep::Authenticate { client_id, credentials } => {
            assert_eq!(client_id, "sp");
            assert!(matches!(
                credentials,
                AuthCredentials::Sgip { login_password, .. } if login_password == "secret"
            ));
        }
        other => panic!("expected a question, got {other:?}"),
    }
    let outcome = sgip::on_verdict(Ok(AuthResult::success("sp")));
    assert_eq!(outcome.reply, Some(sgip::SgipReply::BindResp { result: 0 }));
    let protocol = sgip::SgipProtocol::new();
    assert_eq!(protocol.name(), "sgip");
    assert_eq!(protocol.submit_resp(5), sgip::SgipReply::SubmitResp { code: 5 });
    assert_eq!(sgip::SgipReply::UnbindResp.frame(b"").len(), 20);
    let mut pdu = sgip::encode_sgip_error_response(1, 9);
    assert_eq!(pdu, [0, 0, 0, 24, 0x80, 0, 0, 1, 0, 0, 0, 0, 0, 0, 0, 0, 0, 0, 0, 0, 0, 0, 0, 9]);
    assert_eq!(sgip::encode_sgip_error_response(0x8000_0001, 9), pdu);
    // A client reads the answer as a frame.
    let frames = SgipDecoder.decode_frames(&mut pdu).unwrap();
    assert_eq!((frames.len(), frames[0].command_id, pdu.len()), (1, 0x8000_0001, 0));
}

fn smpp_frame(pdu: Pdu, sequence_id: u32) -> Frame {
    let mut data = pdu.to_pdu_bytes(sequence_id).to_vec();
    let mut frames = decode_frames_drain(&mut data, Protocol::Smpp).unwrap();
    frames.remove(0)
}

#[test]
fn smpp_clients_log_in() {
    let bind = Pdu::from(BindTransceiver::new("900001", "secret", "CMT", 0x34));
    let login = match smpp::on_frame(&smpp_frame(bind, 5), None, true) {
        smpp::SmppStep::Authenticate { login, client_id, credentials } => {
            assert_eq!(client_id, "900001");
            assert!(matches!(
                credentials,
                AuthCredentials::Smpp { password, interface_version: 0x34, .. } if password == "secret"
            ));
            login
        }
        other => panic!("expected a question, got {other:?}"),
    };
    let outcome = smpp::on_verdict(login, Ok(AuthResult::failure(13, "no")));
    assert!(outcome.account.is_none() && outcome.version.is_none());
    match decode_message(&outcome.reply.unwrap()).unwrap() {
        SmppMessage::BindTransceiverResp(resp) => {
            assert_eq!(resp.system_id, "SERVER");
            assert_eq!(resp.command_status, 13);
        }
        other => panic!("expected a response, got {other:?}"),
    }
    let outcome = smpp::on_verdict(login, Ok(AuthResult::success("900001")));
    assert_eq!(outcome.account.as_deref(), Some("900001"));
    assert_eq!(outcome.version, Some(0x34));
}

#[test]
fn smpp_links_are_answered() {
    match smpp::on_frame(&smpp_frame(Pdu::from(EnquireLink::new()), 7), Some(0x34), true) {
        smpp::SmppStep::Done(outcome) => {
            assert_eq!(outcome.result, HandleResult::Continue);
            let reply = outcome.reply.unwrap();
            assert_eq!(reply[4..], [0x80, 0, 0, 0x15, 0, 0, 0, 0, 0, 0, 0, 7]);
        }
        other => panic!("expected an answer, got {other:?}"),
    }
    match smpp::on_frame(&smpp_frame(Pdu::from(Unbind::new()), 8), Some(0x34), true) {
        smpp::SmppStep::Done(outcome) => {
            assert_eq!(outcome.result, HandleResult::Stop);
            assert!(matches!(
                decode_message(&outcome.reply.unwrap()),
                Ok(SmppMessage::UnbindResp(_))
            ));
        }
        other => panic!("expected an answer, got {other:?}"),
    }
}

fn usable(id: u64, last_active: u128) -> ConnectionState {
    ConnectionState { id, ready: true, session: SessionState::Logined, last_active }
}

#[test]
fn connections_take_turns() {
    let mut account = AccountConnections::new("900001", AccountConfig::new());
    assert!(account.fetch_available_connection().is_err());
    for id in 1..=3 {
        account.add_connection(usable(id, 0));
    }
    let turns: Vec<u64> =
        (0..6).map(|_| account.fetch_available_connection().unwrap().id).collect();
    assert_eq!(turns, vec![1, 2, 3, 1, 2, 3]);
    let mut gone = usable(2, 0);
    gone.ready = false;
    account.refresh(gone);
    let turns: Vec<u64> =
        (0..4).map(|_| account.fetch_available_connection().unwrap().id).collect();
    assert!(!turns.contains(&2));
    account.remove_connection(1);
    assert_eq!(account.connection_count(), 2);
    assert!(account.get_connection_by_id(1).is_none());
    assert_eq!(account.first_connection().unwrap().id, 2);
}

#[test]
fn too_many_connections_are_closed() {
    let mut account = AccountConnections::new("900001", AccountConfig::new());
    for (id, last_active) in [(1, 10), (2, 30), (3, 20)] {
        account.add_connection(usable(id, last_active));
    }
    let change = account.update_config(AccountConfig::new().with_max_connections(2));
    assert_eq!(change.evicted.len(), 1);
    assert_eq!(account.connection_count(), 2);
    assert!(account.evict_excess_connections().is_empty());
}

#[test]
fn batches_under_way_are_counted() {
    let mut account = AccountConnections::new("900001", AccountConfig::new());
    account.increment_inflight();
    account.increment_inflight();
    account.decrement_inflight();
    assert_eq!(account.inflight(), 1);
    let mut pool = AccountPool::new(AccountConfig::new(), AccountPoolConfig::new());
    let at = pool.get_or_create("a");
    pool.account_mut(at).increment_inflight();
    let other = pool.get_or_create("b");
    assert_ne!(at, other);
    assert_eq!(pool.get_or_create("a"), at);
    assert_eq!(pool.total_inflight(), 1);
    assert_eq!(pool.all_accounts().len(), 2);
    pool.account_mut(other).add_connection(usable(4, 100));
    assert_eq!(pool.connection_count("b"), 1);
    assert_eq!(pool.unhealthy(1_000, 100), vec![(4, "b".to_string())]);
    assert!(pool.unhealthy(150, 100).is_empty());
    assert!(pool.update_config("c", AccountConfig::new()).is_err());
    pool.remove("a");
    assert!(pool.get("a").is_none());
}

#[test]
fn client_pools_keep_their_size() {
    let mut pool = ClientPool::new(2);
    assert_eq!(pool.start(), 2);
    assert!(matches!(pool.adjust_connections(), Adjustment::Open(2)));
    for id in 1..=3 {
        pool.add_connection(id);
    }
    match pool.adjust_connections() {
        Adjustment::Close(ids) => assert_eq!(ids, vec![1]),
        other => panic!("expected a connection to close, got {other:?}"),
    }
    assert_eq!(pool.get_connections(), vec![2, 3]);
    assert!(matches!(pool.adjust_connections(), Adjustment::Nothing));
    assert_eq!(pool.on_connection_event(ConnectionEvent::disconnected(2)), 2);
    assert_eq!(pool.connection_count(), 1);
    pool.set_max_channels(1);
    assert!(matches!(pool.adjust_connections(), Adjustment::Nothing));
}

#[test]
fn servers_accept_up_to_their_limit() {
    assert_eq!(accept_turn(true, false, 1, 2), AcceptTurn::Serve);
    assert_eq!(accept_turn(true, false, 2, 2), AcceptTurn::Refuse);
    assert_eq!(accept_turn(true, false, 70_000, 0), AcceptTurn::Serve);
    assert_eq!(accept_turn(false, true, 0, 2), AcceptTurn::Stop);
    assert_eq!(accept_turn(false, false, 0, 2), AcceptTurn::Retry);
}

#[test]
fn fetchers_are_started_up_to_their_limit() {
    let mut table = FetcherTable::new();
    assert!(table.start_one("a", 2));
    assert!(table.start_one("a", 2));
    assert!(!table.start_one("a", 2));
    assert!(table.start_one("b", 1));
    table.retain(&vec!["b".to_string()]);
    assert!(table.start_one("a", 1));
    assert!(!table.start_one("b", 1));
}

#[test]
fn inbound_turns_keep_the_window() {
    assert_eq!(inbound_turn(false, 16, 0), InboundTurn::Skip);
    assert!(matches!(inbound_turn(true, 16, 15), InboundTurn::Fetch { batch_size: 10, .. }));
    assert_eq!(inbound_turn(true, 16, 16), InboundTurn::Skip);
    assert!(inbound_batch(Err(RsmsError::SyncClosed)).is_none());
    let items = vec![MessageItem::Single(RawPdu::from_vec(vec![1]))];
    assert_eq!(inbound_batch(Ok(items)).unwrap().len(), 1);
}

#[test]
fn draining_ends() {
    assert_eq!(drain_turn(0, 9, 5), DrainTurn::Done);
    assert_eq!(drain_turn(1, 5, 5), DrainTurn::TimedOut);
    assert!(matches!(drain_turn(1, 4, 5), DrainTurn::Wait { .. }));
}

#[test]
fn submits_are_told_from_the_rest() {
    assert!(is_submit(Protocol::Cmpp, 4));
    assert!(is_submit(Protocol::Smgp, 2));
    assert!(is_submit(Protocol::Sgip, 3));
    assert!(is_submit(Protocol::Smpp, 4));
    assert!(!is_submit(Protocol::Smpp, 5));
}

#[test]
fn server_links_live_and_die() {
    let mut link = Connection::new(7, 100);
    assert_eq!(link.id(), 7);
    link.mark_ready();
    link.mark_connected();
    assert_eq!(link.session_state(), SessionState::Connected);
    link.mark_authenticated("900001");
    assert_eq!(link.session_state(), SessionState::Logined);
    assert!(link.authenticated_account().is_none());
    link.set_authenticated_account("900001".to_string());
    assert_eq!(link.authenticated_account().as_deref(), Some("900001"));
    assert_eq!(link.session_state(), SessionState::Logined);
    assert!(link.ready_for_fetch());
    link.set_protocol_version(0x30);
    assert_eq!(link.protocol_version(), Some(0x30));
    link.touch(200);
    assert_eq!(link.idle_nanos(250), 50);
    assert!(link.is_idle(301, 100) && !link.is_idle(300, 100));
    link.mark_disconnected();
    assert!(!link.ready_for_fetch());
    assert_eq!(link.session_state(), SessionState::Disconnected);
}

#[test]
fn client_links_settle_their_requests() {
    let mut link = ClientConnection::new(7, 0);
    link.mark_connected();
    link.set_reports();
    link.request_sent(1);
    link.request_sent(2);
    assert!(link.is_waiting(1));
    assert!(link.request_settled(1));
    assert!(!link.request_settled(1));
    let farewell = link.mark_disconnected();
    assert_eq!(farewell.failed, vec![2]);
    assert!(farewell.report);
    let again = link.mark_disconnected();
    assert!(again.failed.is_empty() && !again.report);
}

#[test]
fn ids_are_handed_out_in_order() {
    let mut ids = SimpleIdGenerator::new();
    let first = ids.next_sequence_id();
    assert_eq!(ids.next_sequence_id(), first + 1);
}

#[test]
fn connections_not_in_use_are_closed_first() {
    let mut account = AccountConnections::new("900001", AccountConfig::new());
    let mut idle = usable(2, 5);
    idle.ready = false;
    account.add_connection(usable(1, 10));
    account.add_connection(idle);
    account.add_connection(usable(3, 20));
    account.update_config(AccountConfig::new().with_max_connections(2));
    assert!(account.get_connection_by_id(2).is_none());
    let change = account.update_config(
        AccountConfig::new().with_max_connections(1).with_max_qps(7).with_window_size_ms(1000),
    );
    assert_eq!(change.rate, Some(7));
    assert_eq!(change.evicted, vec![3]);
    let recent = account.get_least_used_connections(5);
    assert_eq!(recent.len(), 1);
    assert_eq!(recent[0].id, 1);
}

#[test]
fn configurations_are_built_step_by_step() {
    let config = AccountConfig::new();
    assert_eq!((config.max_connections, config.window_size, config.max_qps), (1, 16, 100));
    let config = config.with_max_fetch_threads(4).with_fetch_interval(20).with_window_size(8);
    assert_eq!(
        (config.max_fetch_threads, config.fetch_interval_ms, config.window_size),
        (4, 20, 8)
    );
    let pool = AccountPoolConfig::new();
    assert_eq!(pool.check_interval_ms, 5000);
    assert_eq!(pool.with_check_interval(70).check_interval_ms, 70);
    assert!(HandleResult::Continue.should_continue() && !HandleResult::Stop.should_continue());
}

#[test]
fn frames_survive_however_they_are_cut() {
    let mut stream = Vec::new();
    for n in 1..=5u32 {
        stream.extend(encode_pdu12(4, n, &vec![7; n as usize * 3]));
    }
    for size in [1, 5, 16, 200] {
        let mut server = ServerLoop::new(Protocol::Cmpp, 60);
        let mut seen = Vec::new();
        for piece in stream.chunks(size) {
            let mut action = server.next(ServerEvent::Data(piece.to_vec()), false);
            while let ServerAction::Handle(frame) = action {
                seen.push(frame.sequence_id);
                action = server.next(ServerEvent::Registered, false);
            }
        }
        assert_eq!(seen, vec![1, 2, 3, 4, 5]);
        assert!(server.buffer.is_empty());
    }
}

#[test]
fn unreadable_requests_are_refused() {
    let frame = frame(5, 9);
    let reply = cmpp::on_undecodable(&frame, 3).reply.unwrap();
    assert_eq!(reply, cmpp::encode_error_response(5, 9, 3));
    let short = Frame::from(RawPdu::from_vec(vec![0, 0, 0, 8, 0, 0, 0, 5]));
    assert!(cmpp::on_undecodable(&short, 3).reply.is_none());
    assert!(smgp::on_undecodable().reply.is_none());
    assert!(sgip::on_undecodable(&frame, 3).reply.is_none());
    let long = Frame::from(RawPdu::from_vec(encode_pdu20(3, b"")));
    assert!(sgip::on_undecodable(&long, 3).reply.is_some());
}
