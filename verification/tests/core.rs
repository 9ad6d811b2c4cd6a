//! Errors, protocols, metrics, padded strings and terminated strings.

use bytes::BytesMut;
use rsms::cstring::{decode_cstring, encode_cstring};
use rsms::encoded_pdu::{EncodedPdu, RawPdu};
use rsms::endpoint::EndpointConfig;
use rsms::error::{ErrorKind, RsmsError};
use rsms::frame::Frame;
use rsms::metrics::{Metrics, NoopMetrics};
use rsms::protocol::Protocol;
use rsms::pstring::{decode_pstring, encode_pstring};
use rsms::session::SessionState;
use rsms::smpp::codec::CodecError;
use rsms::text;
use std::io::{Cursor, Error as IoError, ErrorKind as IoKind};
use std::sync::atomic::{AtomicU64, Ordering};
use std::sync::Arc;
use std::time::Duration;

#[test]
fn kind_maps_each_variant() {
    assert_eq!(RsmsError::Io(IoError::from(IoKind::BrokenPipe)).kind(), ErrorKind::Transport);
    assert_eq!(RsmsError::Codec("bad".into()).kind(), ErrorKind::Malformed);
    assert_eq!(RsmsError::EndpointClosed.kind(), ErrorKind::Terminal);
    assert_eq!(RsmsError::NoReadyConnection.kind(), ErrorKind::Capacity);
    assert_eq!(RsmsError::MaxChannels(500).kind(), ErrorKind::Capacity);
    assert_eq!(RsmsError::SyncTimeout.kind(), ErrorKind::Timeout);
    assert_eq!(RsmsError::SyncClosed.kind(), ErrorKind::Closed);
    assert_eq!(RsmsError::NotImplemented("x").kind(), ErrorKind::Other);
    assert_eq!(RsmsError::Other("x".into()).kind(), ErrorKind::Other);
    assert_eq!(RsmsError::ConnectionClosed("x".into()).kind(), ErrorKind::Closed);
    assert_eq!(RsmsError::RateLimited("x".into()).kind(), ErrorKind::RateLimited);
}

#[test]
fn is_retryable_classification() {
    assert!(RsmsError::RateLimited("x".into()).is_retryable());
    assert!(RsmsError::SyncTimeout.is_retryable());
    assert!(RsmsError::ConnectionClosed("x".into()).is_retryable());
    assert!(RsmsError::SyncClosed.is_retryable());
    assert!(RsmsError::NoReadyConnection.is_retryable());
    assert!(RsmsError::MaxChannels(1).is_retryable());
    assert!(!RsmsError::Codec("bad".into()).is_retryable());
    assert!(!RsmsError::EndpointClosed.is_retryable());
    assert!(!RsmsError::NotImplemented("x").is_retryable());
    assert!(!RsmsError::Other("x".into()).is_retryable());
}

#[test]
fn errors_have_texts() {
    assert_eq!(RsmsError::Codec("bad".into()).to_text(), "codec: bad");
    assert_eq!(RsmsError::EndpointClosed.to_text(), "endpoint closed");
    assert_eq!(RsmsError::NoReadyConnection.to_text(), "no ready connection for fetch");
    assert_eq!(RsmsError::MaxChannels(500).to_text(), "max channels reached (500)");
    assert_eq!(RsmsError::SyncTimeout.to_text(), "sync request timed out");
    assert_eq!(RsmsError::SyncClosed.to_text(), "sync response channel closed");
    assert_eq!(RsmsError::NotImplemented("x").to_text(), "not implemented: x");
    assert_eq!(RsmsError::Other("x".into()).to_text(), "other: x");
    assert_eq!(RsmsError::ConnectionClosed("x".into()).to_text(), "connection closed: x");
    assert_eq!(RsmsError::RateLimited("x".into()).to_text(), "rate limited: x");
    let error = RsmsError::from(IoError::new(IoKind::BrokenPipe, "gone"));
    assert_eq!(error.to_text(), "IO: gone");
    assert!(matches!(error, RsmsError::Io(e) if e.kind() == IoKind::BrokenPipe));
    let error = CodecError::from(IoError::new(IoKind::BrokenPipe, "gone"));
    assert_eq!(error.to_text(), "IO error: gone");
    assert!(matches!(error, CodecError::Io(e) if e.kind() == IoKind::BrokenPipe));
}

#[test]
fn shared_pdus_are_pdus() {
    let pdu: Arc<dyn EncodedPdu> =
        Arc::new(RawPdu::from_vec(vec![0, 0, 0, 12, 0, 0, 0, 4, 0, 0, 0, 9]));
    assert_eq!(EncodedPdu::as_bytes(&pdu).len(), 12);
    assert_eq!(EncodedPdu::command_id(&pdu), Some(4));
    assert_eq!(EncodedPdu::sequence_id(&pdu), Some(9));
}

#[test]
fn endpoints_can_be_copied() {
    let config = EndpointConfig::new("ep", "127.0.0.1", 7890, 16, 60)
        .with_protocol(Protocol::Smgp)
        .with_timeout(Duration::from_secs(7))
        .with_log_level(tracing::Level::WARN);
    let copy = config.clone();
    assert_eq!((copy.id.as_str(), copy.host.as_str(), copy.port), ("ep", "127.0.0.1", 7890));
    assert_eq!((copy.max_channels, copy.idle_time_sec, copy.window_size), (16, 60, 16));
    assert_eq!((copy.protocol, copy.timeout), (Protocol::Smgp, Duration::from_secs(7)));
    assert_eq!(copy.log_level, Some(tracing::Level::WARN));
}

#[derive(Default)]
struct CountingMetrics {
    opened: AtomicU64,
    closed: AtomicU64,
    inbound: AtomicU64,
    decode_err: AtomicU64,
    authed: AtomicU64,
}

impl Metrics for CountingMetrics {
    fn connection_opened(&self) {
        self.opened.fetch_add(1, Ordering::Relaxed);
    }
    fn connection_closed(&self) {
        self.closed.fetch_add(1, Ordering::Relaxed);
    }
    fn connection_authenticated(&self, _account: &str) {
        self.authed.fetch_add(1, Ordering::Relaxed);
    }
    fn inbound_frame(&self, _protocol: Protocol, _command_id: u32) {
        self.inbound.fetch_add(1, Ordering::Relaxed);
    }
    fn decode_error(&self, _protocol: Protocol) {
        self.decode_err.fetch_add(1, Ordering::Relaxed);
    }
}

#[test]
fn noop_metrics_is_inert() {
    let m = NoopMetrics;
    m.connection_opened();
    m.connection_authenticated("900001");
    m.inbound_frame(Protocol::Cmpp, 4);
    m.decode_error(Protocol::Smpp);
    m.connection_closed();
}

#[test]
fn counting_metrics_only_overrides_what_it_wants() {
    let m = CountingMetrics::default();
    m.connection_opened();
    m.inbound_frame(Protocol::Cmpp, 4);
    m.inbound_frame(Protocol::Cmpp, 4);
    m.connection_authenticated("900001");
    m.connection_closed();
    assert_eq!(m.opened.load(Ordering::Relaxed), 1);
    assert_eq!(m.inbound.load(Ordering::Relaxed), 2);
    assert_eq!(m.authed.load(Ordering::Relaxed), 1);
    assert_eq!(m.closed.load(Ordering::Relaxed), 1);
    assert_eq!(m.decode_err.load(Ordering::Relaxed), 0);
}

#[test]
fn offsets_match_protocol_headers() {
    assert_eq!(Protocol::Cmpp.seq_offset(), 8);
    assert_eq!(Protocol::Smgp.seq_offset(), 8);
    assert_eq!(Protocol::Smpp.seq_offset(), 12);
    assert_eq!(Protocol::Sgip.seq_offset(), 12);
    assert_eq!(Protocol::Cmpp.header_len(), 12);
    assert_eq!(Protocol::Smpp.header_len(), 16);
    assert_eq!(Protocol::Sgip.header_len(), 20);
}

#[test]
fn parse_is_case_insensitive_and_rejects_unknown() {
    assert_eq!("SMPP".parse::<Protocol>().unwrap(), Protocol::Smpp);
    assert_eq!(" sgip ".parse::<Protocol>().unwrap(), Protocol::Sgip);
    assert!("foo".parse::<Protocol>().is_err());
}

#[test]
fn default_is_cmpp() {
    assert_eq!(Protocol::default(), Protocol::Cmpp);
}

#[test]
fn protocol_names_are_read_back() {
    for p in [Protocol::Cmpp, Protocol::Smgp, Protocol::Smpp, Protocol::Sgip] {
        assert_eq!(Protocol::parse(p.as_str()).unwrap(), p);
    }
    match Protocol::parse(" FOO ") {
        Err(RsmsError::Other(s)) => assert_eq!(s, "unknown protocol: foo"),
        other => panic!("expected an error, got {other:?}"),
    }
    // Only ASCII capitals are made small, and every white space is trimmed.
    match Protocol::parse("\u{3000}\u{c9}MPP\u{a0}\t") {
        Err(RsmsError::Other(s)) => assert_eq!(s, "unknown protocol: \u{c9}mpp"),
        other => panic!("expected an error, got {other:?}"),
    }
}

#[test]
fn encode_pstring_exact_fit() {
    let mut buf = BytesMut::new();
    encode_pstring(&mut buf, "106900", 6, "test").unwrap();
    assert_eq!(&buf[..], b"106900");
}

#[test]
fn encode_pstring_with_padding() {
    let mut buf = BytesMut::new();
    encode_pstring(&mut buf, "SMS", 10, "test").unwrap();
    assert_eq!(buf.len(), 10);
    assert_eq!(&buf[..3], b"SMS");
    assert_eq!(&buf[3..], &[0u8; 7]);
}

#[test]
fn encode_pstring_empty() {
    let mut buf = BytesMut::new();
    encode_pstring(&mut buf, "", 6, "test").unwrap();
    assert_eq!(&buf[..], &[0u8; 6]);
}

#[test]
fn encode_pstring_overflow_error() {
    let mut buf = BytesMut::new();
    let result = encode_pstring(&mut buf, "this_is_too_long", 10, "service_id");
    assert!(result.is_err());
    assert!(result.unwrap_err().contains("service_id"));
}

#[test]
fn decode_pstring_with_null_padding() {
    let data = [b'S', b'M', b'S', 0, 0, 0, 0, 0, 0, 0];
    let mut cursor = Cursor::new(&data[..]);
    let result = decode_pstring(&mut cursor, 10).unwrap();
    assert_eq!(result, "SMS");
}

#[test]
fn decode_pstring_all_nulls() {
    let data = [0u8; 10];
    let mut cursor = Cursor::new(&data[..]);
    let result = decode_pstring(&mut cursor, 10).unwrap();
    assert_eq!(result, "");
}

#[test]
fn decode_pstring_exact_fit() {
    let data = *b"106900";
    let mut cursor = Cursor::new(&data[..]);
    let result = decode_pstring(&mut cursor, 6).unwrap();
    assert_eq!(result, "106900");
}

#[test]
fn roundtrip_encode_decode() {
    let mut buf = BytesMut::new();
    encode_pstring(&mut buf, "SP001", 16, "login").unwrap();
    let mut cursor = Cursor::new(&buf[..]);
    let decoded = decode_pstring(&mut cursor, 16).unwrap();
    assert_eq!(decoded, "SP001");
}

#[test]
fn decode_pstring_needs_the_whole_field() {
    let data = [b'A', b'B'];
    let mut cursor = Cursor::new(&data[..]);
    assert!(decode_pstring(&mut cursor, 3).is_err());
}

#[test]
fn cstrings_are_read_back() {
    let mut buf = BytesMut::new();
    encode_cstring(&mut buf, "SMS", 10).unwrap();
    encode_cstring(&mut buf, "", 1).unwrap();
    assert_eq!(&buf[..], b"SMS\0\0");
    let mut cursor = Cursor::new(&buf[..]);
    assert_eq!(decode_cstring(&mut cursor, 10, "first").unwrap(), "SMS");
    assert_eq!(decode_cstring(&mut cursor, 10, "second").unwrap(), "");
    assert!(decode_cstring(&mut cursor, 10, "third").is_err());
    let mut buf = BytesMut::new();
    assert!(encode_cstring(&mut buf, "abc", 3).is_err());
}

#[test]
fn text_that_is_no_utf8_is_repaired() {
    let data = [b'A', 0xFF, b'B'];
    let mut cursor = Cursor::new(&data[..]);
    assert_eq!(decode_pstring(&mut cursor, 3).unwrap(), "A\u{FFFD}B");
}

#[test]
fn numbers_as_text() {
    assert_eq!(text::decimal(0), "0");
    assert_eq!(text::decimal(4_294_967_295), "4294967295");
    assert_eq!(text::hex(0x1e), "0x1e");
    assert_eq!(text::hex_bytes(&[0x00, 0x9f, 0xab]), "009fab");
    assert_eq!(text::list(&[1, 20, 255]), "[1, 20, 255]");
    assert_eq!(text::list(&[]), "[]");
    assert_eq!(text::pad("abc", 5), "abc  ");
    assert_eq!(text::pad("abcdef", 5), "abcdef");
}

#[test]
fn words_behind_tags() {
    assert_eq!(text::word_behind("id:12 stat:OK", "stat:").unwrap(), "OK");
    assert_eq!(text::word_behind("id:12 stat:OK", "id:").unwrap(), "12");
    assert!(text::word_behind("id: 12", "id:").is_none());
    assert!(text::word_behind("abc", "id:").is_none());
    assert_eq!(text::without_zeros("ab\0\0"), "ab");
}

#[test]
fn raw_pdus_have_commands_and_sequences() {
    let pdu = RawPdu::from_vec(vec![0, 0, 0, 12, 0x80, 0, 0, 4, 0, 0, 0, 9]);
    assert_eq!(pdu.command_id(), Some(0x8000_0004));
    assert_eq!(pdu.sequence_id(), Some(9));
    assert_eq!(pdu.as_bytes(), &pdu.to_vec()[..]);
    let frame = Frame::from(pdu);
    assert_eq!(frame.command_id, 0x8000_0004);
    assert_eq!(frame.sequence_id, 9);
    assert_eq!(frame.len(), 12);
    let short = RawPdu::from(vec![0, 0, 0, 12, 0, 0, 0, 4]);
    assert_eq!(short.command_id(), Some(4));
    assert_eq!(short.sequence_id(), None);
    let frame = Frame::from(short);
    assert_eq!((frame.command_id, frame.sequence_id), (0, 0));
    assert!(RawPdu::new(bytes::Bytes::new()).is_empty());
}

#[test]
fn endpoints_are_built_step_by_step() {
    let config = EndpointConfig::new("ep", "127.0.0.1", 7890, 16, 60);
    assert_eq!(config.id, "ep");
    assert_eq!(config.host, "127.0.0.1");
    assert_eq!((config.port, config.max_channels, config.idle_time_sec), (7890, 16, 60));
    assert_eq!((config.reconnect_interval_sec, config.window_size), (5, 16));
    assert_eq!(config.protocol, Protocol::Cmpp);
    assert_eq!(config.timeout, Duration::from_secs(5));
    assert!(config.log_level.is_none());
    let config = config
        .with_window_size(32)
        .with_protocol(Protocol::Smpp)
        .with_timeout(Duration::from_secs(9))
        .with_reconnect_interval(1)
        .with_log_level(tracing::Level::WARN);
    assert_eq!((config.window_size, config.reconnect_interval_sec), (32, 1));
    assert_eq!(config.protocol, Protocol::Smpp);
    assert_eq!(config.timeout, Duration::from_secs(9));
    assert_eq!(config.log_level, Some(tracing::Level::WARN));
    assert_eq!(config.id, "ep");
}

#[test]
fn session_states_differ() {
    assert_ne!(SessionState::Disconnected, SessionState::Connected);
    assert_ne!(SessionState::Connected, SessionState::Logined);
}
