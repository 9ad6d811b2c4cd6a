//! Asking for the state of a message.

use crate::cstring;
use crate::smpp::codec;
use crate::smpp::codec::{CodecError, Decodable, Encodable, PduHeader, ReadError};
use crate::smpp::datatypes::command_id::CommandId;
use crate::smpp::grammar;
use crate::smpp::grammar::{Scan, Written};
use crate::text;
use crate::wire;
use bytes::BytesMut;
use std::io::Cursor;
use vstd::prelude::*;
use vstd::string::*;
use vstd::utf8::*;

verus! {

/// Asks for the state of a message.
#[derive(Debug, Clone, PartialEq)]
pub struct QuerySm {
    pub message_id: String,
    pub source_addr_ton: u8,
    pub source_addr_npi: u8,
    pub source_addr: String,
}

/// The same as a mathematical value.
#[verifier::ext_equal]
pub struct QueryFields {
    pub message_id: Seq<char>,
    pub source_addr_ton: u8,
    pub source_addr_npi: u8,
    pub source_addr: Seq<char>,
}

impl View for QuerySm {
    type V = QueryFields;

    open spec fn view(&self) -> QueryFields {
        QueryFields {
            message_id: self.message_id@,
            source_addr_ton: self.source_addr_ton,
            source_addr_npi: self.source_addr_npi,
            source_addr: self.source_addr@,
        }
    }
}

impl QueryFields {
    /// The fields on the wire.
    pub open spec fn written(self) -> Written {
        Written::new().string(self.message_id, 65).byte(self.source_addr_ton).byte(self.source_addr_npi).string(self.source_addr, 21)
    }

    /// Where reading the fields ends.
    pub open spec fn end(body: Seq<u8>) -> Scan {
        Scan::of(body).after_string(65, "message_id"@).after_byte().after_byte().after_string(21, "source_addr"@)
    }

    /// The fields that are read.
    pub open spec fn read(body: Seq<u8>) -> QueryFields {
        let s0 = Scan::of(body);
        let s1 = s0.after_string(65, "message_id"@);
        let s2 = s1.after_byte();
        let s3 = s2.after_byte();
        QueryFields {
            message_id: s0.string(),
            source_addr_ton: s1.byte(),
            source_addr_npi: s2.byte(),
            source_addr: s3.string(),
        }
    }

    /// The fields can be written and read back.
    pub open spec fn fits(self) -> bool {
        &&& grammar::fits(self.message_id, 65)
        &&& grammar::fits(self.source_addr, 21)
    }
}

impl QuerySm {
    /// Reads the fields.
    pub(crate) fn read(buf: &mut Cursor<&[u8]>) -> (res: Result<Self, ReadError>)
        ensures
            ({
                let body = wire::cursor_rest(*old(buf));
                let end = QueryFields::end(body);
                &&& res is Ok <==> end.ok()
                &&& res matches Ok(pdu) ==> pdu@ == QueryFields::read(body)
                &&& res matches Err(e) ==> e.is_fault(end.fault->0)
                &&& wire::cursor_rest(*final(buf)) == end.rest
            }),
    {
        let message_id = match codec::read_string(buf, 65, "message_id") {
            Ok(s) => s,
            Err(e) => {
                return Err(e);
            },
        };
        let source_addr_ton: u8 = match codec::read_byte(buf) {
            Ok(b) => b,
            Err(e) => {
                return Err(e);
            },
        };
        let source_addr_npi: u8 = match codec::read_byte(buf) {
            Ok(b) => b,
            Err(e) => {
                return Err(e);
            },
        };
        let source_addr = match codec::read_string(buf, 21, "source_addr") {
            Ok(s) => s,
            Err(e) => {
                return Err(e);
            },
        };
        Ok(
            QuerySm {
                message_id,
                source_addr_ton,
                source_addr_npi,
                source_addr,
            },
        )
    }
}

impl Encodable for QuerySm {
    open spec fn written(&self) -> Written {
        self@.written()
    }

    open spec fn size(&self) -> nat {
        88
    }

    fn encode(&self, buf: &mut BytesMut) -> Result<(), CodecError> {
        let ghost start = wire::buffer_bytes(*buf);
        let ghost w = Written::new();
        assert(start + w.bytes =~= start);
        match codec::write_string(buf, self.message_id.as_str(), 65, Ghost(start), Ghost(w)) {
            Ok(_) => {},
            Err(e) => {
                return Err(e);
            },
        }
        let ghost w = w.string(self.message_id@, 65);
        codec::write_byte(buf, self.source_addr_ton, Ghost(start), Ghost(w));
        let ghost w = w.byte(self.source_addr_ton);
        codec::write_byte(buf, self.source_addr_npi, Ghost(start), Ghost(w));
        let ghost w = w.byte(self.source_addr_npi);
        match codec::write_string(buf, self.source_addr.as_str(), 21, Ghost(start), Ghost(w)) {
            Ok(_) => {},
            Err(e) => {
                return Err(e);
            },
        }
        Ok(())
    }

    fn encoded_size(&self) -> usize {
        65 + 1 + 1 + 21
    }
}

impl Decodable for QuerySm {
    open spec fn command() -> CommandId {
        CommandId::QUERY_SM
    }

    open spec fn end(body: Seq<u8>) -> Scan {
        QueryFields::end(body)
    }

    open spec fn is_body(self, header: PduHeader, body: Seq<u8>) -> bool {
        self@ == QueryFields::read(body)
    }

    fn decode(header: PduHeader, buf: &mut Cursor<&[u8]>) -> Result<Self, CodecError> {
        if header.command_id != CommandId::QUERY_SM {
            return Err(codec::command_mismatch());
        }
        match QuerySm::read(buf) {
            Ok(pdu) => Ok(pdu),
            Err(e) => Err(e.into_codec()),
        }
    }

    fn command_id() -> CommandId {
        CommandId::QUERY_SM
    }
}

/// A query that fits, written and read back, is the query.
pub proof fn law_query_roundtrip(pdu: QueryFields, tail: Seq<u8>)
    requires
        pdu.fits(),
    ensures
        pdu.written().ok(),
        QueryFields::end(pdu.written().bytes + tail) == Scan::of(tail),
        QueryFields::read(pdu.written().bytes + tail) == pdu,
{
    let t4 = tail;
    let t3 = cstring::cstring_bytes(pdu.source_addr) + t4;
    let t2 = seq![pdu.source_addr_npi] + t3;
    let t1 = seq![pdu.source_addr_ton] + t2;
    let t0 = cstring::cstring_bytes(pdu.message_id) + t1;
    let w0 = Written::new();
    let w1 = w0.string(pdu.message_id, 65);
    let w2 = w1.byte(pdu.source_addr_ton);
    let w3 = w2.byte(pdu.source_addr_npi);
    grammar::lemma_new(t0);
    grammar::lemma_then_string(w0, pdu.message_id, 65, t1);
    grammar::lemma_then_byte(w1, pdu.source_addr_ton, t2);
    grammar::lemma_then_byte(w2, pdu.source_addr_npi, t3);
    grammar::lemma_then_string(w3, pdu.source_addr, 21, t4);
    grammar::lemma_read_string(pdu.message_id, 65, "message_id"@, t1);
    grammar::lemma_read_byte(pdu.source_addr_ton, t2);
    grammar::lemma_read_byte(pdu.source_addr_npi, t3);
    grammar::lemma_read_string(pdu.source_addr, 21, "source_addr"@, t4);
}

impl QuerySm {
    pub fn new(message_id: &str, source_addr: &str) -> (pdu: Self)
        ensures
            pdu@ == (QueryFields {
                message_id: message_id@,
                source_addr_ton: 0,
                source_addr_npi: 0,
                source_addr: source_addr@,
            }),
    {
        QuerySm {
            message_id: message_id.to_owned(),
            source_addr_ton: 0,
            source_addr_npi: 0,
            source_addr: source_addr.to_owned(),
        }
    }
}

/// The field of a state in words, where it is written.
pub const STATE_TEXT_LENGTH: usize = 65;

/// Says what state a message is in.
#[derive(Debug, Clone, PartialEq)]
pub struct QuerySmResp {
    pub message_id: String,
    pub message_state: u8,
    pub message_state_text: Option<String>,
}

/// The same as a mathematical value.
#[verifier::ext_equal]
pub struct QueryRespFields {
    pub message_id: Seq<char>,
    pub message_state: u8,
    pub message_state_text: Option<Seq<char>>,
}

impl View for QuerySmResp {
    type V = QueryRespFields;

    open spec fn view(&self) -> QueryRespFields {
        QueryRespFields {
            message_id: self.message_id@,
            message_state: self.message_state,
            message_state_text: match self.message_state_text {
                Some(text) => Some(text@),
                None => None,
            },
        }
    }
}

impl QueryRespFields {
    /// The response on the wire.
    pub open spec fn written(self) -> Written {
        let head = Written::new().string(self.message_id, 65).byte(self.message_state);
        match self.message_state_text {
            Some(text) => head.string(text, STATE_TEXT_LENGTH),
            None => head,
        }
    }

    /// Behind the id and the state.
    pub open spec fn head(body: Seq<u8>) -> Scan {
        Scan::of(body).after_string(65, "message_id"@).after_byte()
    }

    /// Where reading the response ends, with a field of `text_len` bytes for the words.
    pub open spec fn end(body: Seq<u8>, text_len: nat) -> Scan {
        let head = Self::head(body);
        if head.ok() && head.rest.len() > 0 {
            head.after_string(text_len, "message_state_text"@)
        } else {
            head
        }
    }

    /// The response that is read. There are words if anything follows the state.
    pub open spec fn read(body: Seq<u8>) -> QueryRespFields {
        let head = Self::head(body);
        QueryRespFields {
            message_id: Scan::of(body).string(),
            message_state: Scan::of(body).after_string(65, "message_id"@).byte(),
            message_state_text: if head.rest.len() > 0 {
                Some(head.string())
            } else {
                None
            },
        }
    }

    /// The response can be written and read back with a field of `text_len` bytes for the words.
    pub open spec fn fits(self, text_len: nat) -> bool {
        &&& grammar::fits(self.message_id, 65)
        &&& self.message_state_text matches Some(text) ==> grammar::fits(text, text_len)
        &&& text_len <= STATE_TEXT_LENGTH
    }
}

impl QuerySmResp {
    /// Reads the response, with a field of `text_len` bytes for the words.
    pub(crate) fn read(buf: &mut Cursor<&[u8]>, text_len: usize) -> (res: Result<Self, ReadError>)
        requires
            text_len > 0,
        ensures
            ({
                let body = wire::cursor_rest(*old(buf));
                let end = QueryRespFields::end(body, text_len as nat);
                &&& res is Ok <==> end.ok()
                &&& res matches Ok(pdu) ==> pdu@ == QueryRespFields::read(body)
                &&& res matches Err(e) ==> e.is_fault(end.fault->0)
                &&& wire::cursor_rest(*final(buf)) == end.rest
            }),
    {
        let message_id = match codec::read_string(buf, 65, "message_id") {
            Ok(s) => s,
            Err(e) => {
                return Err(e);
            },
        };
        let message_state: u8 = match codec::read_byte(buf) {
            Ok(b) => b,
            Err(e) => {
                return Err(e);
            },
        };
        let message_state_text = if wire::remaining(buf) > 0 {
            match codec::read_string(buf, text_len, "message_state_text") {
                Ok(s) => Some(s),
                Err(e) => {
                    return Err(e);
                },
            }
        } else {
            None
        };
        Ok(QuerySmResp { message_id, message_state, message_state_text })
    }
}

impl Encodable for QuerySmResp {
    open spec fn written(&self) -> Written {
        self@.written()
    }

    open spec fn size(&self) -> nat {
        match self.message_state_text {
            Some(text) => 67 + encode_utf8(text@).len(),
            None => 66,
        }
    }

    fn encode(&self, buf: &mut BytesMut) -> Result<(), CodecError> {
        let ghost start = wire::buffer_bytes(*buf);
        let ghost w = Written::new();
        assert(start + w.bytes =~= start);
        match codec::write_string(buf, self.message_id.as_str(), 65, Ghost(start), Ghost(w)) {
            Ok(_) => {},
            Err(e) => {
                return Err(e);
            },
        }
        let ghost w = w.string(self.message_id@, 65);
        codec::write_byte(buf, self.message_state, Ghost(start), Ghost(w));
        let ghost w = w.byte(self.message_state);
        match &self.message_state_text {
            Some(text) => codec::write_string(
                buf,
                text.as_str(),
                STATE_TEXT_LENGTH,
                Ghost(start),
                Ghost(w),
            ),
            None => Ok(()),
        }
    }

    fn encoded_size(&self) -> usize {
        match &self.message_state_text {
            Some(text) => 65 + 1 + text.as_str().as_bytes().len() + 1,
            None => 65 + 1,
        }
    }
}

impl Decodable for QuerySmResp {
    open spec fn command() -> CommandId {
        CommandId::QUERY_SM_RESP
    }

    open spec fn end(body: Seq<u8>) -> Scan {
        QueryRespFields::end(body, STATE_TEXT_LENGTH as nat)
    }

    open spec fn is_body(self, header: PduHeader, body: Seq<u8>) -> bool {
        self@ == QueryRespFields::read(body)
    }

    fn decode(header: PduHeader, buf: &mut Cursor<&[u8]>) -> Result<Self, CodecError> {
        if header.command_id != CommandId::QUERY_SM_RESP {
            return Err(codec::command_mismatch());
        }
        match QuerySmResp::read(buf, STATE_TEXT_LENGTH) {
            Ok(pdu) => Ok(pdu),
            Err(e) => Err(e.into_codec()),
        }
    }

    fn command_id() -> CommandId {
        CommandId::QUERY_SM_RESP
    }
}

/// A response to a query that fits, written and read back as a whole body, is the response.
pub proof fn law_query_resp_roundtrip(pdu: QueryRespFields, text_len: nat)
    requires
        pdu.fits(text_len),
    ensures
        pdu.written().ok(),
        QueryRespFields::end(pdu.written().bytes, text_len) == Scan::of(Seq::empty()),
        QueryRespFields::read(pdu.written().bytes) == pdu,
{
    let none = Seq::<u8>::empty();
    let words = match pdu.message_state_text {
        Some(text) => cstring::cstring_bytes(text),
        None => none,
    };
    let w0 = Written::new();
    let w1 = w0.string(pdu.message_id, 65);
    let w2 = w1.byte(pdu.message_state);
    let b = seq![pdu.message_state] + words;
    grammar::lemma_new(cstring::cstring_bytes(pdu.message_id) + b);
    grammar::lemma_then_string(w0, pdu.message_id, 65, b);
    grammar::lemma_then_byte(w1, pdu.message_state, words);
    grammar::lemma_read_string(pdu.message_id, 65, "message_id"@, b);
    grammar::lemma_read_byte(pdu.message_state, words);
    assert(w2.bytes + none =~= w2.bytes);
    assert(pdu.written().bytes == w2.bytes + words);
    if let Some(text) = pdu.message_state_text {
        assert(cstring::cstring_bytes(text) + none =~= words);
        grammar::lemma_read_string(text, text_len, "message_state_text"@, none);
    }
}

/// A query and its response on the wire, field by field; every string ends in a zero.
pub proof fn law_query_on_wire(m: QueryFields, r: QueryRespFields)
    ensures
        m.written().ok() <==> encode_utf8(m.message_id).len() <= 64 && encode_utf8(
            m.source_addr,
        ).len() <= 20,
        m.written().ok() ==> m.written().bytes == (encode_utf8(m.message_id) + seq![0u8]) + seq![m.source_addr_ton, m.source_addr_npi] + (encode_utf8(m.source_addr) + seq![0u8]),
        r.written().ok() <==> encode_utf8(r.message_id).len() <= 64 && (r.message_state_text
            matches Some(t) ==> encode_utf8(t).len() <= 64),
        r.written().ok() ==> r.written().bytes == encode_utf8(r.message_id) + seq![
            0u8,
            r.message_state,
        ] + (match r.message_state_text {
            Some(t) => encode_utf8(t) + seq![0u8],
            None => Seq::empty(),
        }),
{
    if m.written().ok() {
        assert(m.written().bytes =~= (encode_utf8(m.message_id) + seq![0u8]) + seq![m.source_addr_ton, m.source_addr_npi] + (encode_utf8(m.source_addr) + seq![0u8]));
    }
    if r.written().ok() {
        assert(r.written().bytes =~= encode_utf8(r.message_id) + seq![0u8, r.message_state] + (
        match r.message_state_text {
            Some(t) => encode_utf8(t) + seq![0u8],
            None => Seq::empty(),
        }));
    }
}

/// What a query is read as: the id of the message, and the address of its sender.
pub proof fn law_query_is_read(message_id: Seq<u8>, source_addr_ton: u8, source_addr_npi: u8, source_addr: Seq<u8>, tail: Seq<u8>)
    requires
        !message_id.contains(0),
        !source_addr.contains(0),
    ensures
        ({
            let from_source_addr = source_addr + seq![0u8] + tail;
            let from_source_addr_npi = seq![source_addr_npi] + from_source_addr;
            let from_source_addr_ton = seq![source_addr_ton] + from_source_addr_npi;
            let body = message_id + seq![0u8] + from_source_addr_ton;
            &&& QueryFields::end(body).ok() <==> message_id.len() < 65 && source_addr.len() < 21
            &&& message_id.len() >= 65 ==> QueryFields::end(body).fault == Some(
                grammar::Fault::TooLong { field: "message_id"@, max_len: 65 },
            )
            &&& message_id.len() < 65 && source_addr.len() >= 21 ==> QueryFields::end(body).fault == Some(
                grammar::Fault::TooLong { field: "source_addr"@, max_len: 21 },
            )
            &&& QueryFields::end(body).ok() ==> QueryFields::end(body) == Scan::of(tail)
            &&& QueryFields::end(body).ok() ==> {
                let read = QueryFields::read(body);
                &&& read.message_id == text::lossy_chars(message_id)
                &&& read.source_addr_ton == source_addr_ton
                &&& read.source_addr_npi == source_addr_npi
                &&& read.source_addr == text::lossy_chars(source_addr)
            }
        }),
{
    let from_source_addr = source_addr + seq![0u8] + tail;
    let from_source_addr_npi = seq![source_addr_npi] + from_source_addr;
    let from_source_addr_ton = seq![source_addr_ton] + from_source_addr_npi;
    let body = message_id + seq![0u8] + from_source_addr_ton;
    grammar::law_string_by_bytes(message_id, 65, "message_id"@, from_source_addr_ton);
    grammar::lemma_read_byte(source_addr_ton, from_source_addr_npi);
    grammar::lemma_read_byte(source_addr_npi, from_source_addr);
    grammar::law_string_by_bytes(source_addr, 21, "source_addr"@, tail);
}

/// What the response to a query is read as: the id, the state, and words if anything follows.
pub proof fn law_query_resp_is_read(
    message_id: Seq<u8>,
    message_state: u8,
    words: Seq<u8>,
    tail: Seq<u8>,
    text_len: nat,
)
    requires
        !message_id.contains(0),
        !words.contains(0),
    ensures
        ({
            let short = message_id + seq![0u8] + seq![message_state];
            let long = message_id + seq![0u8] + (seq![message_state] + (words + seq![0u8] + tail));
            &&& QueryRespFields::end(short, text_len).ok() <==> message_id.len() < 65
            &&& QueryRespFields::end(long, text_len).ok() <==> message_id.len() < 65 && words.len()
                < text_len
            &&& message_id.len() >= 65 ==> QueryRespFields::end(long, text_len).fault == Some(
                grammar::Fault::TooLong { field: "message_id"@, max_len: 65 },
            )
            &&& message_id.len() < 65 && words.len() >= text_len ==> QueryRespFields::end(
                long,
                text_len,
            ).fault == Some(
                grammar::Fault::TooLong { field: "message_state_text"@, max_len: text_len },
            )
            &&& QueryRespFields::end(short, text_len).ok() ==> {
                let read = QueryRespFields::read(short);
                &&& read.message_id == text::lossy_chars(message_id)
                &&& read.message_state == message_state
                &&& read.message_state_text is None
            }
            &&& QueryRespFields::end(long, text_len).ok() ==> {
                let read = QueryRespFields::read(long);
                &&& read.message_id == text::lossy_chars(message_id)
                &&& read.message_state == message_state
                &&& read.message_state_text == Some(text::lossy_chars(words))
            }
            &&& QuerySmResp::end(long) == QueryRespFields::end(long, 65)
        }),
{
    let more = words + seq![0u8] + tail;
    grammar::law_string_by_bytes(message_id, 65, "message_id"@, seq![message_state]);
    grammar::law_string_by_bytes(message_id, 65, "message_id"@, seq![message_state] + more);
    grammar::lemma_read_byte(message_state, Seq::empty());
    assert(seq![message_state] + Seq::<u8>::empty() =~= seq![message_state]);
    grammar::lemma_read_byte(message_state, more);
    grammar::law_string_by_bytes(words, text_len, "message_state_text"@, tail);
}

/// A query, and the response to one, are what their bodies are read as.
pub proof fn law_query_bodies(header: PduHeader, body: Seq<u8>, query: QuerySm, resp: QuerySmResp)
    ensures
        QuerySm::end(body) == QueryFields::end(body),
        QuerySmResp::end(body) == QueryRespFields::end(body, 65),
        query.is_body(header, body) ==> {
            let read = QueryFields::read(body);
            &&& query.message_id@ == read.message_id
            &&& query.source_addr_ton == read.source_addr_ton
            &&& query.source_addr_npi == read.source_addr_npi
            &&& query.source_addr@ == read.source_addr
        },
        resp.is_body(header, body) ==> {
            let read = QueryRespFields::read(body);
            &&& resp.message_id@ == read.message_id
            &&& resp.message_state == read.message_state
            &&& resp.message_state_text is Some <==> read.message_state_text is Some
            &&& resp.message_state_text matches Some(t) ==> Some(t@) == read.message_state_text
        },
{
}

} // verus!
