//! A CMPP server's answers.

use crate::connector::command;
use crate::connector::framing;
use crate::connector::handlers::outcome;
use crate::connector::handlers::outcome::{judge, Deed, Outcome, Verdict};
use crate::connector::protocol::{
    AuthCredentials, AuthResult, Credentials, HandleResult, RESPONSE_COMMAND_MASK,
};
use crate::error::RsmsError;
use crate::frame::Frame;
use crate::wire;
use vstd::prelude::*;

verus! {

pub const CMPP_VERSION_2_0: u8 = 0x20;

pub const CMPP_VERSION_3_0: u8 = 0x30;

/// A request to connect.
#[derive(Debug)]
pub struct CmppConnect {
    pub sequence_id: u32,
    pub source_addr: String,
    pub authenticator_source: [u8; 16],
    pub version: u8,
    pub timestamp: u32,
}

/// A request that a CMPP server gets.
#[derive(Debug)]
pub enum CmppRequest {
    Connect(CmppConnect),
    Submit,
    Deliver,
    Terminate { sequence_id: u32 },
    Other,
}

/// What a login needs once there is a verdict on it.
#[derive(Debug, Clone, Copy, PartialEq, Eq, Structural)]
pub struct CmppLogin {
    pub sequence_id: u32,
    pub version: u8,
}

/// What a CMPP server does about a frame.
#[derive(Debug)]
pub enum CmppStep {
    Done(Outcome<Vec<u8>>),
    /// Note the version, and ask whether to let the client in.
    Authenticate { login: CmppLogin, client_id: String, credentials: AuthCredentials },
}

/// What a CMPP server does about a frame, as a mathematical value.
#[verifier::ext_equal]
pub enum CmppDeed {
    Done(Deed<Seq<u8>>),
    Authenticate { login: CmppLogin, client_id: Seq<char>, credentials: Credentials },
}

impl View for Outcome<Vec<u8>> {
    type V = Deed<Seq<u8>>;

    open spec fn view(&self) -> Deed<Seq<u8>> {
        Deed {
            account: outcome::text_view(self.account),
            version: self.version,
            reply: outcome::bytes_view(self.reply),
            must_send: self.must_send,
            result: self.result,
        }
    }
}

impl View for CmppStep {
    type V = CmppDeed;

    open spec fn view(&self) -> CmppDeed {
        match self {
            CmppStep::Done(outcome) => CmppDeed::Done(outcome@),
            CmppStep::Authenticate { login, client_id, credentials } => CmppDeed::Authenticate {
                login: *login,
                client_id: client_id@,
                credentials: credentials@,
            },
        }
    }
}

/// The versions that a server speaks: 2.0 and 3.0, and what some clients send for them.
pub open spec fn speaks(version: u8) -> bool {
    version == CMPP_VERSION_2_0 || version == CMPP_VERSION_3_0 || version == 0x00 || version == 0x01
        || version == 0x7F
}

/// The versions with the narrow fields of 2.0.
pub open spec fn narrow(version: u8) -> bool {
    version == CMPP_VERSION_2_0 || version == 0x00 || version == 0x01
}

pub fn is_version_supported(version: u8) -> (yes: bool)
    ensures
        yes == speaks(version),
{
    version == CMPP_VERSION_2_0 || version == CMPP_VERSION_3_0 || version == 0x00 || version == 0x01
        || version == 0x7F
}

pub fn is_cmpp_v2(version: u8) -> (yes: bool)
    ensures
        yes == narrow(version),
{
    version == CMPP_VERSION_2_0 || version == 0x00 || version == 0x01
}

/// The body of the response to a request to connect: the status in one byte in 2.0 and in four
/// in 3.0, an empty authenticator, and the version.
pub open spec fn connect_resp_body(version: u8, status: u32) -> Seq<u8> {
    (if narrow(version) {
        seq![(status % 0x100) as u8]
    } else {
        wire::be32_bytes(status)
    }) + framing::zeros(16) + seq![version]
}

/// The response to a request to connect, on the wire.
pub open spec fn connect_resp(sequence_id: u32, version: u8, status: u32) -> Seq<u8> {
    framing::pdu12(command::CMPP_CONNECT_RESP, sequence_id, connect_resp_body(version, status))
}

fn low_byte(value: u32) -> (byte: u8)
    ensures
        byte == value % 0x100,
{
    (value % 0x100) as u8
}

/// The response to a request to connect.
pub fn encode_connect_resp(sequence_id: u32, version: u8, status: u32) -> (pdu: Vec<u8>)
    ensures
        pdu@ == connect_resp(sequence_id, version, status),
{
    let mut body: Vec<u8> = Vec::new();
    if is_cmpp_v2(version) {
        body.push(low_byte(status));
    } else {
        wire::push_be32(&mut body, status);
    }
    framing::push_zeros(&mut body, 16);
    body.push(version);
    assert(body@ =~= connect_resp_body(version, status));
    framing::encode_pdu12(command::CMPP_CONNECT_RESP, sequence_id, body.as_slice())
}

/// The response to a PDU that cannot be read, on the wire.
pub open spec fn error_response(command_id: u32, sequence_id: u32, status: u32) -> Seq<u8> {
    framing::pdu12(command_id | RESPONSE_COMMAND_MASK, sequence_id, wire::be32_bytes(status))
}

/// The response to a PDU that cannot be read.
pub fn encode_error_response(command_id: u32, sequence_id: u32, status: u32) -> (pdu: Vec<u8>)
    ensures
        pdu@ == error_response(command_id, sequence_id, status),
{
    let mut body: Vec<u8> = Vec::new();
    wire::push_be32(&mut body, status);
    assert(body@ =~= wire::be32_bytes(status));
    framing::encode_pdu12(command_id | RESPONSE_COMMAND_MASK, sequence_id, body.as_slice())
}

/// What a verdict on a login leads to.
pub open spec fn login_deed(login: CmppLogin, verdict: Verdict) -> Deed<Seq<u8>> {
    Deed {
        account: verdict.account(),
        version: Some(login.version),
        reply: Some(connect_resp(login.sequence_id, login.version, verdict.status())),
        must_send: true,
        result: verdict.result(),
    }
}

/// Answers a login, once there is a verdict on it.
pub fn on_verdict(login: CmppLogin, verdict: Result<AuthResult, RsmsError>) -> (outcome: Outcome<
    Vec<u8>,
>)
    ensures
        outcome@ == login_deed(login, outcome::verdict_of(verdict)),
{
    let (status, account, result) = judge(verdict);
    Outcome {
        account,
        version: Some(login.version),
        reply: Some(encode_connect_resp(login.sequence_id, login.version, status)),
        must_send: true,
        result,
    }
}

/// What a request leads to. Without anybody to ask, everybody is let in under the name they
/// give. A version that the server does not speak is refused.
pub open spec fn request_deed(request: CmppRequest, has_auth: bool) -> CmppDeed {
    match request {
        CmppRequest::Connect(c) => {
            let login = CmppLogin { sequence_id: c.sequence_id, version: c.version };
            if !speaks(c.version) {
                CmppDeed::Done(
                    Deed::answer(
                        connect_resp(c.sequence_id, CMPP_VERSION_3_0, 1),
                        HandleResult::Stop,
                    ),
                )
            } else if has_auth {
                CmppDeed::Authenticate {
                    login,
                    client_id: c.source_addr@,
                    credentials: Credentials::Cmpp {
                        source_addr: c.source_addr@,
                        authenticator_source: c.authenticator_source@,
                        version: c.version,
                        timestamp: c.timestamp,
                    },
                }
            } else {
                CmppDeed::Done(login_deed(login, Verdict::LetIn(c.source_addr@)))
            }
        },
        CmppRequest::Submit | CmppRequest::Deliver => CmppDeed::Done(
            Deed::quiet(HandleResult::Continue),
        ),
        CmppRequest::Terminate { sequence_id } => CmppDeed::Done(
            Deed::answer(
                framing::pdu12(command::CMPP_TERMINATE_RESP, sequence_id, Seq::empty()),
                HandleResult::Stop,
            ),
        ),
        CmppRequest::Other => CmppDeed::Done(Deed::quiet(HandleResult::Stop)),
    }
}

/// What to do about a request.
pub fn on_request(request: CmppRequest, has_auth: bool) -> (step: CmppStep)
    ensures
        step@ == request_deed(request, has_auth),
{
    match request {
        CmppRequest::Connect(c) => {
            let login = CmppLogin { sequence_id: c.sequence_id, version: c.version };
            if !is_version_supported(c.version) {
                let reply = encode_connect_resp(c.sequence_id, CMPP_VERSION_3_0, 1);
                CmppStep::Done(Outcome::answer(reply, HandleResult::Stop))
            } else if has_auth {
                CmppStep::Authenticate {
                    login,
                    client_id: c.source_addr.clone(),
                    credentials: AuthCredentials::Cmpp {
                        source_addr: c.source_addr,
                        authenticator_source: c.authenticator_source,
                        version: c.version,
                        timestamp: c.timestamp,
                    },
                }
            } else {
                CmppStep::Done(
                    on_verdict(login, Ok(AuthResult::success(c.source_addr.as_str()))),
                )
            }
        },
        CmppRequest::Submit | CmppRequest::Deliver => CmppStep::Done(
            Outcome::quiet(HandleResult::Continue),
        ),
        CmppRequest::Terminate { sequence_id } => {
            let reply = framing::encode_pdu12(command::CMPP_TERMINATE_RESP, sequence_id, &[]);
            CmppStep::Done(Outcome::answer(reply, HandleResult::Stop))
        },
        CmppRequest::Other => CmppStep::Done(Outcome::quiet(HandleResult::Stop)),
    }
}

/// What a frame that cannot be read leads to: an answer with the status for a syntax error, if
/// the frame has a header, which may get lost.
pub fn on_undecodable(frame: &Frame, syntax_error: u32) -> (outcome: Outcome<Vec<u8>>)
    ensures
        outcome@ == (if frame.data@.len() >= 12 {
            Deed {
                account: None,
                version: None,
                reply: Some(error_response(frame.command_id, frame.sequence_id, syntax_error)),
                must_send: false,
                result: HandleResult::Stop,
            }
        } else {
            Deed::quiet(HandleResult::Stop)
        }),
{
    if frame.len() >= 12 {
        Outcome {
            account: None,
            version: None,
            reply: Some(encode_error_response(frame.command_id, frame.sequence_id, syntax_error)),
            must_send: false,
            result: HandleResult::Stop,
        }
    } else {
        Outcome::quiet(HandleResult::Stop)
    }
}

/// Every request to connect that is not put before somebody is answered at once, with its own
/// sequence number, and so is every login that somebody has decided on. Nobody waits in vain.
pub proof fn law_connect_is_answered(
    connect: CmppConnect,
    has_auth: bool,
    verdict: Result<AuthResult, RsmsError>,
)
    ensures
        match request_deed(CmppRequest::Connect(connect), has_auth) {
            CmppDeed::Done(deed) => deed.reply matches Some(reply) && framing::field_or_zero(
                reply,
                8,
            ) == connect.sequence_id,
            CmppDeed::Authenticate { login, .. } => {
                &&& has_auth
                &&& login_deed(login, outcome::verdict_of(verdict)).reply matches Some(reply)
                    && framing::field_or_zero(reply, 8) == connect.sequence_id
            },
        },
{
    let refusal = connect_resp_body(CMPP_VERSION_3_0, 1);
    framing::law_pdu12_is_frame(command::CMPP_CONNECT_RESP, connect.sequence_id, refusal);
    let welcome = connect_resp_body(connect.version, 0);
    framing::law_pdu12_is_frame(command::CMPP_CONNECT_RESP, connect.sequence_id, welcome);
    let answer = connect_resp_body(connect.version, outcome::verdict_of(verdict).status());
    framing::law_pdu12_is_frame(command::CMPP_CONNECT_RESP, connect.sequence_id, answer);
}

/// The response to a request to connect has 18 bytes behind its header in 2.0 and 21 in 3.0.
pub proof fn law_connect_resp_length(version: u8, status: u32)
    ensures
        connect_resp_body(version, status).len() == (if narrow(version) {
            18int
        } else {
            21int
        }),
{
}

/// A message that a client submits or delivers goes on to the application as it is: nothing is
/// answered, nothing is noted, and nothing holds it back.
pub proof fn law_messages_go_on(request: CmppRequest, has_auth: bool, step: CmppStep)
    requires
        call_ensures(on_request, (request, has_auth), step),
        request is Submit || request is Deliver,
    ensures
        step matches CmppStep::Done(o) && o.result == HandleResult::Continue && o.reply is None
            && o.account is None && o.version is None,
{
}

/// What comes of a request to connect. A version other than 0x20, 0x30, 0, 1 and 0x7F is refused
/// with status 1 and the version 0x30. Else whoever decides about logins is asked, with the name,
/// the digest, the version and the time that the client gave; where nobody decides, the client is
/// let in under its name.
pub proof fn law_logins(c: CmppConnect, has_auth: bool, step: CmppStep)
    requires
        call_ensures(on_request, (CmppRequest::Connect(c), has_auth), step),
    ensures
        ({
            let known = c.version == 0x20 || c.version == 0x30 || c.version == 0 || c.version == 1
                || c.version == 0x7F;
            &&& !known ==> (step matches CmppStep::Done(o) && o.result == HandleResult::Stop
                && o.account is None && o.version is None && (o.reply matches Some(reply)
                && is_connect_answer(reply@, c.sequence_id, 0x30, 1)))
            &&& known && has_auth ==> (step matches CmppStep::Authenticate {
                login,
                client_id,
                credentials,
            } && client_id@ == c.source_addr@ && login.sequence_id == c.sequence_id
                && login.version == c.version && (credentials matches AuthCredentials::Cmpp {
                source_addr,
                authenticator_source,
                version,
                timestamp,
            } && source_addr@ == c.source_addr@ && authenticator_source@
                == c.authenticator_source@ && version == c.version && timestamp == c.timestamp))
            &&& known && !has_auth ==> (step matches CmppStep::Done(o) && o.result
                == HandleResult::Continue && o.version == Some(c.version) && (o.account matches Some(
                account,
            ) && account@ == c.source_addr@) && (o.reply matches Some(reply) && is_connect_answer(
                reply@,
                c.sequence_id,
                c.version,
                0,
            )))
        }),
{
    lemma_connect_answer(c.sequence_id, 0x30, 1);
    lemma_connect_answer(c.sequence_id, c.version, 0);
}

/// What comes of a decision about a login: a client that is let in, which is one with status 0,
/// belongs to the account from now on; another gets the status, or 1 if nobody could decide, and
/// goes no further. The version counts either way, and both get an answer.
pub proof fn law_decided_login(
    login: CmppLogin,
    verdict: Result<AuthResult, RsmsError>,
    outcome: Outcome<Vec<u8>>,
)
    requires
        call_ensures(on_verdict, (login, verdict), outcome),
    ensures
        verdict matches Ok(auth) && auth.status == 0 ==> {
            &&& outcome.account matches Some(account) && account@ == verdict->Ok_0.account@
            &&& outcome.result == HandleResult::Continue
        },
        !(verdict matches Ok(auth) && auth.status == 0) ==> outcome.account is None
            && outcome.result == HandleResult::Stop,
        outcome.version == Some(login.version),
        outcome.reply matches Some(reply) && is_connect_answer(
            reply@,
            login.sequence_id,
            login.version,
            match verdict {
                Ok(auth) => auth.status,
                Err(_) => 1,
            },
        ),
        outcome.must_send,
{
    lemma_connect_answer(
        login.sequence_id,
        login.version,
        match verdict {
            Ok(auth) => auth.status,
            Err(_) => 1,
        },
    );
}

/// Whether bytes are the answer to a request to connect: command 0x80000001, the number of the
/// request, the status in one byte in version 2.0 and in four in 3.0, sixteen zeros, and the
/// version. Versions 0x20, 0 and 1 are 2.0.
pub open spec fn is_connect_answer(s: Seq<u8>, sequence_id: u32, version: u8, status: u32) -> bool {
    let old = version == 0x20 || version == 0 || version == 1;
    let at: int = if old {
        13
    } else {
        16
    };
    &&& s.len() == at + 17
    &&& s[0] == 0 && s[1] == 0 && s[2] == 0 && s[3] == s.len()
    &&& s[4] == 0x80 && s[5] == 0 && s[6] == 0 && s[7] == 1
    &&& s[8] * 16777216 + s[9] * 65536 + s[10] * 256 + s[11] == sequence_id
    &&& old ==> s[12] == status % 256
    &&& !old ==> s[12] * 16777216 + s[13] * 65536 + s[14] * 256 + s[15] == status
    &&& forall|i: int| at <= i < at + 16 ==> #[trigger] s[i] == 0
    &&& s[at + 16] == version
}

proof fn lemma_connect_answer(sequence_id: u32, version: u8, status: u32)
    ensures
        is_connect_answer(
            connect_resp(sequence_id, version, status),
            sequence_id,
            version,
            status,
        ),
{
    law_connect_resp_length(version, status);
    wire::law_high_byte_first(0, sequence_id, Seq::empty());
    wire::law_high_byte_first(0, status, Seq::empty());
}

/// A client that says goodbye gets twelve bytes with command 0x80000002 and the number of its
/// request, and is done. Nothing else is answered, and goes no further.
pub proof fn law_goodbye(request: CmppRequest, has_auth: bool, step: CmppStep)
    requires
        call_ensures(on_request, (request, has_auth), step),
    ensures
        request matches CmppRequest::Terminate { sequence_id } ==> (step matches CmppStep::Done(o)
            && o.result == HandleResult::Stop && o.account is None && o.version is None
            && (o.reply matches Some(reply) && reply@.len() == 12 && reply@.take(8) == seq![
            0u8,
            0u8,
            0u8,
            12u8,
            0x80u8,
            0u8,
            0u8,
            2u8,
        ] && reply@[8] * 16777216 + reply@[9] * 65536 + reply@[10] * 256 + reply@[11]
            == sequence_id)),
        request is Other ==> (step matches CmppStep::Done(o) && o.result == HandleResult::Stop
            && o.reply is None && o.account is None && o.version is None),
{
    if let CmppRequest::Terminate { sequence_id } = request {
        wire::law_high_byte_first(0, sequence_id, Seq::empty());
        let s = framing::pdu12(command::CMPP_TERMINATE_RESP, sequence_id, Seq::empty());
        assert(s.take(8) =~= seq![0u8, 0u8, 0u8, 12u8, 0x80u8, 0u8, 0u8, 2u8]);
    }
}

/// A frame that cannot be read goes no further. If it has a header, the client gets sixteen bytes
/// with the command of the response, the number of the request and the status.
pub proof fn law_unreadable(frame: Frame, syntax_error: u32, outcome: Outcome<Vec<u8>>)
    requires
        call_ensures(on_undecodable, (&frame, syntax_error), outcome),
    ensures
        outcome.result == HandleResult::Stop,
        outcome.account is None,
        outcome.version is None,
        frame.data@.len() < 12 ==> outcome.reply is None,
        frame.data@.len() >= 12 ==> (outcome.reply matches Some(reply) && {
            let s = reply@;
            &&& s.len() == 16
            &&& s[0] == 0 && s[1] == 0 && s[2] == 0 && s[3] == 16
            &&& s[4] * 16777216 + s[5] * 65536 + s[6] * 256 + s[7] == (if frame.command_id
                < 0x80000000 {
                frame.command_id + 0x80000000
            } else {
                frame.command_id as int
            })
            &&& s[8] * 16777216 + s[9] * 65536 + s[10] * 256 + s[11] == frame.sequence_id
            &&& s[12] * 16777216 + s[13] * 65536 + s[14] * 256 + s[15] == syntax_error
        }),
{
    let id = frame.command_id;
    assert(id < 0x80000000 ==> id | 0x80000000 == id + 0x80000000) by (bit_vector);
    assert(id >= 0x80000000 ==> id | 0x80000000 == id) by (bit_vector);
    wire::law_high_byte_first(0, id | 0x80000000, Seq::empty());
    wire::law_high_byte_first(0, frame.sequence_id, Seq::empty());
    wire::law_high_byte_first(0, syntax_error, Seq::empty());
}

} // verus!
