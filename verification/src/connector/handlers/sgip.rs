//! An SGIP server's answers.

use crate::connector::command;
use crate::connector::framing;
use crate::connector::handlers::outcome;
use crate::connector::handlers::outcome::{judge, Deed, Outcome, Verdict};
use crate::connector::protocol::{
    AuthCredentials, AuthResult, Credentials, HandleResult, RESPONSE_COMMAND_MASK,
};
use crate::error::RsmsError;
use crate::frame::Frame;
use crate::wire;
use vstd::prelude::*;

verus! {

/// A request to bind.
#[derive(Debug)]
pub struct SgipBind {
    pub login_name: String,
    pub login_password: String,
}

/// A request that an SGIP server gets.
#[derive(Debug)]
pub enum SgipRequest {
    Bind(SgipBind),
    Submit,
    Report,
    Deliver,
    Unbind,
    Other,
}

/// A response that an SGIP server gives.
#[derive(Debug, Clone, Copy, PartialEq, Eq, Structural)]
pub enum SgipReply {
    BindResp { result: u8 },
    SubmitResp { code: u32 },
    ReportResp { result: u8 },
    DeliverResp { result: u8 },
    UnbindResp,
}

/// What an SGIP server does about a frame.
#[derive(Debug)]
pub enum SgipStep {
    Done(Outcome<SgipReply>),
    /// Ask whether to let the client in.
    Authenticate { client_id: String, credentials: AuthCredentials },
}

/// What an SGIP server does about a frame, as a mathematical value.
#[verifier::ext_equal]
pub enum SgipDeed {
    Done(Deed<SgipReply>),
    Authenticate { client_id: Seq<char>, credentials: Credentials },
}

impl View for Outcome<SgipReply> {
    type V = Deed<SgipReply>;

    open spec fn view(&self) -> Deed<SgipReply> {
        Deed {
            account: outcome::text_view(self.account),
            version: self.version,
            reply: self.reply,
            must_send: self.must_send,
            result: self.result,
        }
    }
}

impl View for SgipStep {
    type V = SgipDeed;

    open spec fn view(&self) -> SgipDeed {
        match self {
            SgipStep::Done(outcome) => SgipDeed::Done(outcome@),
            SgipStep::Authenticate { client_id, credentials } => SgipDeed::Authenticate {
                client_id: client_id@,
                credentials: credentials@,
            },
        }
    }
}

impl SgipReply {
    /// The command of the response.
    pub open spec fn command(self) -> u32 {
        match self {
            SgipReply::BindResp { .. } => command::SGIP_BIND_RESP,
            SgipReply::SubmitResp { .. } => command::SGIP_SUBMIT_RESP,
            SgipReply::ReportResp { .. } => command::SGIP_REPORT_RESP,
            SgipReply::DeliverResp { .. } => command::SGIP_DELIVER_RESP,
            SgipReply::UnbindResp => command::SGIP_UNBIND_RESP,
        }
    }

    /// The response with its header, around the body as the codec writes it. The sequence
    /// number is left empty.
    pub fn frame(&self, body: &[u8]) -> (pdu: Vec<u8>)
        requires
            body@.len() <= u32::MAX - 20,
        ensures
            pdu@ == framing::pdu20(self.command(), body@),
    {
        let command_id: u32 = match self {
            SgipReply::BindResp { .. } => command::SGIP_BIND_RESP,
            SgipReply::SubmitResp { .. } => command::SGIP_SUBMIT_RESP,
            SgipReply::ReportResp { .. } => command::SGIP_REPORT_RESP,
            SgipReply::DeliverResp { .. } => command::SGIP_DELIVER_RESP,
            SgipReply::UnbindResp => command::SGIP_UNBIND_RESP,
        };
        framing::encode_pdu20(command_id, body)
    }
}

/// SGIP by its name.
pub struct SgipProtocol;

impl SgipProtocol {
    pub fn new() -> (protocol: Self)
        ensures
            protocol == SgipProtocol,
    {
        SgipProtocol
    }

    pub fn name(&self) -> (name: &'static str)
        ensures
            name@ == "sgip"@,
    {
        "sgip"
    }

    /// The response to a submitted message.
    pub fn submit_resp(&self, result: u32) -> (reply: SgipReply)
        ensures
            reply == (SgipReply::SubmitResp { code: result }),
    {
        SgipReply::SubmitResp { code: result }
    }
}

impl Default for SgipProtocol {
    fn default() -> (protocol: Self)
        ensures
            protocol == SgipProtocol,
    {
        SgipProtocol
    }
}

/// The response to a PDU that cannot be read, on the wire: the status, behind a header with an
/// empty sequence number.
pub open spec fn error_response(command_id: u32, status: u32) -> Seq<u8> {
    framing::pdu20(command_id | RESPONSE_COMMAND_MASK, wire::be32_bytes(status))
}

/// The response to a PDU that cannot be read.
pub fn encode_sgip_error_response(command_id: u32, status: u32) -> (pdu: Vec<u8>)
    ensures
        pdu@ == error_response(command_id, status),
{
    let mut body: Vec<u8> = Vec::new();
    wire::push_be32(&mut body, status);
    assert(body@ =~= wire::be32_bytes(status));
    framing::encode_pdu20(command_id | RESPONSE_COMMAND_MASK, body.as_slice())
}

/// What a verdict on a login leads to. The result has one byte: of a status that needs more the
/// low one.
pub open spec fn login_deed(verdict: Verdict) -> Deed<SgipReply> {
    Deed {
        account: verdict.account(),
        version: None,
        reply: Some(SgipReply::BindResp { result: (verdict.status() % 0x100) as u8 }),
        must_send: true,
        result: verdict.result(),
    }
}

/// Answers a login, once there is a verdict on it.
pub fn on_verdict(verdict: Result<AuthResult, RsmsError>) -> (outcome: Outcome<SgipReply>)
    ensures
        outcome@ == login_deed(outcome::verdict_of(verdict)),
{
    let (status, account, result) = judge(verdict);
    Outcome {
        account,
        version: None,
        reply: Some(SgipReply::BindResp { result: (status % 0x100) as u8 }),
        must_send: true,
        result,
    }
}

/// What a request leads to. Without anybody to ask, everybody is let in under the name they
/// give.
pub open spec fn request_deed(request: SgipRequest, has_auth: bool) -> SgipDeed {
    match request {
        SgipRequest::Bind(b) => if has_auth {
            SgipDeed::Authenticate {
                client_id: b.login_name@,
                credentials: Credentials::Sgip {
                    login_name: b.login_name@,
                    login_password: b.login_password@,
                },
            }
        } else {
            SgipDeed::Done(login_deed(Verdict::LetIn(b.login_name@)))
        },
        SgipRequest::Submit => SgipDeed::Done(Deed::quiet(HandleResult::Continue)),
        SgipRequest::Report => SgipDeed::Done(
            Deed::answer(SgipReply::ReportResp { result: 0 }, HandleResult::Stop),
        ),
        SgipRequest::Deliver => SgipDeed::Done(
            Deed::answer(SgipReply::DeliverResp { result: 0 }, HandleResult::Continue),
        ),
        SgipRequest::Unbind => SgipDeed::Done(
            Deed::answer(SgipReply::UnbindResp, HandleResult::Stop),
        ),
        SgipRequest::Other => SgipDeed::Done(Deed::quiet(HandleResult::Stop)),
    }
}

/// What to do about a request.
pub fn on_request(request: SgipRequest, has_auth: bool) -> (step: SgipStep)
    ensures
        step@ == request_deed(request, has_auth),
{
    match request {
        SgipRequest::Bind(b) => if has_auth {
            SgipStep::Authenticate {
                client_id: b.login_name.clone(),
                credentials: AuthCredentials::Sgip {
                    login_name: b.login_name,
                    login_password: b.login_password,
                },
            }
        } else {
            SgipStep::Done(on_verdict(Ok(AuthResult::success(b.login_name.as_str()))))
        },
        SgipRequest::Submit => SgipStep::Done(Outcome::quiet(HandleResult::Continue)),
        SgipRequest::Report => SgipStep::Done(
            Outcome::answer(SgipReply::ReportResp { result: 0 }, HandleResult::Stop),
        ),
        SgipRequest::Deliver => SgipStep::Done(
            Outcome::answer(SgipReply::DeliverResp { result: 0 }, HandleResult::Continue),
        ),
        SgipRequest::Unbind => SgipStep::Done(
            Outcome::answer(SgipReply::UnbindResp, HandleResult::Stop),
        ),
        SgipRequest::Other => SgipStep::Done(Outcome::quiet(HandleResult::Stop)),
    }
}

/// What a frame that cannot be read leads to: an answer with the status for a syntax error, if
/// the frame has a header, which may get lost.
pub fn on_undecodable(frame: &Frame, syntax_error: u32) -> (outcome: Outcome<Vec<u8>>)
    ensures
        outcome@ == (if frame.data@.len() >= 20 {
            Deed {
                account: None,
                version: None,
                reply: Some(error_response(frame.command_id, syntax_error)),
                must_send: false,
                result: HandleResult::Stop,
            }
        } else {
            Deed::quiet(HandleResult::Stop)
        }),
{
    if frame.len() >= 20 {
        Outcome {
            account: None,
            version: None,
            reply: Some(encode_sgip_error_response(frame.command_id, syntax_error)),
            must_send: false,
            result: HandleResult::Stop,
        }
    } else {
        Outcome::quiet(HandleResult::Stop)
    }
}

/// A login is always answered, at once or after a verdict; it gets result 0 if it is let in, and
/// a refusal gets another result unless the low byte of its status is 0.
pub proof fn law_bind_is_answered(bind: SgipBind, verdict: Result<AuthResult, RsmsError>)
    ensures
        request_deed(SgipRequest::Bind(bind), false) matches SgipDeed::Done(deed) && deed.reply
            == Some(SgipReply::BindResp { result: 0 }) && deed.account == Some(bind.login_name@),
        login_deed(outcome::verdict_of(verdict)).reply matches Some(
            SgipReply::BindResp { result },
        ) && (outcome::verdict_of(verdict) is LetIn ==> result == 0) && (outcome::verdict_of(
            verdict,
        ).status() % 0x100 != 0 ==> result != 0),
{
}

/// The response to a PDU that cannot be read is a frame that a peer can read, with the command
/// of a response to that PDU.
pub proof fn law_error_response_is_frame(command_id: u32, status: u32)
    ensures
        framing::well_formed(error_response(command_id, status), 20),
        framing::field_or_zero(error_response(command_id, status), 4) == command_id
            | RESPONSE_COMMAND_MASK,
{
    framing::law_pdu20_is_frame(command_id | RESPONSE_COMMAND_MASK, wire::be32_bytes(status));
}

/// What comes of a request that is no login. A submitted message goes on to the application and is
/// not answered. A delivered message is answered with result 0 and goes on. A report is answered
/// with result 0, a goodbye as what it is, and both end there.
pub proof fn law_requests(request: SgipRequest, has_auth: bool, step: SgipStep)
    requires
        call_ensures(on_request, (request, has_auth), step),
        !(request is Bind),
    ensures
        step matches SgipStep::Done(o) && o.account is None && o.version is None && (match request {
            SgipRequest::Submit => o.result == HandleResult::Continue && o.reply is None,
            SgipRequest::Deliver => o.result == HandleResult::Continue && (o.reply matches Some(
                SgipReply::DeliverResp { result },
            ) && result == 0),
            SgipRequest::Report => o.result == HandleResult::Stop && (o.reply matches Some(
                SgipReply::ReportResp { result },
            ) && result == 0),
            SgipRequest::Unbind => o.result == HandleResult::Stop && o.reply == Some(
                SgipReply::UnbindResp,
            ),
            _ => o.result == HandleResult::Stop && o.reply is None,
        }),
{
}

/// What comes of a login. Whoever decides about logins is asked, with the name and the password
/// that the client gave; where nobody decides, the client is let in under its name.
pub proof fn law_logins(b: SgipBind, has_auth: bool, step: SgipStep)
    requires
        call_ensures(on_request, (SgipRequest::Bind(b), has_auth), step),
    ensures
        has_auth ==> (step matches SgipStep::Authenticate { client_id, credentials } && client_id@
            == b.login_name@ && (credentials matches AuthCredentials::Sgip {
            login_name,
            login_password,
        } && login_name@ == b.login_name@ && login_password@ == b.login_password@)),
        !has_auth ==> (step matches SgipStep::Done(o) && o.result == HandleResult::Continue && (
        o.account matches Some(account) && account@ == b.login_name@) && (o.reply matches Some(
            SgipReply::BindResp { result },
        ) && result == 0)),
{
}

/// What comes of a decision about a login: a client that is let in, which is one with status 0,
/// belongs to the account from now on; another gets the low byte of the status, or 1 if nobody
/// could decide, and goes no further. Both get an answer.
pub proof fn law_decided_login(
    verdict: Result<AuthResult, RsmsError>,
    outcome: Outcome<SgipReply>,
)
    requires
        call_ensures(on_verdict, (verdict,), outcome),
    ensures
        verdict matches Ok(auth) && auth.status == 0 ==> {
            &&& outcome.account matches Some(account) && account@ == verdict->Ok_0.account@
            &&& outcome.result == HandleResult::Continue
        },
        !(verdict matches Ok(auth) && auth.status == 0) ==> outcome.account is None
            && outcome.result == HandleResult::Stop,
        outcome.reply matches Some(SgipReply::BindResp { result }) && result == (match verdict {
            Ok(auth) => auth.status % 256,
            Err(_) => 1,
        }),
        outcome.must_send,
{
}

/// The answers on the wire: the length and the command, twelve zeros, and then the body. The
/// commands are 0x80000001 for a login, 0x80000002 for a goodbye, 0x80000003 for a submitted
/// message, 0x80000004 for a delivered one and 0x80000005 for a report.
pub proof fn law_answers_on_wire(reply: SgipReply, body: &[u8], pdu: Vec<u8>)
    requires
        call_ensures(SgipReply::frame, (&reply, body), pdu),
        body@.len() <= u32::MAX - 20,
    ensures
        ({
            let s = pdu@;
            &&& s.len() == 20 + body@.len()
            &&& s[0] * 16777216 + s[1] * 65536 + s[2] * 256 + s[3] == s.len()
            &&& s[4] == 0x80 && s[5] == 0 && s[6] == 0 && s[7] == (match reply {
                SgipReply::BindResp { .. } => 1u8,
                SgipReply::UnbindResp => 2u8,
                SgipReply::SubmitResp { .. } => 3u8,
                SgipReply::DeliverResp { .. } => 4u8,
                SgipReply::ReportResp { .. } => 5u8,
            })
            &&& forall|i: int| 8 <= i < 20 ==> #[trigger] s[i] == 0
            &&& s.subrange(20, s.len() as int) == body@
        }),
{
    wire::law_high_byte_first(0, ((20 + body@.len()) % 0x1_0000_0000) as u32, Seq::empty());
    assert(pdu@.subrange(20, pdu@.len() as int) =~= body@);
}

/// A frame that cannot be read goes no further. If it has a header, the client gets 24 bytes with
/// the command of the response and the status.
pub proof fn law_unreadable(frame: Frame, syntax_error: u32, outcome: Outcome<Vec<u8>>)
    requires
        call_ensures(on_undecodable, (&frame, syntax_error), outcome),
    ensures
        outcome.result == HandleResult::Stop,
        outcome.account is None,
        outcome.version is None,
        frame.data@.len() < 20 ==> outcome.reply is None,
        frame.data@.len() >= 20 ==> (outcome.reply matches Some(reply) && {
            let s = reply@;
            &&& s.len() == 24
            &&& s[0] == 0 && s[1] == 0 && s[2] == 0 && s[3] == 24
            &&& s[4] * 16777216 + s[5] * 65536 + s[6] * 256 + s[7] == (if frame.command_id
                < 0x80000000 {
                frame.command_id + 0x80000000
            } else {
                frame.command_id as int
            })
            &&& s[20] * 16777216 + s[21] * 65536 + s[22] * 256 + s[23] == syntax_error
        }),
{
    let id = frame.command_id;
    assert(id < 0x80000000 ==> id | 0x80000000 == id + 0x80000000) by (bit_vector);
    assert(id >= 0x80000000 ==> id | 0x80000000 == id) by (bit_vector);
    wire::law_high_byte_first(0, id | 0x80000000, Seq::empty());
    wire::law_high_byte_first(0, syntax_error, Seq::empty());
}

} // verus!
