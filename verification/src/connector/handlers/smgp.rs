//! An SMGP server's answers.

use crate::connector::command;
use crate::connector::framing;
use crate::connector::handlers::outcome;
use crate::connector::handlers::outcome::{judge, Deed, Outcome, Verdict};
use crate::connector::protocol::{AuthCredentials, AuthResult, Credentials, HandleResult};
use crate::error::RsmsError;
use crate::wire;
use vstd::prelude::*;

verus! {

/// A request to log in.
#[derive(Debug)]
pub struct SmgpConnect {
    pub sequence_id: u32,
    pub client_id: String,
    pub authenticator: [u8; 16],
    pub version: u8,
}

/// A request that an SMGP server gets.
#[derive(Debug)]
pub enum SmgpRequest {
    Login(SmgpConnect),
    Submit { sequence_id: u32 },
    ActiveTest { sequence_id: u32 },
    Deliver { sequence_id: u32 },
    Exit { sequence_id: u32 },
    Other,
}

/// What the response says.
#[derive(Debug, Clone, Copy, PartialEq, Eq, Structural)]
pub enum SmgpBody {
    /// The result of a login, with an empty authenticator.
    LoginResp { status: u32, version: u8 },
    ActiveTestResp,
    DeliverResp { status: u32 },
    ExitResp,
}

/// A response that an SMGP server gives.
#[derive(Debug, Clone, Copy, PartialEq, Eq, Structural)]
pub struct SmgpReply {
    pub sequence_id: u32,
    pub body: SmgpBody,
}

/// What a login needs once there is a verdict on it.
#[derive(Debug, Clone, Copy, PartialEq, Eq, Structural)]
pub struct SmgpLogin {
    pub sequence_id: u32,
    pub version: u8,
}

/// What an SMGP server does about a frame.
#[derive(Debug)]
pub enum SmgpStep {
    Done(Outcome<SmgpReply>),
    /// Ask whether to let the client in.
    Authenticate { login: SmgpLogin, client_id: String, credentials: AuthCredentials },
}

/// What an SMGP server does about a frame, as a mathematical value.
#[verifier::ext_equal]
pub enum SmgpDeed {
    Done(Deed<SmgpReply>),
    Authenticate { login: SmgpLogin, client_id: Seq<char>, credentials: Credentials },
}

impl View for Outcome<SmgpReply> {
    type V = Deed<SmgpReply>;

    open spec fn view(&self) -> Deed<SmgpReply> {
        Deed {
            account: outcome::text_view(self.account),
            version: self.version,
            reply: self.reply,
            must_send: self.must_send,
            result: self.result,
        }
    }
}

impl View for SmgpStep {
    type V = SmgpDeed;

    open spec fn view(&self) -> SmgpDeed {
        match self {
            SmgpStep::Done(outcome) => SmgpDeed::Done(outcome@),
            SmgpStep::Authenticate { login, client_id, credentials } => SmgpDeed::Authenticate {
                login: *login,
                client_id: client_id@,
                credentials: credentials@,
            },
        }
    }
}

impl SmgpReply {
    /// The command of the response.
    pub open spec fn command(self) -> u32 {
        match self.body {
            SmgpBody::LoginResp { .. } => command::SMGP_LOGIN_RESP,
            SmgpBody::ActiveTestResp => command::SMGP_ACTIVE_TEST_RESP,
            SmgpBody::DeliverResp { .. } => command::SMGP_DELIVER_RESP,
            SmgpBody::ExitResp => command::SMGP_EXIT_RESP,
        }
    }

    /// The response with its header, around the body as the codec writes it.
    pub fn frame(&self, body: &[u8]) -> (pdu: Vec<u8>)
        requires
            body@.len() <= u32::MAX - 12,
        ensures
            pdu@ == framing::pdu12(self.command(), self.sequence_id, body@),
    {
        let command_id: u32 = match self.body {
            SmgpBody::LoginResp { .. } => command::SMGP_LOGIN_RESP,
            SmgpBody::ActiveTestResp => command::SMGP_ACTIVE_TEST_RESP,
            SmgpBody::DeliverResp { .. } => command::SMGP_DELIVER_RESP,
            SmgpBody::ExitResp => command::SMGP_EXIT_RESP,
        };
        framing::encode_pdu12(command_id, self.sequence_id, body)
    }
}

/// What a verdict on a login leads to.
pub open spec fn login_deed(login: SmgpLogin, verdict: Verdict) -> Deed<SmgpReply> {
    Deed {
        account: verdict.account(),
        version: None,
        reply: Some(
            SmgpReply {
                sequence_id: login.sequence_id,
                body: SmgpBody::LoginResp { status: verdict.status(), version: login.version },
            },
        ),
        must_send: true,
        result: verdict.result(),
    }
}

/// Answers a login, once there is a verdict on it.
pub fn on_verdict(login: SmgpLogin, verdict: Result<AuthResult, RsmsError>) -> (outcome: Outcome<
    SmgpReply,
>)
    ensures
        outcome@ == login_deed(login, outcome::verdict_of(verdict)),
{
    let (status, account, result) = judge(verdict);
    Outcome {
        account,
        version: None,
        reply: Some(
            SmgpReply {
                sequence_id: login.sequence_id,
                body: SmgpBody::LoginResp { status, version: login.version },
            },
        ),
        must_send: true,
        result,
    }
}

/// What a request leads to. Without anybody to ask, everybody is let in under the name they
/// give.
pub open spec fn request_deed(request: SmgpRequest, has_auth: bool) -> SmgpDeed {
    match request {
        SmgpRequest::Login(c) => {
            let login = SmgpLogin { sequence_id: c.sequence_id, version: c.version };
            if has_auth {
                SmgpDeed::Authenticate {
                    login,
                    client_id: c.client_id@,
                    credentials: Credentials::Smgp {
                        client_id: c.client_id@,
                        authenticator: c.authenticator@,
                        version: c.version,
                    },
                }
            } else {
                SmgpDeed::Done(login_deed(login, Verdict::LetIn(c.client_id@)))
            }
        },
        SmgpRequest::Submit { .. } => SmgpDeed::Done(Deed::quiet(HandleResult::Continue)),
        SmgpRequest::ActiveTest { sequence_id } => SmgpDeed::Done(
            Deed::answer(
                SmgpReply { sequence_id, body: SmgpBody::ActiveTestResp },
                HandleResult::Continue,
            ),
        ),
        SmgpRequest::Deliver { sequence_id } => SmgpDeed::Done(
            Deed::answer(
                SmgpReply { sequence_id, body: SmgpBody::DeliverResp { status: 0 } },
                HandleResult::Continue,
            ),
        ),
        SmgpRequest::Exit { sequence_id } => SmgpDeed::Done(
            Deed::answer(
                SmgpReply { sequence_id, body: SmgpBody::ExitResp },
                HandleResult::Stop,
            ),
        ),
        SmgpRequest::Other => SmgpDeed::Done(Deed::quiet(HandleResult::Stop)),
    }
}

/// What to do about a request.
pub fn on_request(request: SmgpRequest, has_auth: bool) -> (step: SmgpStep)
    ensures
        step@ == request_deed(request, has_auth),
{
    match request {
        SmgpRequest::Login(c) => {
            let login = SmgpLogin { sequence_id: c.sequence_id, version: c.version };
            if has_auth {
                SmgpStep::Authenticate {
                    login,
                    client_id: c.client_id.clone(),
                    credentials: AuthCredentials::Smgp {
                        client_id: c.client_id,
                        authenticator: c.authenticator,
                        version: c.version,
                    },
                }
            } else {
                SmgpStep::Done(on_verdict(login, Ok(AuthResult::success(c.client_id.as_str()))))
            }
        },
        SmgpRequest::Submit { .. } => SmgpStep::Done(Outcome::quiet(HandleResult::Continue)),
        SmgpRequest::ActiveTest { sequence_id } => SmgpStep::Done(
            Outcome::answer(
                SmgpReply { sequence_id, body: SmgpBody::ActiveTestResp },
                HandleResult::Continue,
            ),
        ),
        SmgpRequest::Deliver { sequence_id } => SmgpStep::Done(
            Outcome::answer(
                SmgpReply { sequence_id, body: SmgpBody::DeliverResp { status: 0 } },
                HandleResult::Continue,
            ),
        ),
        SmgpRequest::Exit { sequence_id } => SmgpStep::Done(
            Outcome::answer(
                SmgpReply { sequence_id, body: SmgpBody::ExitResp },
                HandleResult::Stop,
            ),
        ),
        SmgpRequest::Other => SmgpStep::Done(Outcome::quiet(HandleResult::Stop)),
    }
}

/// What a frame that cannot be read leads to: nothing.
pub fn on_undecodable() -> (outcome: Outcome<SmgpReply>)
    ensures
        outcome@ == Deed::<SmgpReply>::quiet(HandleResult::Stop),
{
    Outcome::quiet(HandleResult::Stop)
}

/// The sequence number of a request, if it has one.
pub open spec fn sequence_of(request: SmgpRequest) -> Option<u32> {
    match request {
        SmgpRequest::Login(c) => Some(c.sequence_id),
        SmgpRequest::Submit { sequence_id } => Some(sequence_id),
        SmgpRequest::ActiveTest { sequence_id } => Some(sequence_id),
        SmgpRequest::Deliver { sequence_id } => Some(sequence_id),
        SmgpRequest::Exit { sequence_id } => Some(sequence_id),
        SmgpRequest::Other => None,
    }
}

/// Every response has the sequence number of its request, at once or after a verdict.
pub proof fn law_reply_has_sequence(
    request: SmgpRequest,
    has_auth: bool,
    verdict: Result<AuthResult, RsmsError>,
)
    ensures
        match request_deed(request, has_auth) {
            SmgpDeed::Done(deed) => deed.reply matches Some(reply) ==> Some(reply.sequence_id)
                == sequence_of(request),
            SmgpDeed::Authenticate { login, .. } => login_deed(
                login,
                outcome::verdict_of(verdict),
            ).reply matches Some(reply) && Some(reply.sequence_id) == sequence_of(request),
        },
{
}

/// What comes of a request that is no login. A submitted message goes on to the application and is
/// not answered. A delivered message is answered with status 0 and a sign of life as what it is;
/// both go on. A goodbye is answered, and is the end. Each answer has the number of its request.
pub proof fn law_requests(request: SmgpRequest, has_auth: bool, step: SmgpStep)
    requires
        call_ensures(on_request, (request, has_auth), step),
        !(request is Login),
    ensures
        step matches SmgpStep::Done(o) && o.account is None && o.version is None && (match request {
            SmgpRequest::Submit { .. } => o.result == HandleResult::Continue && o.reply is None,
            SmgpRequest::Deliver { sequence_id } => o.result == HandleResult::Continue && (o.reply
                matches Some(r) && r.sequence_id == sequence_id && (r.body
                matches SmgpBody::DeliverResp { status } && status == 0)),
            SmgpRequest::ActiveTest { sequence_id } => o.result == HandleResult::Continue && (
            o.reply matches Some(r) && r.sequence_id == sequence_id && r.body is ActiveTestResp),
            SmgpRequest::Exit { sequence_id } => o.result == HandleResult::Stop && (o.reply
                matches Some(r) && r.sequence_id == sequence_id && r.body is ExitResp),
            _ => o.result == HandleResult::Stop && o.reply is None,
        }),
{
}

/// What comes of a login. Whoever decides about logins is asked, with the name, the digest and the
/// version that the client gave; where nobody decides, the client is let in under its name and
/// gets status 0 and its version.
pub proof fn law_logins(c: SmgpConnect, has_auth: bool, step: SmgpStep)
    requires
        call_ensures(on_request, (SmgpRequest::Login(c), has_auth), step),
    ensures
        has_auth ==> (step matches SmgpStep::Authenticate { login, client_id, credentials }
            && client_id@ == c.client_id@ && login.sequence_id == c.sequence_id && login.version
            == c.version && (credentials matches AuthCredentials::Smgp {
            client_id,
            authenticator,
            version,
        } && client_id@ == c.client_id@ && authenticator@ == c.authenticator@ && version
            == c.version)),
        !has_auth ==> (step matches SmgpStep::Done(o) && o.result == HandleResult::Continue && (
        o.account matches Some(account) && account@ == c.client_id@) && (o.reply matches Some(r)
            && r.sequence_id == c.sequence_id && (r.body matches SmgpBody::LoginResp {
            status,
            version,
        } && status == 0 && version == c.version))),
{
}

/// What comes of a decision about a login: a client that is let in, which is one with status 0,
/// belongs to the account from now on; another gets the status, or 1 if nobody could decide, and
/// goes no further. Both get an answer.
pub proof fn law_decided_login(
    login: SmgpLogin,
    verdict: Result<AuthResult, RsmsError>,
    outcome: Outcome<SmgpReply>,
)
    requires
        call_ensures(on_verdict, (login, verdict), outcome),
    ensures
        verdict matches Ok(auth) && auth.status == 0 ==> {
            &&& outcome.account matches Some(account) && account@ == verdict->Ok_0.account@
            &&& outcome.result == HandleResult::Continue
        },
        !(verdict matches Ok(auth) && auth.status == 0) ==> outcome.account is None
            && outcome.result == HandleResult::Stop,
        outcome.reply matches Some(r) && r.sequence_id == login.sequence_id && (r.body
            matches SmgpBody::LoginResp { status, version } && version == login.version && status
            == (match verdict {
            Ok(auth) => auth.status,
            Err(_) => 1,
        })),
        outcome.must_send,
{
}

/// The answers on the wire: twelve bytes with the length, the command and the number, and then the
/// body. The commands are 0x80000001 for a login, 0x80000003 for a delivered message, 0x80000004
/// for a sign of life and 0x80000006 for a goodbye.
pub proof fn law_answers_on_wire(reply: SmgpReply, body: &[u8], pdu: Vec<u8>)
    requires
        call_ensures(SmgpReply::frame, (&reply, body), pdu),
        body@.len() <= u32::MAX - 12,
    ensures
        ({
            let s = pdu@;
            &&& s.len() == 12 + body@.len()
            &&& s[0] * 16777216 + s[1] * 65536 + s[2] * 256 + s[3] == s.len()
            &&& s[4] == 0x80 && s[5] == 0 && s[6] == 0 && s[7] == (match reply.body {
                SmgpBody::LoginResp { .. } => 1u8,
                SmgpBody::DeliverResp { .. } => 3u8,
                SmgpBody::ActiveTestResp => 4u8,
                SmgpBody::ExitResp => 6u8,
            })
            &&& s[8] * 16777216 + s[9] * 65536 + s[10] * 256 + s[11] == reply.sequence_id
            &&& s.subrange(12, s.len() as int) == body@
        }),
{
    wire::law_high_byte_first(0, ((12 + body@.len()) % 0x1_0000_0000) as u32, Seq::empty());
    wire::law_high_byte_first(0, reply.sequence_id, Seq::empty());
    assert(pdu@.subrange(12, pdu@.len() as int) =~= body@);
}

/// A frame that cannot be read is not answered and goes no further.
pub proof fn law_unreadable(outcome: Outcome<SmgpReply>)
    requires
        call_ensures(on_undecodable, (), outcome),
    ensures
        outcome.result == HandleResult::Stop,
        outcome.reply is None,
        outcome.account is None,
{
}

} // verus!
