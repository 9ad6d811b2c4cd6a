//! An SMPP server's answers.

use crate::connector::handlers::outcome;
use crate::connector::handlers::outcome::{judge, Deed, Outcome, Verdict};
use crate::connector::protocol::{AuthCredentials, AuthResult, Credentials, HandleResult};
use crate::error::RsmsError;
use crate::frame::{Frame, FrameModel};
use crate::model::BindMode;
use crate::smpp::datatypes::bind;
use crate::smpp::datatypes::bind::{
    BindFields, BindReceiverResp, BindRespFields, BindTransceiverResp, BindTransmitterResp,
};
use crate::smpp::datatypes::link::{EnquireLinkResp, UnbindResp};
use crate::smpp::grammar;
use crate::smpp::message;
use crate::smpp::message::{decode_message_with_version, Message, SmppMessage};
use crate::smpp::pdu::Pdu;
use crate::smpp::version::SmppVersion;
use vstd::prelude::*;
use vstd::string::*;
use vstd::utf8::*;

verus! {

/// What a login needs once there is a verdict on it.
#[derive(Debug, Clone, Copy, PartialEq, Eq, Structural)]
pub struct SmppLogin {
    pub mode: BindMode,
    pub sequence_id: u32,
    pub interface_version: u8,
}

/// What an SMPP server does about a frame.
#[derive(Debug)]
pub enum SmppStep {
    Done(Outcome<Vec<u8>>),
    /// Ask whether to let the client in.
    Authenticate { login: SmppLogin, client_id: String, credentials: AuthCredentials },
}

/// What an SMPP server does about a frame, as a mathematical value.
#[verifier::ext_equal]
pub enum SmppDeed {
    Done(Deed<Seq<u8>>),
    Authenticate { login: SmppLogin, client_id: Seq<char>, credentials: Credentials },
}

impl View for SmppStep {
    type V = SmppDeed;

    open spec fn view(&self) -> SmppDeed {
        match self {
            SmppStep::Done(outcome) => SmppDeed::Done(outcome@),
            SmppStep::Authenticate { login, client_id, credentials } => SmppDeed::Authenticate {
                login: *login,
                client_id: client_id@,
                credentials: credentials@,
            },
        }
    }
}

/// What the response to a request to bind says: the server's name, and the client's version.
pub open spec fn bind_fields(login: SmppLogin, status: u32) -> BindRespFields {
    BindRespFields {
        system_id: "SERVER"@,
        sc_interface_version: login.interface_version,
        command_status: status,
    }
}

/// The response to a request to bind.
pub open spec fn bind_resp(login: SmppLogin, status: u32) -> Message {
    match login.mode {
        BindMode::Transmitter => Message::BindTransmitterResp(bind_fields(login, status)),
        BindMode::Receiver => Message::BindReceiverResp(bind_fields(login, status)),
        BindMode::Transceiver => Message::BindTransceiverResp(bind_fields(login, status)),
    }
}

proof fn lemma_server_fits()
    ensures
        grammar::fits("SERVER"@, 16),
        encode_utf8("SERVER"@).len() == 6,
{
    reveal_strlit("SERVER");
    assert(is_ascii_chars("SERVER"@));
    is_ascii_chars_encode_utf8("SERVER"@);
    let bytes = encode_utf8("SERVER"@);
    assert forall|i: int| 0 <= i < bytes.len() implies bytes[i] != 0 by {
        assert("SERVER"@[i] as u8 != 0);
    }
}

fn encode_bind_resp(login: SmppLogin, status: u32) -> (bytes: Vec<u8>)
    ensures
        bytes@ == bind_resp(login, status).bytes(login.sequence_id),
{
    proof {
        lemma_server_fits();
    }
    let system_id = "SERVER".to_owned();
    let sc_interface_version: u8 = login.interface_version;
    let command_status: u32 = status;
    let pdu = match login.mode {
        BindMode::Transmitter => Pdu::BindTransmitterResp(
            BindTransmitterResp { system_id, sc_interface_version, command_status },
        ),
        BindMode::Receiver => Pdu::BindReceiverResp(
            BindReceiverResp { system_id, sc_interface_version, command_status },
        ),
        BindMode::Transceiver => Pdu::BindTransceiverResp(
            BindTransceiverResp { system_id, sc_interface_version, command_status },
        ),
    };
    proof {
        message::lemma_pdu_message(pdu, login.sequence_id);
    }
    pdu.to_pdu_bytes(login.sequence_id).to_vec()
}

/// What a verdict on a login leads to. The version counts from a login that is let in.
pub open spec fn login_deed(login: SmppLogin, verdict: Verdict) -> Deed<Seq<u8>> {
    Deed {
        account: verdict.account(),
        version: if verdict is LetIn {
            Some(login.interface_version)
        } else {
            None
        },
        reply: Some(bind_resp(login, verdict.status()).bytes(login.sequence_id)),
        must_send: true,
        result: verdict.result(),
    }
}

/// Answers a login, once there is a verdict on it.
pub fn on_verdict(login: SmppLogin, verdict: Result<AuthResult, RsmsError>) -> (outcome: Outcome<
    Vec<u8>,
>)
    ensures
        outcome@ == login_deed(login, outcome::verdict_of(verdict)),
{
    let (status, account, result) = judge(verdict);
    let version: Option<u8> = if account.is_some() {
        Some(login.interface_version)
    } else {
        None
    };
    Outcome {
        account,
        version,
        reply: Some(encode_bind_resp(login, status)),
        must_send: true,
        result,
    }
}

/// The version that a client speaks, by the number that it gave.
pub open spec fn version_of(version: Option<u8>) -> Option<SmppVersion> {
    match version {
        Some(v) => SmppVersion::of_interface(v),
        None => None,
    }
}

/// Who wants to bind, and as what.
pub open spec fn bind_of(m: Message) -> Option<(BindFields, BindMode)> {
    match m {
        Message::BindTransmitter(b) => Some((b, BindMode::Transmitter)),
        Message::BindReceiver(b) => Some((b, BindMode::Receiver)),
        Message::BindTransceiver(b) => Some((b, BindMode::Transceiver)),
        _ => None,
    }
}

/// What a request to bind leads to. Without anybody to ask, everybody is let in under the name
/// they give.
pub open spec fn bind_deed(
    bind: BindFields,
    mode: BindMode,
    sequence_id: u32,
    has_auth: bool,
) -> SmppDeed {
    let login = SmppLogin { mode, sequence_id, interface_version: bind.interface_version };
    if has_auth {
        SmppDeed::Authenticate {
            login,
            client_id: bind.system_id,
            credentials: Credentials::Smpp {
                system_id: bind.system_id,
                password: bind.password,
                interface_version: bind.interface_version,
            },
        }
    } else {
        SmppDeed::Done(login_deed(login, Verdict::LetIn(bind.system_id)))
    }
}

/// What a PDU leads to.
pub open spec fn message_deed(m: Message, sequence_id: u32, has_auth: bool) -> SmppDeed {
    match bind_of(m) {
        Some((bind, mode)) => bind_deed(bind, mode, sequence_id, has_auth),
        None => SmppDeed::Done(
            match m {
                Message::SubmitSm(_) | Message::DeliverSm(_) => Deed::quiet(HandleResult::Continue),
                Message::EnquireLink => Deed::answer(
                    Message::EnquireLinkResp.bytes(sequence_id),
                    HandleResult::Continue,
                ),
                Message::Unbind => Deed::answer(
                    Message::UnbindResp.bytes(sequence_id),
                    HandleResult::Stop,
                ),
                _ => Deed::quiet(HandleResult::Stop),
            },
        ),
    }
}

/// What a frame leads to. One that cannot be read is dropped.
pub open spec fn frame_deed(frame: FrameModel, version: Option<u8>, has_auth: bool) -> SmppDeed {
    match message::decoded(frame.data, version_of(version)) {
        Ok(m) => message_deed(m, frame.sequence_id, has_auth),
        Err(_) => SmppDeed::Done(Deed::quiet(HandleResult::Stop)),
    }
}

fn on_bind(
    login: SmppLogin,
    system_id: String,
    password: String,
    has_auth: bool,
) -> (step: SmppStep)
    ensures
        step@ == (if has_auth {
            SmppDeed::Authenticate {
                login,
                client_id: system_id@,
                credentials: Credentials::Smpp {
                    system_id: system_id@,
                    password: password@,
                    interface_version: login.interface_version,
                },
            }
        } else {
            SmppDeed::Done(login_deed(login, Verdict::LetIn(system_id@)))
        }),
{
    if has_auth {
        SmppStep::Authenticate {
            login,
            client_id: system_id.clone(),
            credentials: AuthCredentials::Smpp {
                system_id,
                password,
                interface_version: login.interface_version,
            },
        }
    } else {
        SmppStep::Done(on_verdict(login, Ok(AuthResult::success(system_id.as_str()))))
    }
}

/// What to do about a frame of a client that speaks `version`, as far as that is known.
pub fn on_frame(frame: &Frame, version: Option<u8>, has_auth: bool) -> (step: SmppStep)
    ensures
        step@ == frame_deed(frame@, version, has_auth),
{
    let sequence_id: u32 = frame.sequence_id;
    let smpp_version = match version {
        Some(v) => SmppVersion::from_interface_version(v),
        None => None,
    };
    let msg = match decode_message_with_version(frame.data_as_slice(), smpp_version) {
        Ok(msg) => msg,
        Err(_) => {
            return SmppStep::Done(Outcome::quiet(HandleResult::Stop));
        },
    };
    match msg {
        SmppMessage::BindTransmitter(b) => {
            let login = SmppLogin {
                mode: BindMode::Transmitter,
                sequence_id,
                interface_version: b.interface_version,
            };
            on_bind(login, b.system_id, b.password, has_auth)
        },
        SmppMessage::BindReceiver(b) => {
            let login = SmppLogin {
                mode: BindMode::Receiver,
                sequence_id,
                interface_version: b.interface_version,
            };
            on_bind(login, b.system_id, b.password, has_auth)
        },
        SmppMessage::BindTransceiver(b) => {
            let login = SmppLogin {
                mode: BindMode::Transceiver,
                sequence_id,
                interface_version: b.interface_version,
            };
            on_bind(login, b.system_id, b.password, has_auth)
        },
        SmppMessage::SubmitSm(_) | SmppMessage::DeliverSm(_) => SmppStep::Done(
            Outcome::quiet(HandleResult::Continue),
        ),
        SmppMessage::EnquireLink(_) => {
            let pdu = Pdu::EnquireLinkResp(EnquireLinkResp);
            proof {
                message::lemma_pdu_message(pdu, sequence_id);
            }
            let reply = pdu.to_pdu_bytes(sequence_id).to_vec();
            SmppStep::Done(Outcome::answer(reply, HandleResult::Continue))
        },
        SmppMessage::Unbind(_) => {
            let pdu = Pdu::UnbindResp(UnbindResp);
            proof {
                message::lemma_pdu_message(pdu, sequence_id);
            }
            let reply = pdu.to_pdu_bytes(sequence_id).to_vec();
            SmppStep::Done(Outcome::answer(reply, HandleResult::Stop))
        },
        _ => SmppStep::Done(Outcome::quiet(HandleResult::Stop)),
    }
}

/// The client reads the answer to its login as the response to what it asked for. Its status is
/// 0 if the client was let in, and else the reason.
pub proof fn law_login_answer_is_read(login: SmppLogin, verdict: Result<AuthResult, RsmsError>)
    ensures
        login_deed(login, outcome::verdict_of(verdict)).reply matches Some(reply)
            && message::decoded(reply, None) == Ok::<Message, Seq<char>>(
            bind_resp(login, outcome::verdict_of(verdict).status()),
        ),
{
    lemma_server_fits();
    let m = bind_resp(login, outcome::verdict_of(verdict).status());
    assert(m.written().bytes.len() == 8);
    message::law_pdu_roundtrip(m, login.sequence_id, None);
}

/// A client that looks whether the server is there gets the answer, and one that unbinds does
/// too and is done.
pub proof fn law_link_answers_are_read(sequence_id: u32, has_auth: bool)
    ensures
        message_deed(Message::EnquireLink, sequence_id, has_auth) matches SmppDeed::Done(deed)
            && deed.result == HandleResult::Continue && (deed.reply matches Some(reply)
            && message::decoded(reply, None) == Ok::<Message, Seq<char>>(Message::EnquireLinkResp)),
        message_deed(Message::Unbind, sequence_id, has_auth) matches SmppDeed::Done(deed)
            && deed.result == HandleResult::Stop && (deed.reply matches Some(reply)
            && message::decoded(reply, None) == Ok::<Message, Seq<char>>(Message::UnbindResp)),
{
    message::law_pdu_roundtrip(Message::EnquireLinkResp, sequence_id, None);
    message::law_pdu_roundtrip(Message::UnbindResp, sequence_id, None);
}

/// A message that a client submits or delivers goes on to the application as it is: nothing is
/// answered, nothing is noted, and nothing holds it back.
pub proof fn law_messages_go_on(
    frame: Frame,
    version: Option<u8>,
    has_auth: bool,
    step: SmppStep,
    m: Message,
)
    requires
        call_ensures(on_frame, (&frame, version, has_auth), step),
        message::decoded(frame.data@, version_of(version)) == Ok::<Message, Seq<char>>(m),
        m is SubmitSm || m is DeliverSm,
    ensures
        step matches SmppStep::Done(o) && o.result == HandleResult::Continue && o.reply is None
            && o.account is None && o.version is None,
{
}

/// A message that was written as a PDU goes on to the application, whatever version the client
/// speaks.
pub proof fn law_written_messages_go_on(
    frame: Frame,
    version: Option<u8>,
    has_auth: bool,
    step: SmppStep,
    m: Message,
    sequence_number: u32,
)
    requires
        call_ensures(on_frame, (&frame, version, has_auth), step),
        m is SubmitSm || m is DeliverSm,
        message::readable(m),
        frame.data@ == m.bytes(sequence_number),
    ensures
        step matches SmppStep::Done(o) && o.result == HandleResult::Continue && o.reply is None,
{
    message::law_pdu_roundtrip(m, sequence_number, version_of(version));
}

/// Whoever decides about logins is asked about every login, with the name, the password and the
/// version that the client gave, and the answer is to go out under the number of the request.
pub proof fn law_logins_are_asked_about(
    frame: Frame,
    version: Option<u8>,
    step: SmppStep,
    m: Message,
    bind: BindFields,
    mode: BindMode,
)
    requires
        call_ensures(on_frame, (&frame, version, true), step),
        message::decoded(frame.data@, version_of(version)) == Ok::<Message, Seq<char>>(m),
        m == Message::BindTransmitter(bind) && mode == BindMode::Transmitter || m
            == Message::BindReceiver(bind) && mode == BindMode::Receiver || m
            == Message::BindTransceiver(bind) && mode == BindMode::Transceiver,
    ensures
        step matches SmppStep::Authenticate { login, client_id, credentials } && {
            &&& client_id@ == bind.system_id
            &&& credentials matches AuthCredentials::Smpp {
                system_id,
                password,
                interface_version,
            } && system_id@ == bind.system_id && password@ == bind.password && interface_version
                == bind.interface_version
            &&& login.mode == mode
            &&& login.sequence_id == frame.sequence_id
            &&& login.interface_version == bind.interface_version
        },
{
}

/// Where nobody decides about logins, every client is let in under its name, its version counts
/// from now on, and it gets an answer.
pub proof fn law_open_house(
    frame: Frame,
    version: Option<u8>,
    step: SmppStep,
    m: Message,
    bind: BindFields,
)
    requires
        call_ensures(on_frame, (&frame, version, false), step),
        message::decoded(frame.data@, version_of(version)) == Ok::<Message, Seq<char>>(m),
        m == Message::BindTransmitter(bind) || m == Message::BindReceiver(bind) || m
            == Message::BindTransceiver(bind),
    ensures
        step matches SmppStep::Done(o) && {
            &&& o.result == HandleResult::Continue
            &&& o.account matches Some(account) && account@ == bind.system_id
            &&& o.version == Some(bind.interface_version)
            &&& o.reply is Some
        },
{
}

/// What comes of a decision about a login: a client that is let in, which is one with status 0,
/// belongs to the account from now on and its version counts; another gets the status, or 1 if
/// nobody could decide, and goes no further. Both get an answer.
pub proof fn law_decided_login(
    login: SmppLogin,
    verdict: Result<AuthResult, RsmsError>,
    outcome: Outcome<Vec<u8>>,
)
    requires
        call_ensures(on_verdict, (login, verdict), outcome),
    ensures
        verdict matches Ok(auth) && auth.status == 0 ==> {
            &&& outcome.account matches Some(account) && account@ == verdict->Ok_0.account@
            &&& outcome.version == Some(login.interface_version)
            &&& outcome.result == HandleResult::Continue
        },
        !(verdict matches Ok(auth) && auth.status == 0) ==> outcome.account is None
            && outcome.version is None && outcome.result == HandleResult::Stop,
        outcome.reply matches Some(reply) && is_bind_answer(
            reply@,
            login,
            match verdict {
                Ok(auth) => auth.status,
                Err(_) => 1,
            },
        ),
        outcome.must_send,
{
    lemma_server_fits();
    let status = outcome::verdict_of(verdict).status();
    let m = bind_resp(login, status);
    reveal_strlit("SERVER");
    is_ascii_chars_encode_utf8("SERVER"@);
    bind::law_bind_resp_on_wire(bind_fields(login, status));
    assert(m.written().bytes.len() == 8);
    message::law_pdu_on_wire(m, login.sequence_id);
    let s = m.bytes(login.sequence_id);
    assert(m.written().bytes == s.subrange(16, 24));
    assert(s[22] == m.written().bytes[6]);
    assert(s[23] == m.written().bytes[7]);
}

/// Whether bytes are the answer to a login: 24 of them, with the command of the response to the
/// request, the status, the number of the request, and the client's version at the end.
pub open spec fn is_bind_answer(s: Seq<u8>, login: SmppLogin, status: u32) -> bool {
    &&& s.len() == 24
    &&& s[0] == 0 && s[1] == 0 && s[2] == 0 && s[3] == 24
    &&& s[4] * 16777216 + s[5] * 65536 + s[6] * 256 + s[7] == (match login.mode {
        BindMode::Receiver => 0x80000001int,
        BindMode::Transmitter => 0x80000002int,
        BindMode::Transceiver => 0x80000009int,
    })
    &&& s[8] * 16777216 + s[9] * 65536 + s[10] * 256 + s[11] == status
    &&& s[12] * 16777216 + s[13] * 65536 + s[14] * 256 + s[15] == login.sequence_id
    &&& s[22] == 0
    &&& s[23] == login.interface_version
}

/// A client that asks whether the server is there gets 16 bytes with command 0x80000015, and one
/// that unbinds 16 bytes with command 0x80000006, both with status 0 and the number of the
/// request. The first goes on, the second is done.
pub proof fn law_links_are_answered(
    frame: Frame,
    version: Option<u8>,
    has_auth: bool,
    step: SmppStep,
    m: Message,
)
    requires
        call_ensures(on_frame, (&frame, version, has_auth), step),
        message::decoded(frame.data@, version_of(version)) == Ok::<Message, Seq<char>>(m),
        m is EnquireLink || m is Unbind,
    ensures
        step matches SmppStep::Done(o) && {
            &&& o.result == (if m is Unbind {
                HandleResult::Stop
            } else {
                HandleResult::Continue
            })
            &&& o.account is None
            &&& o.version is None
            &&& o.reply matches Some(reply) && {
                let s = reply@;
                &&& s.len() == 16
                &&& s[0] == 0 && s[1] == 0 && s[2] == 0 && s[3] == 16
                &&& s[4] * 16777216 + s[5] * 65536 + s[6] * 256 + s[7] == (if m is Unbind {
                    0x80000006int
                } else {
                    0x80000015int
                })
                &&& s[8] == 0 && s[9] == 0 && s[10] == 0 && s[11] == 0
                &&& s[12] * 16777216 + s[13] * 65536 + s[14] * 256 + s[15] == frame.sequence_id
            }
        },
{
    message::law_pdu_on_wire(Message::EnquireLinkResp, frame.sequence_id);
    message::law_pdu_on_wire(Message::UnbindResp, frame.sequence_id);
}

/// Responses, queries, cancellations, refusals and what cannot be read go no further, and nothing
/// is answered.
pub proof fn law_the_rest_ends_here(
    frame: Frame,
    version: Option<u8>,
    has_auth: bool,
    step: SmppStep,
)
    requires
        call_ensures(on_frame, (&frame, version, has_auth), step),
        message::decoded(frame.data@, version_of(version)) matches Ok(m) ==> !(m is SubmitSm || m
            is DeliverSm || m is EnquireLink || m is Unbind || m is BindTransmitter || m
            is BindReceiver || m is BindTransceiver),
    ensures
        step matches SmppStep::Done(o) && o.result == HandleResult::Stop && o.reply is None
            && o.account is None && o.version is None,
{
}

/// A client's version counts by the number that it gave: 0x32 to 0x34 are version 3.4, 0x50 and
/// 0x51 version 5.0.
pub proof fn law_version_numbers(v: u8)
    ensures
        version_of(None) is None,
        version_of(Some(v)) == Some(SmppVersion::V34) <==> 0x32 <= v <= 0x34,
        version_of(Some(v)) == Some(SmppVersion::V50) <==> 0x50 <= v <= 0x51,
{
}

} // verus!
