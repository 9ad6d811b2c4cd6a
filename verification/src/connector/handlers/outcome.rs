//! What comes of a frame.

use crate::connector::protocol::{AuthResult, HandleResult};
use crate::error::RsmsError;
use vstd::prelude::*;

verus! {

/// What a server does about a frame: in this order, it notes the account and the version, sends
/// the reply, and hands the frame on or not.
#[derive(Debug)]
pub struct Outcome<R> {
    /// The account that is logged in now.
    pub account: Option<String>,
    /// The version that the client speaks from now on.
    pub version: Option<u8>,
    pub reply: Option<R>,
    /// Whether it is an error if the reply cannot be sent.
    pub must_send: bool,
    pub result: HandleResult,
}

/// What a server does about a frame, as a mathematical value.
#[verifier::ext_equal]
pub struct Deed<R> {
    pub account: Option<Seq<char>>,
    pub version: Option<u8>,
    pub reply: Option<R>,
    pub must_send: bool,
    pub result: HandleResult,
}

/// A text as a mathematical value, if there is one.
pub open spec fn text_view(s: Option<String>) -> Option<Seq<char>> {
    match s {
        Some(s) => Some(s@),
        None => None,
    }
}

/// Bytes as a mathematical value, if there are any.
pub open spec fn bytes_view(bytes: Option<Vec<u8>>) -> Option<Seq<u8>> {
    match bytes {
        Some(bytes) => Some(bytes@),
        None => None,
    }
}

impl<R> Deed<R> {
    /// Hands the frame on, or not.
    pub open spec fn quiet(result: HandleResult) -> Deed<R> {
        Deed { account: None, version: None, reply: None, must_send: true, result }
    }

    /// Sends a reply, and hands the frame on or not.
    pub open spec fn answer(reply: R, result: HandleResult) -> Deed<R> {
        Deed { account: None, version: None, reply: Some(reply), must_send: true, result }
    }
}

impl<R> Outcome<R> {
    pub(crate) fn quiet(result: HandleResult) -> (outcome: Self)
        ensures
            outcome == (Outcome {
                account: None,
                version: None,
                reply: None::<R>,
                must_send: true,
                result,
            }),
    {
        Outcome { account: None, version: None, reply: None, must_send: true, result }
    }

    pub(crate) fn answer(reply: R, result: HandleResult) -> (outcome: Self)
        ensures
            outcome == (Outcome {
                account: None,
                version: None,
                reply: Some(reply),
                must_send: true,
                result,
            }),
    {
        Outcome { account: None, version: None, reply: Some(reply), must_send: true, result }
    }
}

/// The verdict on a login as a mathematical value: the account that is let in, or the status
/// that the client gets.
#[verifier::ext_equal]
pub enum Verdict {
    LetIn(Seq<char>),
    Refused(u32),
}

/// The verdict on a login. If nobody could tell, the login is refused with status 1.
pub open spec fn verdict_of(res: Result<AuthResult, RsmsError>) -> Verdict {
    match res {
        Ok(auth) => if auth.status == 0 {
            Verdict::LetIn(auth.account@)
        } else {
            Verdict::Refused(auth.status)
        },
        Err(_) => Verdict::Refused(1),
    }
}

impl Verdict {
    /// The status that the client gets.
    pub open spec fn status(self) -> u32 {
        match self {
            Verdict::LetIn(_) => 0,
            Verdict::Refused(status) => status,
        }
    }

    /// The account that is let in.
    pub open spec fn account(self) -> Option<Seq<char>> {
        match self {
            Verdict::LetIn(account) => Some(account),
            Verdict::Refused(_) => None,
        }
    }

    /// What becomes of the frame: a refused login goes no further.
    pub open spec fn result(self) -> HandleResult {
        match self {
            Verdict::LetIn(_) => HandleResult::Continue,
            Verdict::Refused(_) => HandleResult::Stop,
        }
    }
}

/// The status that the client gets, the account that is let in and what becomes of the frame.
pub(crate) fn judge(res: Result<AuthResult, RsmsError>) -> (out: (
    u32,
    Option<String>,
    HandleResult,
))
    ensures
        out.0 == verdict_of(res).status(),
        text_view(out.1) == verdict_of(res).account(),
        out.2 == verdict_of(res).result(),
{
    match res {
        Ok(auth) => if auth.status == 0 {
            (0, Some(auth.account), HandleResult::Continue)
        } else {
            (auth.status, None, HandleResult::Stop)
        },
        Err(_) => (1, None, HandleResult::Stop),
    }
}

/// A refusal has a status other than 0, lets nobody in and ends there; a login that is let in
/// has status 0, and the business handlers get to see it.
pub proof fn law_refusal_lets_nobody_in(res: Result<AuthResult, RsmsError>)
    ensures
        ({
            let verdict = verdict_of(res);
            &&& verdict.account() is Some <==> verdict.status() == 0
            &&& verdict.result() == HandleResult::Continue <==> verdict.status() == 0
            &&& verdict.status() == 0 <==> (res matches Ok(auth) && auth.status == 0)
        }),
{
}

/// What a deed without a reply and one with a reply are: no account and no version changes, and a
/// reply must go out.
pub proof fn law_deeds<R>(reply: R, result: HandleResult)
    ensures
        Deed::<R>::quiet(result).account is None,
        Deed::<R>::quiet(result).version is None,
        Deed::<R>::quiet(result).reply is None,
        Deed::<R>::quiet(result).must_send,
        Deed::<R>::quiet(result).result == result,
        Deed::answer(reply, result).account is None,
        Deed::answer(reply, result).version is None,
        Deed::answer(reply, result).reply == Some(reply),
        Deed::answer(reply, result).must_send,
        Deed::answer(reply, result).result == result,
{
}

/// What becomes of a login: one that somebody decided on has the status of the decision and, if
/// that is 0, its account; one that nobody could decide on has status 1.
pub proof fn law_decided(res: Result<AuthResult, RsmsError>)
    ensures
        res matches Ok(auth) ==> verdict_of(res).status() == auth.status && (auth.status == 0
            ==> verdict_of(res).account() == Some(auth.account@)),
        res is Err ==> verdict_of(res).status() == 1 && verdict_of(res).account() is None
            && verdict_of(res).result() == HandleResult::Stop,
{
}

} // verus!
