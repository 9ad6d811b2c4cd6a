//! What is known of a submitted message, of its report, and of a message from a phone.

use crate::clock;
use std::time::Instant;
use vstd::prelude::*;
use vstd::slice::slice_to_vec;

verus! {

/// How far a submitted message has come.
#[derive(Debug, Clone, Copy, PartialEq, Eq, Structural)]
pub enum TransactionStatus {
    Pending,
    RespReceived,
    Timeout,
    SendFailed,
}

/// A submitted message.
#[derive(Debug)]
pub struct SubmitInfo {
    pub sequence_id: u32,
    /// The id that the message center gave it.
    pub msg_id: Option<String>,
    pub dest_id: String,
    pub src_id: String,
    pub content: Vec<u8>,
    pub protocol: &'static str,
    pub submit_time: Instant,
}

/// A submitted message as a mathematical value.
#[verifier::ext_equal]
pub struct Submission {
    pub sequence_id: u32,
    pub msg_id: Option<Seq<char>>,
    pub dest_id: Seq<char>,
    pub src_id: Seq<char>,
    pub content: Seq<u8>,
    pub protocol: Seq<char>,
    pub submit_time: Instant,
}

/// A text as a mathematical value, if there is one.
pub open spec fn id_view(id: Option<String>) -> Option<Seq<char>> {
    match id {
        Some(s) => Some(s@),
        None => None,
    }
}

impl View for SubmitInfo {
    type V = Submission;

    open spec fn view(&self) -> Submission {
        Submission {
            sequence_id: self.sequence_id,
            msg_id: id_view(self.msg_id),
            dest_id: self.dest_id@,
            src_id: self.src_id@,
            content: self.content@,
            protocol: self.protocol@,
            submit_time: self.submit_time,
        }
    }
}

impl Clone for SubmitInfo {
    fn clone(&self) -> (copy: Self)
        ensures
            copy@ == self@,
    {
        SubmitInfo {
            sequence_id: self.sequence_id,
            msg_id: match &self.msg_id {
                Some(s) => Some(s.clone()),
                None => None,
            },
            dest_id: self.dest_id.clone(),
            src_id: self.src_id.clone(),
            content: slice_to_vec(self.content.as_slice()),
            protocol: self.protocol,
            submit_time: self.submit_time,
        }
    }
}

impl SubmitInfo {
    /// A message that is submitted now.
    pub fn new(
        sequence_id: u32,
        dest_id: String,
        src_id: String,
        content: Vec<u8>,
        protocol: &'static str,
    ) -> (info: Self)
        ensures
            info@ == (Submission {
                sequence_id,
                msg_id: None,
                dest_id: dest_id@,
                src_id: src_id@,
                content: content@,
                protocol: protocol@,
                submit_time: info.submit_time,
            }),
    {
        SubmitInfo {
            sequence_id,
            msg_id: None,
            dest_id,
            src_id,
            content,
            protocol,
            submit_time: clock::now(),
        }
    }

    /// A message that is submitted now and already has an id.
    pub fn with_msg_id(
        sequence_id: u32,
        msg_id: String,
        dest_id: String,
        src_id: String,
        content: Vec<u8>,
        protocol: &'static str,
    ) -> (info: Self)
        ensures
            info@ == (Submission {
                sequence_id,
                msg_id: Some(msg_id@),
                dest_id: dest_id@,
                src_id: src_id@,
                content: content@,
                protocol: protocol@,
                submit_time: info.submit_time,
            }),
    {
        SubmitInfo {
            sequence_id,
            msg_id: Some(msg_id),
            dest_id,
            src_id,
            content,
            protocol,
            submit_time: clock::now(),
        }
    }
}

/// What became of a submitted message.
#[derive(Debug, Clone)]
pub struct ReportInfo {
    pub msg_id: String,
    pub src_terminal_id: String,
    pub stat: String,
}

/// What became of a submitted message, as a mathematical value.
#[verifier::ext_equal]
pub struct Report {
    pub msg_id: Seq<char>,
    pub src_terminal_id: Seq<char>,
    pub stat: Seq<char>,
}

impl View for ReportInfo {
    type V = Report;

    open spec fn view(&self) -> Report {
        Report {
            msg_id: self.msg_id@,
            src_terminal_id: self.src_terminal_id@,
            stat: self.stat@,
        }
    }
}

/// A message from a phone.
#[derive(Debug, Clone)]
pub struct MoInfo {
    pub dest_id: String,
    pub src_terminal_id: String,
    pub content: Vec<u8>,
}

/// A message from a phone as a mathematical value.
#[verifier::ext_equal]
pub struct Mo {
    pub dest_id: Seq<char>,
    pub src_terminal_id: Seq<char>,
    pub content: Seq<u8>,
}

impl View for MoInfo {
    type V = Mo;

    open spec fn view(&self) -> Mo {
        Mo {
            dest_id: self.dest_id@,
            src_terminal_id: self.src_terminal_id@,
            content: self.content@,
        }
    }
}

/// A submitted message and how far it has come.
#[derive(Debug)]
pub struct TransactionEntry {
    pub info: SubmitInfo,
    pub status: TransactionStatus,
}

/// A submitted message and how far it has come, as a mathematical value.
#[verifier::ext_equal]
pub struct Transaction {
    pub info: Submission,
    pub status: TransactionStatus,
}

impl View for TransactionEntry {
    type V = Transaction;

    open spec fn view(&self) -> Transaction {
        Transaction { info: self.info@, status: self.status }
    }
}

impl Clone for TransactionEntry {
    fn clone(&self) -> (copy: Self)
        ensures
            copy@ == self@,
    {
        TransactionEntry { info: self.info.clone(), status: self.status }
    }
}

/// What the application is told.
#[derive(Debug)]
pub enum Callback {
    /// The message center took a message.
    SubmitOk(SubmitInfo),
    /// The message center refused a message.
    SubmitError(SubmitInfo, u32),
    /// The message center did not answer in time.
    SubmitTimeout(SubmitInfo),
    /// A message could not be sent.
    SendFailed { sequence_id: u32, error: String },
    /// What became of a message.
    Report(ReportInfo, SubmitInfo),
    /// A message came from a phone.
    Mo(MoInfo),
}

/// What the application is told, as a mathematical value.
#[verifier::ext_equal]
pub enum Notice {
    SubmitOk(Submission),
    SubmitError(Submission, u32),
    SubmitTimeout(Submission),
    SendFailed { sequence_id: u32, error: Seq<char> },
    Report(Report, Submission),
    Mo(Mo),
}

impl View for Callback {
    type V = Notice;

    open spec fn view(&self) -> Notice {
        match self {
            Callback::SubmitOk(info) => Notice::SubmitOk(info@),
            Callback::SubmitError(info, result) => Notice::SubmitError(info@, *result),
            Callback::SubmitTimeout(info) => Notice::SubmitTimeout(info@),
            Callback::SendFailed { sequence_id, error } => Notice::SendFailed {
                sequence_id: *sequence_id,
                error: error@,
            },
            Callback::Report(report, info) => Notice::Report(report@, info@),
            Callback::Mo(mo) => Notice::Mo(mo@),
        }
    }
}

/// What the application is told, if anything.
pub open spec fn notice_view(callback: Option<Callback>) -> Option<Notice> {
    match callback {
        Some(c) => Some(c@),
        None => None,
    }
}

} // verus!
