//! The errors of the library and their coarse classes.

use crate::text;
use vstd::prelude::*;
use vstd::std_specs::convert::FromSpecImpl;
use vstd::string::*;

verus! {

/// `std::io::Error`, carried as it is.
#[verifier::external_type_specification]
#[verifier::external_body]
pub struct ExIoError(std::io::Error);

/// `ToString::to_string` of an I/O error: a text of which nothing is known.
#[verifier::external_body]
pub(crate) fn io_error_text(e: &std::io::Error) -> (s: String) {
    e.to_string()
}

/// What went wrong.
#[derive(Debug)]
pub enum RsmsError {
    Io(std::io::Error),
    Codec(String),
    EndpointClosed,
    NoReadyConnection,
    MaxChannels(u16),
    SyncTimeout,
    SyncClosed,
    NotImplemented(&'static str),
    Other(String),
    ConnectionClosed(String),
    RateLimited(String),
}

/// A coarse class of errors, by which a caller decides to retry, to reconnect or to give up.
#[derive(Debug, Clone, Copy, PartialEq, Eq, Structural)]
pub enum ErrorKind {
    /// More bytes are needed. The frame layer reassembles by itself, so this does not come up
    /// above it.
    Incomplete,
    /// A PDU that cannot be read. The frame is lost; retrying does not help.
    Malformed,
    /// Refused by a rate limit. Retry after a pause.
    RateLimited,
    /// A request timed out. It can be retried.
    Timeout,
    /// The connection is gone. Retry after reconnecting.
    Closed,
    /// A transport error. Usually worth retrying after reconnecting.
    Transport,
    /// Out of capacity. Retry later.
    Capacity,
    /// The endpoint is closed for good.
    Terminal,
    /// Anything else. Not retried.
    Other,
}

impl ErrorKind {
    /// The classes after which a retry can succeed.
    pub open spec fn retryable(self) -> bool {
        self == ErrorKind::RateLimited || self == ErrorKind::Timeout || self == ErrorKind::Closed
            || self == ErrorKind::Transport || self == ErrorKind::Capacity
    }
}

impl RsmsError {
    /// The class of an error.
    pub open spec fn kind_of(self) -> ErrorKind {
        match self {
            RsmsError::Io(_) => ErrorKind::Transport,
            RsmsError::Codec(_) => ErrorKind::Malformed,
            RsmsError::EndpointClosed => ErrorKind::Terminal,
            RsmsError::NoReadyConnection => ErrorKind::Capacity,
            RsmsError::MaxChannels(_) => ErrorKind::Capacity,
            RsmsError::SyncTimeout => ErrorKind::Timeout,
            RsmsError::SyncClosed => ErrorKind::Closed,
            RsmsError::NotImplemented(_) => ErrorKind::Other,
            RsmsError::Other(_) => ErrorKind::Other,
            RsmsError::ConnectionClosed(_) => ErrorKind::Closed,
            RsmsError::RateLimited(_) => ErrorKind::RateLimited,
        }
    }

    /// A codec error with this text.
    pub open spec fn is_codec(self, text: Seq<char>) -> bool {
        self matches RsmsError::Codec(s) && s@ == text
    }

    /// An unclassified error with this text.
    pub open spec fn is_other(self, text: Seq<char>) -> bool {
        self matches RsmsError::Other(s) && s@ == text
    }

    /// The text of the error, except for what std says of an I/O error.
    pub open spec fn text(self) -> Seq<char> {
        match self {
            RsmsError::Io(_) => "IO: "@,
            RsmsError::Codec(reason) => "codec: "@ + reason@,
            RsmsError::EndpointClosed => "endpoint closed"@,
            RsmsError::NoReadyConnection => "no ready connection for fetch"@,
            RsmsError::MaxChannels(count) => "max channels reached ("@ + text::decimal_chars(
                count as nat,
            ) + ")"@,
            RsmsError::SyncTimeout => "sync request timed out"@,
            RsmsError::SyncClosed => "sync response channel closed"@,
            RsmsError::NotImplemented(what) => "not implemented: "@ + what@,
            RsmsError::Other(reason) => "other: "@ + reason@,
            RsmsError::ConnectionClosed(reason) => "connection closed: "@ + reason@,
            RsmsError::RateLimited(reason) => "rate limited: "@ + reason@,
        }
    }

    /// Whether a text is the error's. What follows in the text of an I/O error is left to std.
    pub open spec fn has_text(self, s: Seq<char>) -> bool {
        if self is Io {
            self.text().is_prefix_of(s)
        } else {
            s == self.text()
        }
    }

    /// The text of the error.
    pub fn to_text(&self) -> (s: String)
        ensures
            self.has_text(s@),
    {
        match self {
            RsmsError::Io(e) => joined("IO: ", io_error_text(e).as_str()),
            RsmsError::Codec(reason) => joined("codec: ", reason.as_str()),
            RsmsError::EndpointClosed => "endpoint closed".to_owned(),
            RsmsError::NoReadyConnection => "no ready connection for fetch".to_owned(),
            RsmsError::MaxChannels(count) => {
                let mut s = joined("max channels reached (", text::decimal(*count as u64).as_str());
                s.append(")");
                s
            },
            RsmsError::SyncTimeout => "sync request timed out".to_owned(),
            RsmsError::SyncClosed => "sync response channel closed".to_owned(),
            RsmsError::NotImplemented(what) => joined("not implemented: ", what),
            RsmsError::Other(reason) => joined("other: ", reason.as_str()),
            RsmsError::ConnectionClosed(reason) => joined("connection closed: ", reason.as_str()),
            RsmsError::RateLimited(reason) => joined("rate limited: ", reason.as_str()),
        }
    }

    /// The class of this error.
    pub fn kind(&self) -> (kind: ErrorKind)
        ensures
            kind == self.kind_of(),
    {
        match self {
            RsmsError::Io(_) => ErrorKind::Transport,
            RsmsError::Codec(_) => ErrorKind::Malformed,
            RsmsError::EndpointClosed => ErrorKind::Terminal,
            RsmsError::NoReadyConnection => ErrorKind::Capacity,
            RsmsError::MaxChannels(_) => ErrorKind::Capacity,
            RsmsError::SyncTimeout => ErrorKind::Timeout,
            RsmsError::SyncClosed => ErrorKind::Closed,
            RsmsError::NotImplemented(_) => ErrorKind::Other,
            RsmsError::Other(_) => ErrorKind::Other,
            RsmsError::ConnectionClosed(_) => ErrorKind::Closed,
            RsmsError::RateLimited(_) => ErrorKind::RateLimited,
        }
    }

    /// Whether sending again, after a pause or on a new connection, can succeed.
    pub fn is_retryable(&self) -> (yes: bool)
        ensures
            yes == self.kind_of().retryable(),
    {
        match self.kind() {
            ErrorKind::RateLimited | ErrorKind::Timeout | ErrorKind::Closed | ErrorKind::Transport
            | ErrorKind::Capacity => true,
            _ => false,
        }
    }
}

/// A text behind another.
fn joined(head: &str, tail: &str) -> (s: String)
    ensures
        s@ == head@ + tail@,
{
    let mut s = head.to_owned();
    s.append(tail);
    s
}

impl From<std::io::Error> for RsmsError {
    fn from(e: std::io::Error) -> (error: Self) {
        RsmsError::Io(e)
    }
}

impl FromSpecImpl<std::io::Error> for RsmsError {
    open spec fn obeys_from_spec() -> bool {
        true
    }

    open spec fn from_spec(e: std::io::Error) -> RsmsError {
        RsmsError::Io(e)
    }
}

/// An unreadable frame, a closed endpoint, something not implemented and an unclassified error
/// are never retried; every other error is.
pub proof fn law_retryable(error: RsmsError)
    ensures
        error.kind_of().retryable() <==> !(error is Codec || error is EndpointClosed
            || error is NotImplemented || error is Other),
{
}

/// The class of each error.
pub proof fn law_kinds(e: RsmsError, kind: ErrorKind)
    requires
        call_ensures(RsmsError::kind, (&e,), kind),
    ensures
        kind is Transport <==> e is Io,
        kind is Malformed <==> e is Codec,
        kind is Terminal <==> e is EndpointClosed,
        kind is Capacity <==> e is NoReadyConnection || e is MaxChannels,
        kind is Timeout <==> e is SyncTimeout,
        kind is Closed <==> e is SyncClosed || e is ConnectionClosed,
        kind is RateLimited <==> e is RateLimited,
        kind is Other <==> e is NotImplemented || e is Other,
        kind !is Incomplete,
{
}

/// The texts of the errors.
pub proof fn law_texts(e: RsmsError)
    ensures
        e is Io ==> e.text() == "IO: "@,
        e matches RsmsError::Codec(reason) ==> e.text() == "codec: "@ + reason@,
        e is EndpointClosed ==> e.text() == "endpoint closed"@,
        e is NoReadyConnection ==> e.text() == "no ready connection for fetch"@,
        e matches RsmsError::MaxChannels(n) ==> e.text() == "max channels reached ("@
            + text::decimal_chars(n as nat) + ")"@,
        e is SyncTimeout ==> e.text() == "sync request timed out"@,
        e is SyncClosed ==> e.text() == "sync response channel closed"@,
        e matches RsmsError::NotImplemented(what) ==> e.text() == "not implemented: "@ + what@,
        e matches RsmsError::Other(reason) ==> e.text() == "other: "@ + reason@,
        e matches RsmsError::ConnectionClosed(reason) ==> e.text() == "connection closed: "@
            + reason@,
        e matches RsmsError::RateLimited(reason) ==> e.text() == "rate limited: "@ + reason@,
        forall|t: Seq<char>| #[trigger]
            e.is_codec(t) <==> (e matches RsmsError::Codec(reason) && reason@ == t),
        forall|t: Seq<char>| #[trigger]
            e.is_other(t) <==> (e matches RsmsError::Other(reason) && reason@ == t),
{
}

/// The text of an error is exactly that, and of an I/O error it comes first.
pub proof fn law_has_text(e: RsmsError, s: Seq<char>)
    ensures
        !(e is Io) ==> (e.has_text(s) <==> s == e.text()),
        e is Io ==> (e.has_text(s) <==> s.len() >= e.text().len() && s.subrange(
            0,
            e.text().len() as int,
        ) == e.text()),
{
    if s.len() >= e.text().len() {
        assert(s.subrange(0, e.text().len() as int) =~= s.take(e.text().len() as int));
    }
}

} // verus!
