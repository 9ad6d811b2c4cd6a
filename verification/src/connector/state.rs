//! The states of connections: whether they are in use, who has logged in, and which requests wait
//! for responses.

use crate::connector::pool;
use crate::connector::pool::ConnectionState;
use crate::session::SessionState;
use vstd::prelude::*;

verus! {

/// The session after the connection was set up. One that is already set up stays as it is.
pub open spec fn connected(session: SessionState) -> SessionState {
    if session == SessionState::Disconnected {
        SessionState::Connected
    } else {
        session
    }
}

/// The session after a login. Nobody can log in before the connection is set up.
pub open spec fn logged_in(session: SessionState) -> SessionState {
    if session == SessionState::Connected {
        SessionState::Logined
    } else {
        session
    }
}

fn connect_session(session: SessionState) -> (after: SessionState)
    ensures
        after == connected(session),
{
    match session {
        SessionState::Disconnected => SessionState::Connected,
        other => other,
    }
}

fn login_session(session: SessionState) -> (after: SessionState)
    ensures
        after == logged_in(session),
{
    match session {
        SessionState::Connected => SessionState::Logined,
        other => other,
    }
}

/// A server's connection. Times are nanoseconds on the server's clock.
#[derive(Debug)]
pub struct Connection {
    id: u64,
    ready: bool,
    session: SessionState,
    account: Option<String>,
    version: Option<u8>,
    last_active: u128,
}

/// A server's connection as a mathematical value.
#[verifier::ext_equal]
pub struct ServerLink {
    pub id: u64,
    pub ready: bool,
    pub session: SessionState,
    pub account: Option<Seq<char>>,
    pub version: Option<u8>,
    pub last_active: u128,
}

impl View for Connection {
    type V = ServerLink;

    closed spec fn view(&self) -> ServerLink {
        ServerLink {
            id: self.id,
            ready: self.ready,
            session: self.session,
            account: match self.account {
                Some(name) => Some(name@),
                None => None,
            },
            version: self.version,
            last_active: self.last_active,
        }
    }
}

impl ServerLink {
    /// What a pool knows of the connection.
    pub open spec fn summary(self) -> ConnectionState {
        ConnectionState {
            id: self.id,
            ready: self.ready,
            session: self.session,
            last_active: self.last_active,
        }
    }
}

impl Connection {
    /// A connection that is not in use yet.
    pub fn new(id: u64, now: u128) -> (conn: Self)
        ensures
            conn@ == (ServerLink {
                id,
                ready: false,
                session: SessionState::Disconnected,
                account: None,
                version: None,
                last_active: now,
            }),
    {
        Connection {
            id,
            ready: false,
            session: SessionState::Disconnected,
            account: None,
            version: None,
            last_active: now,
        }
    }

    pub fn id(&self) -> (id: u64)
        ensures
            id == self@.id,
    {
        self.id
    }

    pub fn ready_for_fetch(&self) -> (ready: bool)
        ensures
            ready == self@.ready,
    {
        self.ready
    }

    pub fn writable(&self) -> (ready: bool)
        ensures
            ready == self@.ready,
    {
        self.ready
    }

    pub fn is_healthy(&self) -> (ready: bool)
        ensures
            ready == self@.ready,
    {
        self.ready
    }

    pub fn session_state(&self) -> (session: SessionState)
        ensures
            session == self@.session,
    {
        self.session
    }

    pub fn mark_ready(&mut self)
        ensures
            final(self)@ == (ServerLink { ready: true, ..old(self)@ }),
    {
        self.ready = true;
    }

    /// The connection was set up.
    pub fn mark_connected(&mut self)
        ensures
            final(self)@ == (ServerLink { session: connected(old(self)@.session), ..old(self)@ }),
    {
        self.session = connect_session(self.session);
    }

    /// The session is logged in. Which account the connection belongs to stays as it is.
    pub fn mark_authenticated(&mut self, _account: &str)
        ensures
            final(self)@ == (ServerLink { session: logged_in(old(self)@.session), ..old(self)@ }),
    {
        self.session = login_session(self.session);
    }

    /// Somebody has logged in, and the connection belongs to their account.
    pub fn set_authenticated_account(&mut self, account: String)
        ensures
            final(self)@ == (ServerLink {
                session: logged_in(old(self)@.session),
                account: Some(account@),
                ..old(self)@
            }),
    {
        self.session = login_session(self.session);
        self.account = Some(account);
    }

    pub fn authenticated_account(&self) -> (account: Option<String>)
        ensures
            match self@.account {
                Some(name) => account matches Some(s) && s@ == name,
                None => account is None,
            },
    {
        match &self.account {
            Some(name) => Some(name.clone()),
            None => None,
        }
    }

    pub fn protocol_version(&self) -> (version: Option<u8>)
        ensures
            version == self@.version,
    {
        self.version
    }

    pub fn set_protocol_version(&mut self, version: u8)
        ensures
            final(self)@ == (ServerLink { version: Some(version), ..old(self)@ }),
    {
        self.version = Some(version);
    }

    /// The connection is gone, or about to be closed.
    pub fn mark_disconnected(&mut self)
        ensures
            final(self)@ == (ServerLink {
                ready: false,
                session: SessionState::Disconnected,
                ..old(self)@
            }),
    {
        self.ready = false;
        self.session = SessionState::Disconnected;
    }

    /// Something went over the connection.
    pub fn touch(&mut self, now: u128)
        ensures
            final(self)@ == (ServerLink { last_active: now, ..old(self)@ }),
    {
        self.last_active = now;
    }

    pub fn last_active(&self) -> (time: u128)
        ensures
            time == self@.last_active,
    {
        self.last_active
    }

    /// How long nothing went over the connection.
    pub fn idle_nanos(&self, now: u128) -> (nanos: u128)
        ensures
            nanos == (if now > self@.last_active {
                now - self@.last_active
            } else {
                0
            }),
    {
        if now > self.last_active {
            now - self.last_active
        } else {
            0
        }
    }

    pub fn is_idle(&self, now: u128, timeout: u128) -> (yes: bool)
        ensures
            yes == (now - self@.last_active > timeout),
    {
        self.idle_nanos(now) > timeout
    }

    /// What a pool knows of the connection.
    pub fn state(&self) -> (state: ConnectionState)
        ensures
            state == self@.summary(),
    {
        ConnectionState {
            id: self.id,
            ready: self.ready,
            session: self.session,
            last_active: self.last_active,
        }
    }
}

/// Messages go over a connection from when it is set up, in use and logged in on until it is
/// gone; without being set up first, a login does not count.
pub proof fn law_usable_from_login(link: ServerLink)
    ensures
        ({
            let fresh = ServerLink { ready: false, session: SessionState::Disconnected, ..link };
            let up = ServerLink { ready: true, session: connected(fresh.session), ..fresh };
            let welcome = ServerLink { session: logged_in(up.session), ..up };
            let gone = ServerLink {
                ready: false,
                session: SessionState::Disconnected,
                ..welcome
            };
            let early = ServerLink { ready: true, session: logged_in(fresh.session), ..fresh };
            &&& !pool::usable(up.summary())
            &&& pool::usable(welcome.summary())
            &&& !pool::usable(gone.summary())
            &&& !pool::usable(early.summary())
        }),
{
}

/// A client's connection. Times are nanoseconds on the client's clock.
#[derive(Debug)]
pub struct ClientConnection {
    id: u64,
    ready: bool,
    sending: bool,
    session: SessionState,
    version: Option<u8>,
    last_active: u128,
    last_sent: u128,
    waiting: Vec<u32>,
    reports: bool,
}

/// Sequence numbers without one of them.
pub open spec fn without(waiting: Seq<u32>, sequence_id: u32) -> Seq<u32> {
    waiting.filter(|id: u32| id != sequence_id)
}

/// A client's connection as a mathematical value.
#[verifier::ext_equal]
pub struct ClientLink {
    pub id: u64,
    /// Whether it is in use.
    pub ready: bool,
    /// Whether new messages may go out.
    pub sending: bool,
    pub session: SessionState,
    pub version: Option<u8>,
    pub last_active: u128,
    pub last_sent: u128,
    /// The sequence numbers of the requests that wait for responses.
    pub waiting: Seq<u32>,
    /// Whether somebody is to be told when the connection is gone.
    pub reports: bool,
}

impl View for ClientConnection {
    type V = ClientLink;

    closed spec fn view(&self) -> ClientLink {
        ClientLink {
            id: self.id,
            ready: self.ready,
            sending: self.sending,
            session: self.session,
            version: self.version,
            last_active: self.last_active,
            last_sent: self.last_sent,
            waiting: self.waiting@,
            reports: self.reports,
        }
    }
}

impl ClientLink {
    /// With a request that waits for its response.
    pub open spec fn asked(self, sequence_id: u32) -> ClientLink {
        if self.waiting.contains(sequence_id) {
            self
        } else {
            ClientLink { waiting: self.waiting.push(sequence_id), ..self }
        }
    }

    /// Without a request: it has its response, or could not be sent.
    pub open spec fn settled(self, sequence_id: u32) -> ClientLink {
        ClientLink { waiting: without(self.waiting, sequence_id), ..self }
    }

    /// After the connection is gone.
    pub open spec fn gone(self) -> ClientLink {
        ClientLink {
            ready: false,
            session: SessionState::Disconnected,
            waiting: Seq::empty(),
            reports: false,
            ..self
        }
    }
}

/// What to do when a connection is gone.
#[derive(Debug)]
pub struct Farewell {
    /// The requests that will have no responses.
    pub failed: Vec<u32>,
    /// Whether somebody is to be told; never twice.
    pub report: bool,
}

impl ClientConnection {
    /// A connection that is not in use yet.
    pub fn new(id: u64, now: u128) -> (conn: Self)
        ensures
            conn@ == (ClientLink {
                id,
                ready: false,
                sending: true,
                session: SessionState::Disconnected,
                version: None,
                last_active: now,
                last_sent: now,
                waiting: Seq::empty(),
                reports: false,
            }),
    {
        ClientConnection {
            id,
            ready: false,
            sending: true,
            session: SessionState::Disconnected,
            version: None,
            last_active: now,
            last_sent: now,
            waiting: Vec::new(),
            reports: false,
        }
    }

    pub fn id(&self) -> (id: u64)
        ensures
            id == self@.id,
    {
        self.id
    }

    pub fn ready_for_fetch(&self) -> (ready: bool)
        ensures
            ready == self@.ready,
    {
        self.ready
    }

    pub fn is_sending(&self) -> (sending: bool)
        ensures
            sending == self@.sending,
    {
        self.sending
    }

    /// No new messages go out; responses still come in.
    pub fn stop_sending(&mut self)
        ensures
            final(self)@ == (ClientLink { sending: false, ..old(self)@ }),
    {
        self.sending = false;
    }

    pub fn session_state(&self) -> (session: SessionState)
        ensures
            session == self@.session,
    {
        self.session
    }

    pub fn protocol_version(&self) -> (version: Option<u8>)
        ensures
            version == self@.version,
    {
        self.version
    }

    pub fn set_protocol_version(&mut self, version: u8)
        ensures
            final(self)@ == (ClientLink { version: Some(version), ..old(self)@ }),
    {
        self.version = Some(version);
    }

    /// Somebody is to be told when the connection is gone.
    pub fn set_reports(&mut self)
        ensures
            final(self)@ == (ClientLink { reports: true, ..old(self)@ }),
    {
        self.reports = true;
    }

    /// The connection was set up, and is in use from now on.
    pub fn mark_connected(&mut self)
        ensures
            final(self)@ == (ClientLink {
                ready: true,
                session: connected(old(self)@.session),
                ..old(self)@
            }),
    {
        self.session = connect_session(self.session);
        self.ready = true;
    }

    /// The connection is gone: every request that waits fails at once.
    pub fn mark_disconnected(&mut self) -> (farewell: Farewell)
        ensures
            final(self)@ == old(self)@.gone(),
            farewell.failed@ == old(self)@.waiting,
            farewell.report == old(self)@.reports,
    {
        let mut failed: Vec<u32> = Vec::new();
        std::mem::swap(&mut failed, &mut self.waiting);
        let report = self.reports;
        self.ready = false;
        self.session = SessionState::Disconnected;
        self.reports = false;
        Farewell { failed, report }
    }

    /// Something came in.
    pub fn touch(&mut self, now: u128)
        ensures
            final(self)@ == (ClientLink { last_active: now, ..old(self)@ }),
    {
        self.last_active = now;
    }

    /// Something was sent.
    pub fn touch_sent(&mut self, now: u128)
        ensures
            final(self)@ == (ClientLink { last_sent: now, ..old(self)@ }),
    {
        self.last_sent = now;
    }

    pub fn last_active(&self) -> (time: u128)
        ensures
            time == self@.last_active,
    {
        self.last_active
    }

    /// How long ago something was sent.
    pub fn last_sent_elapsed(&self, now: u128) -> (nanos: u128)
        ensures
            nanos == (if now > self@.last_sent {
                now - self@.last_sent
            } else {
                0
            }),
    {
        if now > self.last_sent {
            now - self.last_sent
        } else {
            0
        }
    }

    pub fn is_idle(&self, now: u128, timeout: u128) -> (yes: bool)
        ensures
            yes == (now - self@.last_active > timeout),
    {
        now > self.last_active && now - self.last_active > timeout
    }

    /// A request waits for its response from now on.
    pub fn request_sent(&mut self, sequence_id: u32)
        ensures
            final(self)@ == old(self)@.asked(sequence_id),
    {
        if !self.is_waiting(sequence_id) {
            self.waiting.push(sequence_id);
        }
    }

    pub fn is_waiting(&self, sequence_id: u32) -> (yes: bool)
        ensures
            yes == self@.waiting.contains(sequence_id),
    {
        let mut i: usize = 0;
        while i < self.waiting.len()
            invariant
                i <= self.waiting@.len(),
                forall|j: int| 0 <= j < i ==> self.waiting@[j] != sequence_id,
            decreases self.waiting@.len() - i,
        {
            if self.waiting[i] == sequence_id {
                assert(self.waiting@.contains(sequence_id));
                return true;
            }
            i = i + 1;
        }
        false
    }

    /// The sequence numbers of the requests that wait for responses.
    pub fn waiting(&self) -> (ids: &[u32])
        ensures
            ids@ == self@.waiting,
    {
        self.waiting.as_slice()
    }

    /// A request has its response, or could not be sent; tells whether it was waiting.
    pub fn request_settled(&mut self, sequence_id: u32) -> (found: bool)
        ensures
            found == old(self)@.waiting.contains(sequence_id),
            final(self)@ == old(self)@.settled(sequence_id),
    {
        let found = self.is_waiting(sequence_id);
        let mut kept: Vec<u32> = Vec::new();
        let mut i: usize = 0;
        assert(kept@ =~= without(self.waiting@.take(0), sequence_id)) by {
            reveal(Seq::filter);
        }
        while i < self.waiting.len()
            invariant
                i <= self.waiting@.len(),
                self@ == old(self)@,
                kept@ == without(self.waiting@.take(i as int), sequence_id),
            decreases self.waiting@.len() - i,
        {
            proof {
                reveal(Seq::filter);
                assert(self.waiting@.take(i + 1).drop_last() =~= self.waiting@.take(i as int));
            }
            if self.waiting[i] != sequence_id {
                kept.push(self.waiting[i]);
            }
            i = i + 1;
        }
        assert(self.waiting@.take(i as int) =~= self.waiting@);
        self.waiting = kept;
        found
    }
}

/// A request waits until it has its response or cannot be sent, and when the connection goes it
/// is among those that fail: none is forgotten.
pub proof fn law_request_is_settled(link: ClientLink, sequence_id: u32)
    ensures
        link.asked(sequence_id).waiting.contains(sequence_id),
        !link.asked(sequence_id).settled(sequence_id).waiting.contains(sequence_id),
        !link.gone().waiting.contains(sequence_id),
        forall|other: u32|
            other != sequence_id && #[trigger] link.waiting.contains(other) ==> link.settled(
                sequence_id,
            ).waiting.contains(other),
{
    let asked = link.asked(sequence_id);
    if !link.waiting.contains(sequence_id) {
        assert(asked.waiting[link.waiting.len() as int] == sequence_id);
    }
    let other = |id: u32| id != sequence_id;
    if asked.settled(sequence_id).waiting.contains(sequence_id) {
        let kept = asked.waiting.filter(other);
        let i = choose|i: int| 0 <= i < kept.len() && kept[i] == sequence_id;
        asked.waiting.lemma_filter_pred(other, i);
    }
    assert forall|id: u32|
        id != sequence_id && #[trigger] link.waiting.contains(id) implies link.settled(
        sequence_id,
    ).waiting.contains(id) by {
        let i = choose|i: int| 0 <= i < link.waiting.len() && link.waiting[i] == id;
        link.waiting.lemma_filter_contains(other, i);
    }
}

/// A connection that stops sending still takes responses, and one that is gone is reported once.
pub proof fn law_gone_once(link: ClientLink)
    ensures
        (ClientLink { sending: false, ..link }).waiting == link.waiting,
        (ClientLink { sending: false, ..link }).ready == link.ready,
        link.gone().gone() == link.gone(),
        !link.gone().reports,
{
}

/// How a session goes on: it is set up, somebody logs in, and neither happens twice or in another
/// order.
pub proof fn law_session_order(session: SessionState)
    ensures
        session == SessionState::Disconnected ==> connected(session) == SessionState::Connected
            && logged_in(session) == SessionState::Disconnected,
        session == SessionState::Connected ==> connected(session) == SessionState::Connected
            && logged_in(session) == SessionState::Logined,
        session == SessionState::Logined ==> connected(session) == SessionState::Logined
            && logged_in(session) == SessionState::Logined,
{
}

/// What a pool knows of a connection is what the connection says of itself.
pub proof fn law_summary(conn: Connection, state: ConnectionState)
    requires
        call_ensures(Connection::state, (&conn,), state),
    ensures
        state.id == conn@.id,
        state.ready == conn@.ready,
        state.session == conn@.session,
        state.last_active == conn@.last_active,
{
}

proof fn lemma_without(waiting: Seq<u32>, sequence_id: u32, other: u32)
    ensures
        without(waiting, sequence_id).contains(other) <==> waiting.contains(other) && other
            != sequence_id,
    decreases waiting.len(),
{
    reveal(Seq::filter);
    if waiting.len() > 0 {
        let front = waiting.drop_last();
        lemma_without(front, sequence_id, other);
        assert(waiting =~= front.push(waiting.last()));
        if waiting.contains(other) {
            let i = waiting.index_of(other);
            assert(i < front.len() ==> front[i] == other);
        }
        if front.contains(other) {
            assert(waiting[front.index_of(other)] == other);
        }
        let left = without(front, sequence_id);
        let more = left.push(waiting.last());
        assert(without(waiting, sequence_id) == if waiting.last() != sequence_id {
            more
        } else {
            left
        });
        assert(more.last() == waiting.last());
        if left.contains(other) {
            assert(more[left.index_of(other)] == other);
        }
        if more.contains(other) {
            let i = more.index_of(other);
            assert(i < left.len() ==> left[i] == other);
        }
    }
}

/// Which requests wait: asking adds one and settling takes one away, once and wherever it stands,
/// and everything else about the connection stays as it is. When the connection goes, none waits,
/// it is not in use and nobody is logged in.
pub proof fn law_who_waits(link: ClientLink, sequence_id: u32, other: u32)
    ensures
        link.asked(sequence_id).waiting.contains(other) <==> link.waiting.contains(other) || other
            == sequence_id,
        link.settled(sequence_id).waiting.contains(other) <==> link.waiting.contains(other) && other
            != sequence_id,
        link.waiting.contains(sequence_id) ==> link.asked(sequence_id) == link,
        (ClientLink { waiting: link.waiting, ..link.asked(sequence_id) }) == link,
        (ClientLink { waiting: link.waiting, ..link.settled(sequence_id) }) == link,
        link.gone().waiting.len() == 0,
        !link.gone().ready,
        link.gone().session == SessionState::Disconnected,
        !link.gone().reports,
        (ClientLink {
            waiting: link.waiting,
            ready: link.ready,
            session: link.session,
            reports: link.reports,
            ..link.gone()
        }) == link,
{
    lemma_without(link.waiting, sequence_id, other);
    let asked = link.waiting.push(sequence_id);
    if link.waiting.contains(other) {
        let i = link.waiting.index_of(other);
        assert(asked[i] == other);
    }
    assert(asked.last() == sequence_id);
    if asked.contains(other) && other != sequence_id {
        let i = asked.index_of(other);
        assert(link.waiting[i] == other);
    }
}

/// How long a connection was silent: from its last traffic on, and not at all before.
pub proof fn law_silence(
    conn: Connection,
    client: ClientConnection,
    now: u128,
    timeout: u128,
    nanos: u128,
    idle: bool,
    since_sent: u128,
    client_idle: bool,
)
    requires
        call_ensures(Connection::idle_nanos, (&conn, now), nanos),
        call_ensures(Connection::is_idle, (&conn, now, timeout), idle),
        call_ensures(ClientConnection::last_sent_elapsed, (&client, now), since_sent),
        call_ensures(ClientConnection::is_idle, (&client, now, timeout), client_idle),
    ensures
        now >= conn@.last_active ==> nanos + conn@.last_active == now,
        now < conn@.last_active ==> nanos == 0,
        idle <==> now > conn@.last_active + timeout,
        now >= client@.last_sent ==> since_sent + client@.last_sent == now,
        now < client@.last_sent ==> since_sent == 0,
        client_idle <==> now > client@.last_active + timeout,
{
}

} // verus!
