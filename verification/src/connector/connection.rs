//! What a server's connection does: when it reads, who gets a frame, when it is closed and how.

use crate::connector::client;
use crate::connector::command;
use crate::connector::framing;
use crate::connector::protocol::HandleResult;
use crate::error::RsmsError;
use crate::frame;
use crate::frame::{Frame, FrameModel};
use crate::model::{ProtocolAdapter, Sequence, UnifiedMessage};
use crate::protocol::Protocol;
use crate::smpp::adapter::SmppAdapter;
use crate::smpp::datatypes::command_id::CommandId;
use crate::smpp::message::Message;
use std::collections::VecDeque;
use vstd::prelude::*;

verus! {

/// A server takes any frame that is as long as its length field.
pub const MIN_SERVER_FRAME: usize = 4;

/// The complete frames of what a client sent. Fields that a frame is too short for are 0.
pub open spec fn server_frames(stream: Seq<u8>, protocol: Protocol) -> Seq<FrameModel> {
    framing::frames_in(stream, MIN_SERVER_FRAME as int, protocol.sequence_at() as int)
}

/// What is left of what a client sent behind its complete frames.
pub open spec fn server_rest(stream: Seq<u8>) -> Seq<u8> {
    framing::rest(stream, MIN_SERVER_FRAME as int)
}

/// Takes the complete frames from the front of what a client sent.
pub fn decode_frames_drain(buf: &mut Vec<u8>, protocol: Protocol) -> (res: Result<
    Vec<Frame>,
    RsmsError,
>)
    ensures
        res matches Ok(frames) && frame::frame_views(frames@) == server_frames(old(buf)@, protocol),
        final(buf)@ == server_rest(old(buf)@),
{
    Ok(framing::cut_frames(buf, MIN_SERVER_FRAME, protocol.seq_offset()))
}

/// The PDU that closes a session, on the wire.
pub open spec fn close_bytes(protocol: Protocol) -> Seq<u8> {
    match protocol {
        Protocol::Cmpp => framing::pdu12(command::CMPP_TERMINATE, 0, Seq::empty()),
        Protocol::Smgp => framing::pdu12(command::SMGP_EXIT, 0, Seq::empty()),
        Protocol::Smpp => framing::pdu16(CommandId::UNBIND.code(), 0, 0, Seq::empty()),
        Protocol::Sgip => framing::pdu20(command::SGIP_UNBIND, Seq::empty()),
    }
}

/// The PDU that closes a session, as older peers send it: in SMGP with a reserved byte.
pub fn encode_close_packet(protocol: Protocol) -> (pdu: Option<Vec<u8>>)
    ensures
        pdu matches Some(p) && p@ == (if protocol == Protocol::Smgp {
            framing::pdu12(command::SMGP_EXIT, 0, seq![0u8])
        } else {
            close_bytes(protocol)
        }),
{
    Some(
        match protocol {
            Protocol::Cmpp => framing::encode_pdu12(command::CMPP_TERMINATE, 0, &[]),
            Protocol::Smgp => {
                assert([0u8]@ =~= seq![0u8]);
                framing::encode_pdu12(command::SMGP_EXIT, 0, &[0u8])
            },
            Protocol::Smpp => framing::encode_pdu16(CommandId::UNBIND.as_u32(), 0, 0, &[]),
            Protocol::Sgip => framing::encode_pdu20(command::SGIP_UNBIND, &[]),
        },
    )
}

/// The PDU that closes a session. In SMGP it has no body.
pub fn close_packet(protocol: Protocol) -> (pdu: Option<Vec<u8>>)
    ensures
        pdu matches Some(p) && p@ == close_bytes(protocol),
{
    match protocol {
        Protocol::Smgp => Some(framing::encode_pdu12(command::SMGP_EXIT, 0, &[])),
        Protocol::Smpp => {
            match SmppAdapter.encode(&UnifiedMessage::Unbind, Sequence::Plain(0)) {
                Ok(pdu) => {
                    proof {
                        law_smpp_close_is_unbind();
                    }
                    Some(pdu)
                },
                Err(_) => encode_close_packet(protocol),
            }
        },
        _ => encode_close_packet(protocol),
    }
}

/// SMPP's PDU that closes a session is what an unbind request is on the wire.
pub proof fn law_smpp_close_is_unbind()
    ensures
        Message::Unbind.bytes(0) == close_bytes(Protocol::Smpp),
{
    assert(Message::Unbind.bytes(0) =~= close_bytes(Protocol::Smpp));
}

/// Every PDU that closes a session is a frame of its protocol, and a client that gets it closes.
pub proof fn law_close_is_understood(protocol: Protocol)
    ensures
        framing::well_formed(close_bytes(protocol), protocol.header_size() as int),
        command::closes(framing::field_or_zero(close_bytes(protocol), 4)),
{
    framing::law_pdu12_is_frame(command::CMPP_TERMINATE, 0, Seq::empty());
    framing::law_pdu12_is_frame(command::SMGP_EXIT, 0, Seq::empty());
    framing::law_pdu16_is_frame(CommandId::UNBIND.code(), 0, 0, Seq::empty());
    framing::law_pdu20_is_frame(command::SGIP_UNBIND, Seq::empty());
    assert(framing::field_or_zero(close_bytes(protocol), 4) == command::close_command(protocol));
}

/// What happened to a server's connection.
#[derive(Debug)]
pub enum ServerEvent {
    /// The connection was set up.
    Opened,
    /// Bytes came in.
    Data(Vec<u8>),
    /// The client closed the connection.
    Closed,
    /// Reading failed.
    Failed,
    /// Nothing came in for a while; the connection has been idle for that many nanoseconds.
    TimedOut { idle_nanos: u128 },
    /// The protocol's handler dealt with the frame.
    Handled(HandleResult),
    /// The protocol's handler failed.
    HandlerFailed,
    /// The business handlers dealt with the frame.
    ChainDone,
    /// The connection has joined its account's connections, or cannot yet.
    Registered,
}

/// What a server's connection does next.
#[derive(Debug)]
pub enum ServerAction {
    /// Read from the client.
    Read,
    /// Hand a frame to the protocol's handler.
    Handle(Frame),
    /// Hand the same frame to the business handlers.
    RunChain,
    /// Let the connection join its account's connections, if it has not yet.
    Register,
    /// Send these bytes, if there are any, and end.
    Stop { farewell: Option<Vec<u8>> },
}

/// What a server's connection does next, as a mathematical value.
#[verifier::ext_equal]
pub enum ServerStep {
    Read,
    Handle(FrameModel),
    RunChain,
    Register,
    Stop { farewell: Option<Seq<u8>> },
}

impl View for ServerAction {
    type V = ServerStep;

    open spec fn view(&self) -> ServerStep {
        match self {
            ServerAction::Read => ServerStep::Read,
            ServerAction::Handle(frame) => ServerStep::Handle(frame@),
            ServerAction::RunChain => ServerStep::RunChain,
            ServerAction::Register => ServerStep::Register,
            ServerAction::Stop { farewell } => ServerStep::Stop {
                farewell: match farewell {
                    Some(bytes) => Some(bytes@),
                    None => None,
                },
            },
        }
    }
}

/// A server's connection: the bytes of the next frame, and the frames that wait for the
/// handlers.
#[derive(Debug)]
pub struct ServerLoop {
    pub protocol: Protocol,
    pub idle_time_sec: u16,
    pub buffer: Vec<u8>,
    pub queue: VecDeque<Frame>,
}

/// A server's connection as a mathematical value.
#[verifier::ext_equal]
pub struct ServerState {
    pub protocol: Protocol,
    pub idle_time_sec: u16,
    pub buffer: Seq<u8>,
    pub queue: Seq<FrameModel>,
}

impl View for ServerLoop {
    type V = ServerState;

    open spec fn view(&self) -> ServerState {
        ServerState {
            protocol: self.protocol,
            idle_time_sec: self.idle_time_sec,
            buffer: self.buffer@,
            queue: frame::frame_views(self.queue@),
        }
    }
}

impl ServerState {
    /// The next frame, or the next read once there is none; a server that shuts down does not
    /// read any more.
    pub open spec fn next_frame(self, shutdown: bool) -> (ServerState, ServerStep) {
        if self.queue.len() > 0 {
            (ServerState { queue: self.queue.skip(1), ..self }, ServerStep::Handle(self.queue[0]))
        } else if shutdown {
            (self, ServerStep::Stop { farewell: None })
        } else {
            (self, ServerStep::Read)
        }
    }

    /// With the frames that more bytes complete.
    pub open spec fn receive(self, data: Seq<u8>) -> ServerState {
        ServerState {
            buffer: server_rest(self.buffer + data),
            queue: self.queue + server_frames(self.buffer + data, self.protocol),
            ..self
        }
    }

    /// What follows an event. The business handlers only get frames that the protocol's handler
    /// lets through, and a frame that makes it fail is dropped.
    pub open spec fn next(self, event: ServerEvent, shutdown: bool) -> (ServerState, ServerStep) {
        match event {
            ServerEvent::Opened | ServerEvent::Registered | ServerEvent::HandlerFailed =>
                self.next_frame(shutdown),
            ServerEvent::Data(data) => self.receive(data@).next_frame(shutdown),
            ServerEvent::Closed | ServerEvent::Failed => (
                self,
                ServerStep::Stop { farewell: None },
            ),
            ServerEvent::TimedOut { idle_nanos } => if idle_nanos > self.idle_time_sec
                * 1_000_000_000 {
                (self, ServerStep::Stop { farewell: Some(close_bytes(self.protocol)) })
            } else {
                self.next_frame(shutdown)
            },
            ServerEvent::Handled(HandleResult::Continue) => (self, ServerStep::RunChain),
            ServerEvent::Handled(HandleResult::Stop) | ServerEvent::ChainDone => (
                self,
                ServerStep::Register,
            ),
        }
    }
}

impl ServerLoop {
    /// A connection on which nothing has come in.
    pub fn new(protocol: Protocol, idle_time_sec: u16) -> (server: Self)
        ensures
            server@ == (ServerState {
                protocol,
                idle_time_sec,
                buffer: Seq::empty(),
                queue: Seq::empty(),
            }),
    {
        let server = ServerLoop {
            protocol,
            idle_time_sec,
            buffer: Vec::new(),
            queue: VecDeque::new(),
        };
        assert(frame::frame_views(server.queue@) =~= Seq::empty());
        server
    }

    /// Milliseconds that a read may take before the connection looks at whether it is idle or
    /// the server shuts down.
    pub fn poll_ms(&self) -> (ms: u64)
        ensures
            ms == client::check_ms(self.idle_time_sec as u32),
    {
        client::check_interval_ms(self.idle_time_sec as u32)
    }

    fn next_frame(&mut self, shutdown: bool) -> (action: ServerAction)
        ensures
            (final(self)@, action@) == old(self)@.next_frame(shutdown),
    {
        let ghost before = self.queue@;
        match self.queue.pop_front() {
            Some(frame) => {
                assert(frame::frame_views(self.queue@) =~= frame::frame_views(before).skip(1));
                ServerAction::Handle(frame)
            },
            None => {
                assert(frame::frame_views(self.queue@) =~= frame::frame_views(before));
                if shutdown {
                    ServerAction::Stop { farewell: None }
                } else {
                    ServerAction::Read
                }
            },
        }
    }

    fn receive(&mut self, data: &[u8])
        ensures
            final(self)@ == old(self)@.receive(data@),
    {
        self.buffer.extend_from_slice(data);
        assert(self.buffer@ =~= old(self).buffer@ + data@);
        let ghost before = self.queue@;
        let frames = framing::cut_frames(
            &mut self.buffer,
            MIN_SERVER_FRAME,
            self.protocol.seq_offset(),
        );
        let mut i: usize = 0;
        assert(frame::frame_views(before) + frame::frame_views(frames@).take(0)
            =~= frame::frame_views(before));
        while i < frames.len()
            invariant
                i <= frames@.len(),
                self.protocol == old(self).protocol,
                self.idle_time_sec == old(self).idle_time_sec,
                self.buffer@ == server_rest(old(self).buffer@ + data@),
                frame::frame_views(self.queue@) == frame::frame_views(before)
                    + frame::frame_views(frames@).take(i as int),
            decreases frames@.len() - i,
        {
            let ghost so_far = frame::frame_views(self.queue@);
            self.queue.push_back(frames[i].clone());
            assert(frame::frame_views(self.queue@) =~= so_far.push(frames@[i as int]@));
            assert(frame::frame_views(frames@).take(i + 1) =~= frame::frame_views(frames@).take(
                i as int,
            ).push(frames@[i as int]@));
            assert(frame::frame_views(self.queue@) =~= frame::frame_views(before)
                + frame::frame_views(frames@).take(i + 1));
            i = i + 1;
        }
        assert(frame::frame_views(frames@).take(i as int) =~= frame::frame_views(frames@));
    }

    /// What to do after an event; `shutdown` tells whether the server shuts down.
    pub fn next(&mut self, event: ServerEvent, shutdown: bool) -> (action: ServerAction)
        ensures
            (final(self)@, action@) == old(self)@.next(event, shutdown),
    {
        match event {
            ServerEvent::Opened | ServerEvent::Registered | ServerEvent::HandlerFailed =>
                self.next_frame(shutdown),
            ServerEvent::Data(data) => {
                self.receive(data.as_slice());
                self.next_frame(shutdown)
            },
            ServerEvent::Closed | ServerEvent::Failed => ServerAction::Stop { farewell: None },
            ServerEvent::TimedOut { idle_nanos } => {
                if idle_nanos > self.idle_time_sec as u128 * 1_000_000_000 {
                    ServerAction::Stop { farewell: close_packet(self.protocol) }
                } else {
                    self.next_frame(shutdown)
                }
            },
            ServerEvent::Handled(HandleResult::Continue) => ServerAction::RunChain,
            ServerEvent::Handled(HandleResult::Stop) | ServerEvent::ChainDone =>
                ServerAction::Register,
        }
    }
}

/// What a connection does about its account.
#[derive(Debug)]
pub enum Registration {
    /// Nothing: it has joined its account's connections, or there are no accounts.
    Keep,
    /// Nothing yet: nobody has logged in.
    Unauthenticated,
    /// It joins this account's connections.
    Join(String),
}

/// What a connection does about its account, after a frame. It joins once, and only when
/// somebody has logged in.
pub fn registration(registered: bool, has_pool: bool, account: Option<String>) -> (step:
    Registration)
    ensures
        if registered || !has_pool {
            step is Keep
        } else {
            match account {
                Some(name) => step == Registration::Join(name),
                None => step is Unauthenticated,
            }
        },
{
    if registered || !has_pool {
        return Registration::Keep;
    }
    match account {
        Some(name) => Registration::Join(name),
        None => Registration::Unauthenticated,
    }
}

/// The state after the bytes came in one piece after the other.
pub open spec fn received(state: ServerState, pieces: Seq<Seq<u8>>) -> ServerState
    decreases pieces.len(),
{
    if pieces.len() == 0 {
        state
    } else {
        received(state, pieces.drop_last()).receive(pieces.last())
    }
}

/// Pieces one behind the other.
pub open spec fn glued(pieces: Seq<Seq<u8>>) -> Seq<u8>
    decreases pieces.len(),
{
    if pieces.len() == 0 {
        Seq::empty()
    } else {
        glued(pieces.drop_last()) + pieces.last()
    }
}

/// However the network cuts what a client sends, the handlers get the same frames in the same
/// order, and the same bytes wait for the rest of their frame.
pub proof fn law_cutting_does_not_matter(state: ServerState, pieces: Seq<Seq<u8>>)
    requires
        pieces.len() > 0,
    ensures
        received(state, pieces) == state.receive(glued(pieces)),
    decreases pieces.len(),
{
    let last = pieces.last();
    let front = pieces.drop_last();
    if front.len() == 0 {
        assert(glued(pieces) =~= last);
        assert(received(state, pieces) == state.receive(last));
    } else {
        law_cutting_does_not_matter(state, front);
        let sent = state.buffer + glued(front);
        let min = MIN_SERVER_FRAME as int;
        framing::law_pieces(sent, last, min);
        assert(sent + last =~= state.buffer + glued(pieces));
        let f = |data: Seq<u8>| framing::framed(data, state.protocol.sequence_at() as int);
        assert(framing::cut(sent + last, min).map_values(f) =~= framing::cut(sent, min).map_values(f)
            + framing::cut(framing::rest(sent, min) + last, min).map_values(f));
        assert(received(state, pieces).queue =~= state.receive(glued(pieces)).queue);
    }
}

/// The business handlers get a frame only behind the protocol's handler, and only when that lets
/// it through.
pub proof fn law_chain_only_after_continue(state: ServerState, event: ServerEvent, shutdown: bool)
    ensures
        state.next(event, shutdown).1 is RunChain <==> event == ServerEvent::Handled(
            HandleResult::Continue,
        ),
{
}

/// A server that shuts down reads no more, and one that does not reads on.
pub proof fn law_shutdown_stops_reading(state: ServerState, event: ServerEvent)
    ensures
        !(state.next(event, true).1 is Read),
        state.next(event, false).1 matches ServerStep::Stop { farewell } ==> event is Closed
            || event is Failed || farewell is Some,
{
}

/// Only a connection that has been idle for longer than it may gets a farewell.
pub proof fn law_farewell_only_when_idle(state: ServerState, event: ServerEvent, shutdown: bool)
    ensures
        state.next(event, shutdown).1 matches ServerStep::Stop { farewell: Some(bytes) } ==> (
        event matches ServerEvent::TimedOut { idle_nanos } && idle_nanos > state.idle_time_sec
            * 1_000_000_000) && bytes == close_bytes(state.protocol),
{
}

/// The PDU that closes a session, byte by byte.
pub open spec fn goodbye(protocol: Protocol) -> Seq<u8> {
    match protocol {
        Protocol::Cmpp => seq![0u8, 0u8, 0u8, 12u8, 0u8, 0u8, 0u8, 2u8, 0u8, 0u8, 0u8, 0u8],
        Protocol::Smgp => seq![0u8, 0u8, 0u8, 12u8, 0u8, 0u8, 0u8, 6u8, 0u8, 0u8, 0u8, 0u8],
        Protocol::Smpp => seq![
            0u8, 0u8, 0u8, 16u8, 0u8, 0u8, 0u8, 6u8, 0u8, 0u8, 0u8, 0u8, 0u8, 0u8, 0u8, 0u8,
        ],
        Protocol::Sgip => seq![
            0u8, 0u8, 0u8, 20u8, 0u8, 0u8, 0u8, 2u8, 0u8, 0u8, 0u8, 0u8, 0u8, 0u8, 0u8, 0u8,
            0u8, 0u8, 0u8, 0u8,
        ],
    }
}

/// What closes a session is a header with the command for it and nothing else.
pub proof fn law_close_by_bytes(protocol: Protocol, pdu: Option<Vec<u8>>)
    requires
        call_ensures(close_packet, (protocol,), pdu),
    ensures
        pdu matches Some(p) && p@ == match protocol {
            Protocol::Cmpp => seq![0u8, 0u8, 0u8, 12u8, 0u8, 0u8, 0u8, 2u8, 0u8, 0u8, 0u8, 0u8],
            Protocol::Smgp => seq![0u8, 0u8, 0u8, 12u8, 0u8, 0u8, 0u8, 6u8, 0u8, 0u8, 0u8, 0u8],
            Protocol::Smpp => seq![
                0u8, 0u8, 0u8, 16u8, 0u8, 0u8, 0u8, 6u8, 0u8, 0u8, 0u8, 0u8, 0u8, 0u8, 0u8, 0u8,
            ],
            Protocol::Sgip => seq![
                0u8, 0u8, 0u8, 20u8, 0u8, 0u8, 0u8, 2u8, 0u8, 0u8, 0u8, 0u8, 0u8, 0u8, 0u8, 0u8,
                0u8, 0u8, 0u8, 0u8,
            ],
        },
        close_bytes(protocol) == goodbye(protocol),
{
    assert(close_bytes(protocol) =~= goodbye(protocol));
}

/// Frames that come in are queued behind those that wait, in the order in which the client sent
/// them. A server takes any frame of at least four bytes.
pub proof fn law_data_is_queued(before: ServerState, data: Vec<u8>, shutdown: bool)
    ensures
        ({
            let stream = before.buffer + data@;
            let at: int = if before.protocol == Protocol::Cmpp || before.protocol
                == Protocol::Smgp {
                8
            } else {
                12
            };
            let queue = before.queue + framing::frames_in(stream, 4, at);
            let (after, step) = before.next(ServerEvent::Data(data), shutdown);
            &&& after.buffer == framing::rest(stream, 4)
            &&& after.protocol == before.protocol
            &&& after.idle_time_sec == before.idle_time_sec
            &&& queue.len() > 0 ==> step == ServerStep::Handle(queue[0]) && after.queue
                == queue.subrange(1, queue.len() as int)
            &&& queue.len() == 0 ==> after.queue.len() == 0
            &&& queue.len() == 0 && !shutdown ==> step is Read
            &&& queue.len() == 0 && shutdown ==> step == (ServerStep::Stop { farewell: None })
        }),
{
    let stream = before.buffer + data@;
    let at: int = if before.protocol == Protocol::Cmpp || before.protocol == Protocol::Smgp {
        8
    } else {
        12
    };
    let queue = before.queue + framing::frames_in(stream, 4, at);
    assert(queue == before.receive(data@).queue);
    if queue.len() > 0 {
        assert(queue.skip(1) =~= queue.subrange(1, queue.len() as int));
    }
}

/// What a server's connection does after each other event, on the values that a caller sees.
pub proof fn law_server_steps(
    before: ServerState,
    event: ServerEvent,
    shutdown: bool,
    after: ServerState,
    action: ServerAction,
)
    requires
        (after, action@) == before.next(event, shutdown),
        !(event is Data),
    ensures
        after.buffer == before.buffer,
        after.protocol == before.protocol,
        after.idle_time_sec == before.idle_time_sec,
        match event {
            ServerEvent::Handled(HandleResult::Continue) => action is RunChain && after == before,
            ServerEvent::Handled(HandleResult::Stop) => action is Register && after == before,
            ServerEvent::ChainDone => action is Register && after == before,
            ServerEvent::Closed => (action matches ServerAction::Stop { farewell } && farewell
                is None) && after == before,
            ServerEvent::Failed => (action matches ServerAction::Stop { farewell } && farewell
                is None) && after == before,
            _ => if event matches ServerEvent::TimedOut { idle_nanos } && idle_nanos
                > before.idle_time_sec * 1_000_000_000 {
                after == before && (action matches ServerAction::Stop { farewell: Some(bytes) }
                    && bytes@ == goodbye(before.protocol))
            } else if before.queue.len() > 0 {
                (action matches ServerAction::Handle(frame) && frame.data@ == before.queue[0].data
                    && frame.command_id == before.queue[0].command_id && frame.sequence_id
                    == before.queue[0].sequence_id) && after.queue == before.queue.subrange(
                    1,
                    before.queue.len() as int,
                )
            } else if shutdown {
                after == before && (action matches ServerAction::Stop { farewell } && farewell
                    is None)
            } else {
                after == before && action is Read
            },
        },
{
    assert(close_bytes(before.protocol) =~= goodbye(before.protocol));
    if before.queue.len() > 0 {
        assert(before.queue.skip(1) =~= before.queue.subrange(1, before.queue.len() as int));
    }
}

/// A connection joins the account that is logged in, once, and only where there are accounts.
pub proof fn law_joins_once(
    registered: bool,
    has_pool: bool,
    account: Option<String>,
    step: Registration,
)
    requires
        call_ensures(registration, (registered, has_pool, account), step),
    ensures
        step is Join <==> !registered && has_pool && account is Some,
        step matches Registration::Join(name) ==> Some(name) == account,
        step is Unauthenticated <==> !registered && has_pool && account is None,
{
}

} // verus!
