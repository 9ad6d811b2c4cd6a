//! What a client's connection does: when it reads, what it makes of a frame, when it sends a
//! sign of life and what it sends at all.

use crate::clock;
use crate::connector::command;
use crate::connector::framing;
use crate::connector::protocol;
use crate::connector::protocol::{batch, FrameDecoder, MessageItem};
use crate::encoded_pdu::RawPdu;
use crate::endpoint::EndpointConfig;
use crate::error::RsmsError;
use crate::frame;
use crate::frame::{Frame, FrameModel};
use crate::model::{ProtocolAdapter, Sequence, UnifiedMessage};
use crate::protocol::Protocol;
use crate::smpp::adapter::SmppAdapter;
use crate::smpp::datatypes::command_id::CommandId;
use crate::smpp::message::Message;
use crate::text;
use crate::wire;
use std::collections::VecDeque;
use vstd::prelude::*;
use vstd::string::*;

verus! {

/// The outcome of taking the frames from the front of a stream: never an error.
pub open spec fn took_frames(
    res: Result<Vec<Frame>, RsmsError>,
    before: Seq<u8>,
    after: Seq<u8>,
    protocol: Protocol,
) -> bool {
    &&& res matches Ok(frames) && frame::frame_views(frames@) == framing::frames_in(
        before,
        protocol.header_size() as int,
        protocol.sequence_at() as int,
    )
    &&& after == framing::rest(before, protocol.header_size() as int)
}

/// Cuts CMPP frames, with their headers of 12 bytes.
pub struct CmppDecoder;

impl FrameDecoder for CmppDecoder {
    open spec fn takes(
        &self,
        res: Result<Vec<Frame>, RsmsError>,
        before: Seq<u8>,
        after: Seq<u8>,
    ) -> bool {
        took_frames(res, before, after, Protocol::Cmpp)
    }

    fn decode_frames(&self, buf: &mut Vec<u8>) -> Result<Vec<Frame>, RsmsError> {
        Ok(framing::cut_frames(buf, 12, 8))
    }
}

/// Cuts SGIP frames, with their headers of 20 bytes.
pub struct SgipDecoder;

impl FrameDecoder for SgipDecoder {
    open spec fn takes(
        &self,
        res: Result<Vec<Frame>, RsmsError>,
        before: Seq<u8>,
        after: Seq<u8>,
    ) -> bool {
        took_frames(res, before, after, Protocol::Sgip)
    }

    fn decode_frames(&self, buf: &mut Vec<u8>) -> Result<Vec<Frame>, RsmsError> {
        Ok(framing::cut_frames(buf, 20, 12))
    }
}

/// Cuts SMGP frames, with their headers of 12 bytes.
pub struct SmgpDecoder;

impl FrameDecoder for SmgpDecoder {
    open spec fn takes(
        &self,
        res: Result<Vec<Frame>, RsmsError>,
        before: Seq<u8>,
        after: Seq<u8>,
    ) -> bool {
        took_frames(res, before, after, Protocol::Smgp)
    }

    fn decode_frames(&self, buf: &mut Vec<u8>) -> Result<Vec<Frame>, RsmsError> {
        Ok(framing::cut_frames(buf, 12, 8))
    }
}

/// Cuts SMPP frames, with their headers of 16 bytes.
pub struct SmppDecoder;

impl FrameDecoder for SmppDecoder {
    open spec fn takes(
        &self,
        res: Result<Vec<Frame>, RsmsError>,
        before: Seq<u8>,
        after: Seq<u8>,
    ) -> bool {
        took_frames(res, before, after, Protocol::Smpp)
    }

    fn decode_frames(&self, buf: &mut Vec<u8>) -> Result<Vec<Frame>, RsmsError> {
        Ok(framing::cut_frames(buf, 16, 12))
    }
}

/// What a connection tells its pool.
#[derive(Debug, Clone, Copy, PartialEq, Eq, Structural)]
pub enum ConnectionEvent {
    Disconnected(u64),
    HeartbeatTimeout(u64),
}

impl ConnectionEvent {
    pub fn disconnected(id: u64) -> (event: Self)
        ensures
            event == ConnectionEvent::Disconnected(id),
    {
        ConnectionEvent::Disconnected(id)
    }

    pub fn heartbeat_timeout(id: u64) -> (event: Self)
        ensures
            event == ConnectionEvent::HeartbeatTimeout(id),
    {
        ConnectionEvent::HeartbeatTimeout(id)
    }
}

/// What a client may do.
#[derive(Debug, Clone, Copy, PartialEq, Eq, Structural)]
pub struct ClientConfig {
    pub can_submit: bool,
    pub window_size_ms: u64,
}

impl Default for ClientConfig {
    fn default() -> (config: Self)
        ensures
            config == (ClientConfig { can_submit: true, window_size_ms: 1000 }),
    {
        ClientConfig { can_submit: true, window_size_ms: 1000 }
    }
}

impl ClientConfig {
    pub fn new() -> (config: Self)
        ensures
            config == (ClientConfig { can_submit: true, window_size_ms: 1000 }),
    {
        ClientConfig { can_submit: true, window_size_ms: 1000 }
    }

    pub fn with_can_submit(self, can_submit: bool) -> (config: Self)
        ensures
            config == (ClientConfig { can_submit, ..self }),
    {
        ClientConfig { can_submit, ..self }
    }

    pub fn with_window_size_ms(self, window_size_ms: u64) -> (config: Self)
        ensures
            config == (ClientConfig { window_size_ms, ..self }),
    {
        ClientConfig { window_size_ms, ..self }
    }
}

/// What happened to a client's read loop.
#[derive(Debug)]
pub enum ClientEvent {
    /// Bytes came in.
    Data(Vec<u8>),
    /// The peer closed the connection.
    Closed,
    /// Reading failed.
    Failed,
    /// Nothing came in for a while; `ready` tells whether the connection is still in use.
    TimedOut { ready: bool },
    /// The decoder took these frames from the buffer.
    Decoded(Vec<Frame>),
    /// The decoder refused the buffer.
    Undecodable,
    /// The frame was dealt with.
    Handled,
}

/// What a client's read loop does next.
#[derive(Debug)]
pub enum ClientAction {
    /// Read from the peer.
    Read,
    /// Let the decoder take frames from the buffer.
    Decode,
    /// Deal with a frame: answer the request that waits for it, tell the transactions of it,
    /// and hand it to the handler.
    Handle(Frame),
    /// Note a frame that closes the session, and end.
    Close(Frame),
    /// End; `decode_error` tells whether it is because of a buffer that cannot be read.
    Stop { decode_error: bool },
}

/// What a client's read loop does next, as a mathematical value.
#[verifier::ext_equal]
pub enum ClientStep {
    Read,
    Decode,
    Handle(FrameModel),
    Close(FrameModel),
    Stop { decode_error: bool },
}

impl View for ClientAction {
    type V = ClientStep;

    open spec fn view(&self) -> ClientStep {
        match self {
            ClientAction::Read => ClientStep::Read,
            ClientAction::Decode => ClientStep::Decode,
            ClientAction::Handle(frame) => ClientStep::Handle(frame@),
            ClientAction::Close(frame) => ClientStep::Close(frame@),
            ClientAction::Stop { decode_error } => ClientStep::Stop {
                decode_error: *decode_error,
            },
        }
    }
}

/// A client's read loop: the bytes of the next frame, and the frames that wait to be dealt
/// with.
#[derive(Debug)]
pub struct ClientLoop {
    /// The bytes that have come in and that the decoder has not taken.
    pub buffer: Vec<u8>,
    /// The frames that wait to be dealt with.
    pub queue: VecDeque<Frame>,
}

/// A client's read loop as a mathematical value.
#[verifier::ext_equal]
pub struct ClientState {
    pub buffer: Seq<u8>,
    pub queue: Seq<FrameModel>,
}

impl View for ClientLoop {
    type V = ClientState;

    open spec fn view(&self) -> ClientState {
        ClientState { buffer: self.buffer@, queue: frame::frame_views(self.queue@) }
    }
}

impl ClientState {
    /// What becomes of the first of the frames that wait: one that closes the session ends the
    /// loop, and the frames behind it are dropped.
    pub open spec fn next_frame(self) -> (ClientState, ClientStep) {
        if self.queue.len() == 0 {
            (self, ClientStep::Read)
        } else if command::closes(self.queue[0].command_id) {
            (
                ClientState { buffer: self.buffer, queue: Seq::empty() },
                ClientStep::Close(self.queue[0]),
            )
        } else {
            (
                ClientState { buffer: self.buffer, queue: self.queue.skip(1) },
                ClientStep::Handle(self.queue[0]),
            )
        }
    }

    /// What follows an event.
    pub open spec fn next(self, event: ClientEvent) -> (ClientState, ClientStep) {
        match event {
            ClientEvent::Data(data) => (
                ClientState { buffer: self.buffer + data@, queue: self.queue },
                ClientStep::Decode,
            ),
            ClientEvent::Closed | ClientEvent::Failed => (
                self,
                ClientStep::Stop { decode_error: false },
            ),
            ClientEvent::TimedOut { ready } => (
                self,
                if ready {
                    ClientStep::Read
                } else {
                    ClientStep::Stop { decode_error: false }
                },
            ),
            ClientEvent::Decoded(frames) => ClientState {
                buffer: self.buffer,
                queue: self.queue + frame::frame_views(frames@),
            }.next_frame(),
            ClientEvent::Undecodable => (self, ClientStep::Stop { decode_error: true }),
            ClientEvent::Handled => self.next_frame(),
        }
    }
}

impl ClientLoop {
    /// Nothing has come in.
    pub fn new() -> (reader: Self)
        ensures
            reader@ == (ClientState { buffer: Seq::empty(), queue: Seq::empty() }),
    {
        let reader = ClientLoop { buffer: Vec::new(), queue: VecDeque::new() };
        assert(frame::frame_views(reader.queue@) =~= Seq::empty());
        reader
    }

    fn next_frame(&mut self) -> (action: ClientAction)
        ensures
            (final(self)@, action@) == old(self)@.next_frame(),
    {
        let ghost before = self.queue@;
        match self.queue.pop_front() {
            None => {
                assert(frame::frame_views(self.queue@) =~= frame::frame_views(before));
                ClientAction::Read
            },
            Some(frame) => {
                assert(frame::frame_views(self.queue@) =~= frame::frame_views(before).skip(1));
                if command::is_close(frame.command_id) {
                    self.queue = VecDeque::new();
                    assert(frame::frame_views(self.queue@) =~= Seq::empty());
                    ClientAction::Close(frame)
                } else {
                    ClientAction::Handle(frame)
                }
            },
        }
    }

    /// What to do after an event.
    pub fn next(&mut self, event: ClientEvent) -> (action: ClientAction)
        ensures
            (final(self)@, action@) == old(self)@.next(event),
    {
        match event {
            ClientEvent::Data(data) => {
                self.buffer.extend_from_slice(data.as_slice());
                ClientAction::Decode
            },
            ClientEvent::Closed | ClientEvent::Failed => ClientAction::Stop {
                decode_error: false,
            },
            ClientEvent::TimedOut { ready } => if ready {
                ClientAction::Read
            } else {
                ClientAction::Stop { decode_error: false }
            },
            ClientEvent::Decoded(frames) => {
                let ghost before = self.queue@;
                let mut i: usize = 0;
                assert(frame::frame_views(frames@).take(0) =~= Seq::empty());
                assert(frame::frame_views(before) + frame::frame_views(frames@).take(0)
                    =~= frame::frame_views(before));
                while i < frames.len()
                    invariant
                        i <= frames@.len(),
                        self.buffer@ == old(self).buffer@,
                        frame::frame_views(self.queue@) == frame::frame_views(before)
                            + frame::frame_views(frames@).take(i as int),
                    decreases frames@.len() - i,
                {
                    let ghost so_far = frame::frame_views(self.queue@);
                    self.queue.push_back(frames[i].clone());
                    assert(frame::frame_views(self.queue@) =~= so_far.push(frames@[i as int]@));
                    assert(frame::frame_views(frames@).take(i + 1) =~= frame::frame_views(
                        frames@,
                    ).take(i as int).push(frames@[i as int]@));
                    assert(frame::frame_views(self.queue@) =~= frame::frame_views(before)
                        + frame::frame_views(frames@).take(i + 1));
                    i = i + 1;
                }
                assert(frame::frame_views(frames@).take(i as int) =~= frame::frame_views(frames@));
                self.next_frame()
            },
            ClientEvent::Undecodable => ClientAction::Stop { decode_error: true },
            ClientEvent::Handled => self.next_frame(),
        }
    }
}

/// How many of the waiting frames are dealt with before one closes the session.
pub open spec fn handled_count(queue: Seq<FrameModel>) -> nat
    decreases queue.len(),
{
    if queue.len() == 0 || command::closes(queue[0].command_id) {
        0
    } else {
        1 + handled_count(queue.skip(1))
    }
}

/// The state after `n` frames have been dealt with.
pub open spec fn after_handling(state: ClientState, n: nat) -> (ClientState, ClientStep)
    decreases n,
{
    if n == 0 {
        state.next_frame()
    } else {
        after_handling(state, (n - 1) as nat).0.next(ClientEvent::Handled)
    }
}

/// Frames are dealt with in the order in which they came in, up to the first that closes the
/// session; that one ends the loop, and without one the loop reads on.
pub proof fn law_frames_in_order(state: ClientState, n: nat)
    requires
        n <= handled_count(state.queue),
    ensures
        handled_count(state.queue) <= state.queue.len(),
        n < handled_count(state.queue) ==> after_handling(state, n).1 == ClientStep::Handle(
            state.queue[n as int],
        ),
        n == handled_count(state.queue) && n < state.queue.len() ==> after_handling(state, n).1
            == ClientStep::Close(state.queue[n as int]),
        n == handled_count(state.queue) && n == state.queue.len() ==> after_handling(state, n).1
            == ClientStep::Read,
{
    lemma_handled_count(state.queue);
    lemma_after_handling(state, n);
}

proof fn lemma_handled_count(queue: Seq<FrameModel>)
    ensures
        handled_count(queue) <= queue.len(),
        forall|i: int|
            0 <= i < handled_count(queue) ==> !command::closes(#[trigger] queue[i].command_id),
        handled_count(queue) < queue.len() ==> command::closes(
            queue[handled_count(queue) as int].command_id,
        ),
    decreases queue.len(),
{
    if queue.len() > 0 && !command::closes(queue[0].command_id) {
        let tail = queue.skip(1);
        lemma_handled_count(tail);
        assert forall|i: int| 0 <= i < handled_count(queue) implies !command::closes(
            #[trigger] queue[i].command_id,
        ) by {
            if i > 0 {
                assert(queue[i] == tail[i - 1]);
                assert(!command::closes(tail[i - 1].command_id));
            }
        }
    }
}

proof fn lemma_after_handling(state: ClientState, n: nat)
    requires
        n <= handled_count(state.queue),
    ensures
        n < handled_count(state.queue) ==> after_handling(state, n) == (
            ClientState { buffer: state.buffer, queue: state.queue.skip(n as int + 1) },
            ClientStep::Handle(state.queue[n as int]),
        ),
        n == handled_count(state.queue) ==> after_handling(state, n).1 == (if n
            == state.queue.len() {
            ClientStep::Read
        } else {
            ClientStep::Close(state.queue[n as int])
        }),
    decreases n,
{
    lemma_handled_count(state.queue);
    if n > 0 {
        lemma_after_handling(state, (n - 1) as nat);
        let before = after_handling(state, (n - 1) as nat).0;
        assert(before.queue =~= state.queue.skip(n as int));
        if n < state.queue.len() {
            assert(before.queue.skip(1) =~= state.queue.skip(n as int + 1));
            assert(before.queue[0] == state.queue[n as int]);
        }
    }
}

/// The PDUs that wait for room in the window.
#[derive(Debug)]
pub struct PendingQueue {
    pdus: VecDeque<RawPdu>,
}

impl View for PendingQueue {
    type V = Seq<Seq<u8>>;

    closed spec fn view(&self) -> Seq<Seq<u8>> {
        protocol::pdu_views(self.pdus@)
    }
}

/// Whether a PDU is a request that already waits for its response.
pub open spec fn is_waiting(pdu: Seq<u8>, protocol: Protocol, waiting: Seq<u32>) -> bool {
    framing::sequence_in(pdu, protocol) matches Some(sequence_id) && waiting.contains(sequence_id)
}

/// How many PDUs at the front of the queue already wait for their responses.
pub open spec fn waiting_ahead(
    queue: Seq<Seq<u8>>,
    protocol: Protocol,
    waiting: Seq<u32>,
) -> nat
    decreases queue.len(),
{
    if queue.len() == 0 || !is_waiting(queue[0], protocol, waiting) {
        0
    } else {
        1 + waiting_ahead(queue.skip(1), protocol, waiting)
    }
}

proof fn lemma_waiting_ahead(queue: Seq<Seq<u8>>, protocol: Protocol, waiting: Seq<u32>)
    ensures
        waiting_ahead(queue, protocol, waiting) <= queue.len(),
    decreases queue.len(),
{
    if queue.len() > 0 {
        lemma_waiting_ahead(queue.skip(1), protocol, waiting);
    }
}

fn holds(numbers: &[u32], number: u32) -> (yes: bool)
    ensures
        yes == numbers@.contains(number),
{
    let mut i: usize = 0;
    while i < numbers.len()
        invariant
            i <= numbers@.len(),
            forall|j: int| 0 <= j < i ==> numbers@[j] != number,
        decreases numbers@.len() - i,
    {
        if numbers[i] == number {
            assert(numbers@.contains(number));
            return true;
        }
        i = i + 1;
    }
    false
}

impl PendingQueue {
    pub fn new() -> (queue: Self)
        ensures
            queue@ == Seq::<Seq<u8>>::empty(),
    {
        let queue = PendingQueue { pdus: VecDeque::new() };
        assert(protocol::pdu_views(queue.pdus@) =~= Seq::empty());
        queue
    }

    /// Lets a PDU wait behind the others.
    pub fn push_pending(&mut self, pdu: RawPdu)
        ensures
            final(self)@ == old(self)@.push(pdu@),
    {
        let ghost before = self@;
        self.pdus.push_back(pdu);
        assert(protocol::pdu_views(self.pdus@) =~= before.push(pdu@));
    }

    /// The PDU that has waited longest.
    pub fn pop_pending(&mut self) -> (pdu: Option<RawPdu>)
        ensures
            old(self)@.len() == 0 ==> pdu is None && final(self)@ == old(self)@,
            old(self)@.len() > 0 ==> (pdu matches Some(p) && p@ == old(self)@[0]) && final(self)@
                == old(self)@.skip(1),
    {
        let ghost before = self.pdus@;
        let pdu = self.pdus.pop_front();
        proof {
            if before.len() > 0 {
                assert(protocol::pdu_views(self.pdus@) =~= protocol::pdu_views(before).skip(1));
            }
        }
        pdu
    }

    pub fn pending_count(&self) -> (count: usize)
        ensures
            count == self@.len(),
    {
        self.pdus.len()
    }

    /// The next PDU to send, without those that already wait for their responses.
    pub fn next_unsent(&mut self, protocol: Protocol, waiting: &[u32]) -> (pdu: Option<RawPdu>)
        ensures
            ({
                let ahead = waiting_ahead(old(self)@, protocol, waiting@) as int;
                if ahead == old(self)@.len() {
                    pdu is None && final(self)@ == Seq::<Seq<u8>>::empty()
                } else {
                    (pdu matches Some(p) && p@ == old(self)@[ahead]) && final(self)@ == old(
                        self,
                    )@.skip(ahead + 1)
                }
            }),
        decreases old(self)@.len(),
    {
        let ghost before = self@;
        match self.pop_pending() {
            None => {
                assert(self@ =~= Seq::<Seq<u8>>::empty());
                None
            },
            Some(pdu) => {
                let skip = match framing::pdu_sequence(pdu.as_slice(), protocol) {
                    Some(sequence_id) => holds(waiting, sequence_id),
                    None => false,
                };
                if skip {
                    let ghost tail = self@;
                    let next = self.next_unsent(protocol, waiting);
                    proof {
                        let ahead = waiting_ahead(tail, protocol, waiting@) as int;
                        assert(waiting_ahead(before, protocol, waiting@) == ahead + 1);
                        lemma_waiting_ahead(tail, protocol, waiting@);
                        if ahead < tail.len() {
                            assert(tail.skip(ahead + 1) =~= before.skip(ahead + 2));
                            assert(tail[ahead] == before[ahead + 1]);
                        }
                    }
                    next
                } else {
                    Some(pdu)
                }
            },
        }
    }
}

/// A connection error with this text.
pub open spec fn is_connection_closed(error: RsmsError, text: Seq<char>) -> bool {
    error matches RsmsError::ConnectionClosed(s) && s@ == text
}

/// Whether a request can be sent, and the sequence number that its response will have: the
/// client must be allowed to submit, the connection in use, the window there, and the PDU long
/// enough to have a sequence number, in this order.
pub fn check_request(
    config: &ClientConfig,
    ready: bool,
    has_window: bool,
    protocol: Protocol,
    pdu: &[u8],
) -> (res: Result<u32, RsmsError>)
    ensures
        if !config.can_submit {
            res matches Err(e) && e.is_other("submit not allowed"@)
        } else if !ready {
            res matches Err(e) && is_connection_closed(e, "connection not ready"@)
        } else if !has_window {
            res matches Err(e) && e.is_codec("Window not initialized"@)
        } else {
            match framing::sequence_in(pdu@, protocol) {
                None => res matches Err(e) && e.is_codec("PDU too short"@),
                Some(sequence_id) => res matches Ok(id) && id == sequence_id,
            }
        },
{
    if !config.can_submit {
        return Err(RsmsError::Other("submit not allowed".to_owned()));
    }
    if !ready {
        return Err(RsmsError::ConnectionClosed("connection not ready".to_owned()));
    }
    if !has_window {
        return Err(RsmsError::Codec("Window not initialized".to_owned()));
    }
    match framing::pdu_sequence(pdu, protocol) {
        None => Err(RsmsError::Codec("PDU too short".to_owned())),
        Some(sequence_id) => Ok(sequence_id),
    }
}

/// How many items a client asks its message source for at a time.
pub const FETCH_BATCH: usize = 16;

/// What a client's sender does next.
#[derive(Debug, Clone, Copy, PartialEq, Eq, Structural)]
pub enum FetchTurn {
    /// End.
    Stop,
    /// Wait that many milliseconds.
    Pause { ms: u64 },
    /// Ask the message source for that many items.
    Fetch { batch_size: usize },
}

/// What a client's sender does next: it ends with its connection or when sending is switched
/// off, and waits while the client may not submit.
pub fn fetch_turn(ready: bool, sending: bool, can_submit: bool) -> (turn: FetchTurn)
    ensures
        turn == (if !ready || !sending {
            FetchTurn::Stop
        } else if !can_submit {
            FetchTurn::Pause { ms: 10 }
        } else {
            FetchTurn::Fetch { batch_size: FETCH_BATCH }
        }),
{
    if !ready || !sending {
        FetchTurn::Stop
    } else if !can_submit {
        FetchTurn::Pause { ms: 10 }
    } else {
        FetchTurn::Fetch { batch_size: FETCH_BATCH }
    }
}

/// What a client's sender does with what the message source handed out.
#[derive(Debug)]
pub enum SendTurn {
    /// End.
    Stop,
    /// Wait that many milliseconds.
    Pause { ms: u64 },
    /// Send these PDUs, in this order, without a pause between them.
    Send(Vec<RawPdu>),
}

/// What a client's sender does with what the message source handed out: nothing to send and a
/// failed source are tried again, the former sooner, and a connection that is gone meanwhile
/// ends it.
pub fn send_turn(fetched: Result<Vec<MessageItem>, RsmsError>, ready: bool) -> (turn: SendTurn)
    ensures
        match fetched {
            Err(_) => turn == (SendTurn::Pause { ms: 10 }),
            Ok(items) => if items@.len() == 0 {
                turn == (SendTurn::Pause { ms: 1 })
            } else if !ready {
                turn is Stop
            } else {
                turn matches SendTurn::Send(pdus) && protocol::pdu_views(pdus@)
                    == protocol::batch_pdus(items@)
            },
        },
{
    match fetched {
        Err(_) => SendTurn::Pause { ms: 10 },
        Ok(items) => if items.len() == 0 {
            SendTurn::Pause { ms: 1 }
        } else if !ready {
            SendTurn::Stop
        } else {
            SendTurn::Send(batch(items))
        },
    }
}

/// Nanoseconds between two signs of life: half the time after which a connection is idle.
pub open spec fn keepalive_nanos(idle_timeout: u32) -> int {
    (idle_timeout / 2) * 1_000_000_000
}

/// Milliseconds between two looks at whether a sign of life is due: as often as it can be due,
/// but at least once a second and at most ten times.
pub open spec fn check_ms(idle_timeout: u32) -> int {
    if idle_timeout / 2 >= 1 {
        1000
    } else {
        100
    }
}

/// Milliseconds between two looks at whether a sign of life is due, or at whether to stop: the
/// lesser of half the idle time and a second, and at least a tenth of one.
pub fn check_interval_ms(idle_timeout: u32) -> (ms: u64)
    ensures
        ms == check_ms(idle_timeout),
{
    let half_ms: u64 = (idle_timeout / 2) as u64 * 1000;
    let capped: u64 = if half_ms < 1000 { half_ms } else { 1000 };
    if capped > 100 {
        capped
    } else {
        100
    }
}

/// What to do about signs of life.
#[derive(Debug, Clone, Copy, PartialEq, Eq, Structural)]
pub enum KeepaliveTurn {
    /// End.
    Stop,
    /// Look again later.
    Wait,
    /// Send one.
    Send,
}

/// What to do about signs of life, so long after something was last sent.
pub fn keepalive_turn(ready: bool, since_sent_nanos: u128, idle_timeout: u32) -> (turn:
    KeepaliveTurn)
    ensures
        turn == (if !ready {
            KeepaliveTurn::Stop
        } else if since_sent_nanos >= keepalive_nanos(idle_timeout) {
            KeepaliveTurn::Send
        } else {
            KeepaliveTurn::Wait
        }),
{
    if !ready {
        return KeepaliveTurn::Stop;
    }
    let interval: u128 = (idle_timeout / 2) as u128 * 1_000_000_000;
    if since_sent_nanos >= interval {
        KeepaliveTurn::Send
    } else {
        KeepaliveTurn::Wait
    }
}

/// The sign of life of a protocol on the wire. SGIP has no command for it and sends a trace.
pub open spec fn keepalive_bytes(protocol: Protocol) -> Seq<u8> {
    match protocol {
        Protocol::Cmpp => framing::pdu12(command::CMPP_ACTIVE_TEST, 1, Seq::empty()),
        Protocol::Smgp => framing::pdu12(command::SMGP_ACTIVE_TEST, 1, Seq::empty()),
        Protocol::Smpp => framing::pdu16(CommandId::ENQUIRE_LINK.code(), 0, 1, Seq::empty()),
        Protocol::Sgip => framing::pdu20(command::SGIP_TRACE, Seq::empty()),
    }
}

pub fn build_cmpp_active_test_pdu() -> (pdu: Vec<u8>)
    ensures
        pdu@ == keepalive_bytes(Protocol::Cmpp),
{
    framing::encode_pdu12(command::CMPP_ACTIVE_TEST, 1, &[])
}

/// An active test with a reserved byte, as older peers send it. The length of a proper one is
/// 12.
pub fn build_smgp_active_test_pdu() -> (pdu: Vec<u8>)
    ensures
        pdu@ == framing::pdu12(command::SMGP_ACTIVE_TEST, 1, seq![0u8]),
{
    let pdu = framing::encode_pdu12(command::SMGP_ACTIVE_TEST, 1, &[0u8]);
    assert([0u8]@ =~= seq![0u8]);
    pdu
}

pub fn build_smpp_enquire_link_pdu() -> (pdu: Vec<u8>)
    ensures
        pdu@ == keepalive_bytes(Protocol::Smpp),
{
    framing::encode_pdu16(CommandId::ENQUIRE_LINK.as_u32(), 0, 1, &[])
}

pub fn build_sgip_keepalive_pdu() -> (pdu: Vec<u8>)
    ensures
        pdu@ == keepalive_bytes(Protocol::Sgip),
{
    framing::encode_pdu20(command::SGIP_TRACE, &[])
}

/// The sign of life of a protocol.
pub fn keepalive_pdu(protocol: Protocol) -> (pdu: Vec<u8>)
    ensures
        pdu@ == keepalive_bytes(protocol),
{
    match protocol {
        Protocol::Cmpp => build_cmpp_active_test_pdu(),
        Protocol::Smgp => framing::encode_pdu12(command::SMGP_ACTIVE_TEST, 1, &[]),
        Protocol::Smpp => {
            match SmppAdapter.encode(&UnifiedMessage::Ping, Sequence::Plain(1)) {
                Ok(pdu) => {
                    proof {
                        law_smpp_keepalive_is_ping();
                    }
                    pdu
                },
                Err(_) => build_smpp_enquire_link_pdu(),
            }
        },
        Protocol::Sgip => build_sgip_keepalive_pdu(),
    }
}

/// SMPP's sign of life is what a ping is on the wire.
pub proof fn law_smpp_keepalive_is_ping()
    ensures
        Message::EnquireLink.bytes(1) == keepalive_bytes(Protocol::Smpp),
{
    assert(Message::EnquireLink.bytes(1) =~= keepalive_bytes(Protocol::Smpp));
}

/// What a client does to open a connection.
#[derive(Debug)]
pub struct ConnectPlan {
    /// Where to connect to.
    pub address: String,
    pub config: ClientConfig,
    /// How many requests may wait for a response.
    pub window_size: u16,
    /// How many seconds a submitted message may wait for its response, if the application
    /// wants to know of responses at all.
    pub resp_timeout_secs: Option<u64>,
    /// After how many seconds without traffic the connection counts as idle.
    pub idle_timeout: u32,
}

/// An address with its port.
pub open spec fn address_chars(host: Seq<char>, port: u16) -> Seq<char> {
    host + ":"@ + text::decimal_chars(port as nat)
}

/// An address with its port.
pub fn address(host: &str, port: u16) -> (s: String)
    ensures
        s@ == address_chars(host@, port),
{
    let mut s = host.to_owned();
    s.append(":");
    s.append(text::decimal(port as u64).as_str());
    s
}

/// What a client does to open a connection to an endpoint. Responses are awaited as long as
/// the endpoint says, in whole seconds, but for a second at least.
pub fn connect_plan(
    endpoint: &EndpointConfig,
    client_config: Option<ClientConfig>,
    has_callback: bool,
) -> (plan: ConnectPlan)
    ensures
        plan.address@ == address_chars(endpoint.host@, endpoint.port),
        plan.config == (match client_config {
            Some(config) => config,
            None => ClientConfig { can_submit: true, window_size_ms: 1000 },
        }),
        plan.window_size == endpoint.window_size,
        plan.idle_timeout == endpoint.idle_time_sec,
        has_callback ==> (plan.resp_timeout_secs matches Some(secs) && secs == (if clock::seconds(
            endpoint.timeout,
        ) < 1 {
            1
        } else {
            clock::seconds(endpoint.timeout)
        })),
        !has_callback ==> plan.resp_timeout_secs is None,
{
    let config = match client_config {
        Some(config) => config,
        None => ClientConfig::new(),
    };
    let resp_timeout_secs: Option<u64> = if has_callback {
        let secs: u64 = clock::as_secs(endpoint.timeout);
        Some(if secs < 1 { 1 } else { secs })
    } else {
        None
    };
    ConnectPlan {
        address: address(endpoint.host.as_str(), endpoint.port),
        config,
        window_size: endpoint.window_size,
        resp_timeout_secs,
        idle_timeout: endpoint.idle_time_sec as u32,
    }
}

/// A sign of life is looked for often enough: between two looks no more time passes than
/// between two signs of life, unless they are due all the time.
pub proof fn law_keepalive_in_time(idle_timeout: u32)
    ensures
        100 <= check_ms(idle_timeout) <= 1000,
        idle_timeout >= 2 ==> check_ms(idle_timeout) * 1_000_000 <= keepalive_nanos(idle_timeout),
{
}

/// Every sign of life is a frame of its protocol.
pub proof fn law_keepalive_is_frame(protocol: Protocol)
    ensures
        framing::well_formed(keepalive_bytes(protocol), protocol.header_size() as int),
{
    framing::law_pdu12_is_frame(command::CMPP_ACTIVE_TEST, 1, Seq::empty());
    framing::law_pdu12_is_frame(command::SMGP_ACTIVE_TEST, 1, Seq::empty());
    framing::law_pdu16_is_frame(CommandId::ENQUIRE_LINK.code(), 0, 1, Seq::empty());
    framing::law_pdu20_is_frame(command::SGIP_TRACE, Seq::empty());
}

/// A sign of life, byte by byte.
pub proof fn law_keepalive_by_bytes(protocol: Protocol, pdu: Vec<u8>)
    requires
        call_ensures(keepalive_pdu, (protocol,), pdu),
    ensures
        pdu@ == match protocol {
            Protocol::Cmpp => seq![0u8, 0u8, 0u8, 12u8, 0u8, 0u8, 0u8, 8u8, 0u8, 0u8, 0u8, 1u8],
            Protocol::Smgp => seq![0u8, 0u8, 0u8, 12u8, 0u8, 0u8, 0u8, 4u8, 0u8, 0u8, 0u8, 1u8],
            Protocol::Smpp => seq![
                0u8, 0u8, 0u8, 16u8, 0u8, 0u8, 0u8, 0x15u8, 0u8, 0u8, 0u8, 0u8, 0u8, 0u8, 0u8, 1u8,
            ],
            Protocol::Sgip => seq![
                0u8, 0u8, 0u8, 20u8, 0u8, 0u8, 0x10u8, 0u8, 0u8, 0u8, 0u8, 0u8, 0u8, 0u8, 0u8, 0u8,
                0u8, 0u8, 0u8, 0u8,
            ],
        },
{
    assert(keepalive_bytes(protocol) =~= match protocol {
            Protocol::Cmpp => seq![0u8, 0u8, 0u8, 12u8, 0u8, 0u8, 0u8, 8u8, 0u8, 0u8, 0u8, 1u8],
            Protocol::Smgp => seq![0u8, 0u8, 0u8, 12u8, 0u8, 0u8, 0u8, 4u8, 0u8, 0u8, 0u8, 1u8],
            Protocol::Smpp => seq![
                0u8, 0u8, 0u8, 16u8, 0u8, 0u8, 0u8, 0x15u8, 0u8, 0u8, 0u8, 0u8, 0u8, 0u8, 0u8, 1u8,
            ],
            Protocol::Sgip => seq![
                0u8, 0u8, 0u8, 20u8, 0u8, 0u8, 0x10u8, 0u8, 0u8, 0u8, 0u8, 0u8, 0u8, 0u8, 0u8, 0u8,
                0u8, 0u8, 0u8, 0u8,
            ],
        });
}

/// Which frames each decoder takes: those of at least the length of its protocol's header, with
/// the sequence number where the protocol keeps it. None is ever refused.
pub proof fn law_decoders(res: Result<Vec<Frame>, RsmsError>, before: Seq<u8>, after: Seq<u8>)
    ensures
        CmppDecoder.takes(res, before, after) ==> (res matches Ok(frames) && frame::frame_views(
            frames@,
        ) == framing::frames_in(before, 12, 8)) && after == framing::rest(before, 12),
        SmgpDecoder.takes(res, before, after) ==> (res matches Ok(frames) && frame::frame_views(
            frames@,
        ) == framing::frames_in(before, 12, 8)) && after == framing::rest(before, 12),
        SmppDecoder.takes(res, before, after) ==> (res matches Ok(frames) && frame::frame_views(
            frames@,
        ) == framing::frames_in(before, 16, 12)) && after == framing::rest(before, 16),
        SgipDecoder.takes(res, before, after) ==> (res matches Ok(frames) && frame::frame_views(
            frames@,
        ) == framing::frames_in(before, 20, 12)) && after == framing::rest(before, 20),
{
}

/// What a client's read loop does after each event, on the values that a caller sees. Bytes are
/// kept in order and then decoded. Frames are dealt with in order, behind those that wait; one with
/// command 2 or 6 closes the session, and what waits behind it is dropped.
pub proof fn law_client_steps(
    before: ClientState,
    event: ClientEvent,
    after: ClientState,
    action: ClientAction,
)
    requires
        (after, action@) == before.next(event),
    ensures
        match event {
            ClientEvent::Data(data) => action is Decode && after.buffer == before.buffer + data@
                && after.queue == before.queue,
            ClientEvent::Closed => (action matches ClientAction::Stop { decode_error }
                && !decode_error) && after == before,
            ClientEvent::Failed => (action matches ClientAction::Stop { decode_error }
                && !decode_error) && after == before,
            ClientEvent::Undecodable => (action matches ClientAction::Stop { decode_error }
                && decode_error) && after == before,
            ClientEvent::TimedOut { ready } => after == before && (ready ==> action is Read) && (
            !ready ==> (action matches ClientAction::Stop { decode_error } && !decode_error)),
            ClientEvent::Decoded(frames) => deals_with(
                before.queue + frame::frame_views(frames@),
                after.queue,
                action,
            ) && after.buffer == before.buffer,
            ClientEvent::Handled => deals_with(before.queue, after.queue, action) && after.buffer
                == before.buffer,
        },
{
    let queue = match event {
        ClientEvent::Decoded(frames) => before.queue + frame::frame_views(frames@),
        _ => before.queue,
    };
    if queue.len() > 0 {
        command::law_commands(queue[0].command_id);
        assert(queue.skip(1) =~= queue.subrange(1, queue.len() as int));
    }
}

/// Whether the first of the frames that wait is dealt with, and the others wait on.
pub open spec fn deals_with(
    queue: Seq<FrameModel>,
    left: Seq<FrameModel>,
    action: ClientAction,
) -> bool {
    &&& queue.len() == 0 ==> action is Read && left.len() == 0
    &&& queue.len() > 0 && (queue[0].command_id == 2 || queue[0].command_id == 6) ==> (action
        matches ClientAction::Close(frame) && frame.data@ == queue[0].data) && left.len() == 0
    &&& queue.len() > 0 && queue[0].command_id != 2 && queue[0].command_id != 6 ==> (action
        matches ClientAction::Handle(frame) && frame.data@ == queue[0].data && frame.command_id
        == queue[0].command_id && frame.sequence_id == queue[0].sequence_id) && left
        == queue.subrange(1, queue.len() as int)
}

/// A request goes out only if the client may submit, the connection is in use and there is a
/// window, and it is then known by the sequence number that its bytes hold.
pub proof fn law_requests_are_checked(
    config: ClientConfig,
    ready: bool,
    has_window: bool,
    protocol: Protocol,
    pdu: &[u8],
    res: Result<u32, RsmsError>,
)
    requires
        call_ensures(check_request, (&config, ready, has_window, protocol, pdu), res),
    ensures
        ({
            let at: int = if protocol == Protocol::Cmpp || protocol == Protocol::Smgp {
                8
            } else {
                12
            };
            let s = pdu@;
            &&& res is Ok <==> config.can_submit && ready && has_window && s.len() >= at + 4
            &&& res matches Ok(id) ==> id == s[at] * 16777216 + s[at + 1] * 65536 + s[at + 2] * 256
                + s[at + 3]
        }),
{
    if pdu@.len() >= 12 {
        wire::law_high_byte_first(0, 0, pdu@.skip(8));
    }
    if pdu@.len() >= 16 {
        wire::law_high_byte_first(0, 0, pdu@.skip(12));
    }
}

/// A client asks for sixteen items at a time, unless it is to end or may not submit; what it is
/// handed goes out as it is, PDU by PDU, as long as the connection is in use.
pub proof fn law_sending(
    ready: bool,
    sending: bool,
    can_submit: bool,
    turn: FetchTurn,
    items: Vec<MessageItem>,
    send: SendTurn,
)
    requires
        call_ensures(fetch_turn, (ready, sending, can_submit), turn),
        call_ensures(send_turn, (Ok::<Vec<MessageItem>, RsmsError>(items), ready), send),
    ensures
        turn is Stop <==> !(ready && sending),
        turn matches FetchTurn::Fetch { batch_size } ==> batch_size == 16,
        turn is Fetch <==> ready && sending && can_submit,
        send is Stop <==> items@.len() > 0 && !ready,
        send is Send <==> items@.len() > 0 && ready,
        items@.len() == 1 && items@[0] is Single ==> (send matches SendTurn::Send(pdus)
            ==> pdus@.len() == 1 && pdus@[0]@ == items@[0]->Single_0@),
        items@.len() == 1 && items@[0] is Group ==> (send matches SendTurn::Send(pdus)
            ==> pdus@.len() == items@[0]->items@.len() && forall|i: int|
            #![trigger pdus@[i]]
            0 <= i < pdus@.len() ==> pdus@[i]@ == items@[0]->items@[i]@),
{
    if items@.len() == 1 {
        if let SendTurn::Send(pdus) = send {
            let all = protocol::pdu_views(pdus@);
            assert(items@.drop_last() =~= Seq::<MessageItem>::empty());
            assert(protocol::batch_pdus(items@.drop_last()) =~= Seq::<Seq<u8>>::empty());
            assert(all =~= items@[0].pdus());
            assert(all.len() == pdus@.len());
            assert forall|i: int| #![trigger pdus@[i]] 0 <= i < pdus@.len() implies pdus@[i]@
                == items@[0].pdus()[i] by {
                assert(all[i] == pdus@[i]@);
            }
        }
    }
}

/// A sign of life is due when nothing was sent for half the idle time, in whole seconds.
pub proof fn law_signs_of_life(
    ready: bool,
    since_sent_nanos: u128,
    idle_timeout: u32,
    turn: KeepaliveTurn,
    ms: u64,
)
    requires
        call_ensures(keepalive_turn, (ready, since_sent_nanos, idle_timeout), turn),
        call_ensures(check_interval_ms, (idle_timeout,), ms),
    ensures
        turn is Stop <==> !ready,
        turn is Send <==> ready && since_sent_nanos >= (idle_timeout / 2) * 1_000_000_000,
        idle_timeout >= 2 ==> ms == 1000,
        idle_timeout < 2 ==> ms == 100,
{
}

/// What a client does to open a connection: the host and the port, the endpoint's window and idle
/// time, what the client may do, and how long a response may take if anybody wants to know.
pub proof fn law_plan(
    endpoint: EndpointConfig,
    client_config: Option<ClientConfig>,
    has_callback: bool,
    plan: ConnectPlan,
)
    requires
        call_ensures(connect_plan, (&endpoint, client_config, has_callback), plan),
    ensures
        plan.address@ == endpoint.host@ + ":"@ + text::decimal_chars(endpoint.port as nat),
        plan.window_size == endpoint.window_size,
        plan.idle_timeout == endpoint.idle_time_sec,
        client_config matches Some(config) ==> plan.config == config,
        client_config is None ==> plan.config.can_submit && plan.config.window_size_ms == 1000,
        plan.resp_timeout_secs is Some <==> has_callback,
        plan.resp_timeout_secs matches Some(secs) ==> {
            let nanos = clock::duration_nanos(endpoint.timeout) as int;
            &&& nanos < 2_000_000_000 ==> secs == 1
            &&& nanos >= 1_000_000_000 ==> secs * 1_000_000_000 <= nanos < (secs + 1)
                * 1_000_000_000
        },
{
}

/// Which requests wait for their responses: those whose bytes hold a sequence number that is waited
/// for, at byte 8 in CMPP and SMGP and at byte 12 in SMPP and SGIP.
pub proof fn law_waiting_by_bytes(pdu: Seq<u8>, protocol: Protocol, waiting: Seq<u32>)
    ensures
        ({
            let at: int = if protocol == Protocol::Cmpp || protocol == Protocol::Smgp {
                8
            } else {
                12
            };
            &&& pdu.len() < at + 4 ==> !is_waiting(pdu, protocol, waiting)
            &&& pdu.len() >= at + 4 ==> (is_waiting(pdu, protocol, waiting) <==> waiting.contains(
                (pdu[at] * 16777216 + pdu[at + 1] * 65536 + pdu[at + 2] * 256 + pdu[at + 3]) as u32,
            ))
        }),
{
    if pdu.len() >= 12 {
        wire::law_high_byte_first(0, 0, pdu.skip(8));
    }
    if pdu.len() >= 16 {
        wire::law_high_byte_first(0, 0, pdu.skip(12));
    }
}

/// The next PDU to send is the first one that does not wait for its response already.
pub proof fn law_first_unsent(
    queue: Seq<Seq<u8>>,
    protocol: Protocol,
    waiting: Seq<u32>,
    i: int,
)
    requires
        0 <= i <= queue.len(),
        forall|j: int| 0 <= j < i ==> is_waiting(#[trigger] queue[j], protocol, waiting),
        i < queue.len() ==> !is_waiting(queue[i], protocol, waiting),
    ensures
        waiting_ahead(queue, protocol, waiting) == i,
    decreases queue.len(),
{
    if i > 0 {
        assert(is_waiting(queue[0], protocol, waiting));
        let tail = queue.skip(1);
        assert forall|j: int| 0 <= j < i - 1 implies is_waiting(
            #[trigger] tail[j],
            protocol,
            waiting,
        ) by {
            assert(tail[j] == queue[j + 1]);
        }
        law_first_unsent(tail, protocol, waiting, i - 1);
    }
}

} // verus!
