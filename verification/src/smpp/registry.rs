//! Which commands a peer understands, and reading their bodies.

use crate::smpp::codec::{CodecError, Decodable, PduHeader};
use crate::smpp::datatypes::bind::{BindReceiver, BindReceiverResp, BindTransceiver, BindTransceiverResp, BindTransmitter, BindTransmitterResp};
use crate::smpp::datatypes::cancel_sm::CancelSm;
use crate::smpp::datatypes::link::{CancelSmResp, EnquireLink, EnquireLinkResp, GenericNack, Unbind, UnbindResp};
use crate::smpp::datatypes::query_sm::{QuerySm, QuerySmResp};
use crate::smpp::datatypes::short_message::{DeliverSm, DeliverSmResp, SubmitSm, SubmitSmResp};
use crate::smpp::datatypes::command_id::CommandId;
use crate::smpp::grammar::{Fault, Scan};
use crate::smpp::pdu::Pdu;
use crate::wire;
use std::io::Cursor;
use std::marker::PhantomData;
use vstd::prelude::*;

verus! {

/// How the bodies of a command are read.
#[verifier::ext_equal]
pub struct Reading {
    /// Where reading a body ends.
    pub end: spec_fn(Seq<u8>) -> Scan,
    /// Whether a PDU may be what a body is read as, under a header.
    pub gives: spec_fn(PduHeader, Seq<u8>, Pdu) -> bool,
}

impl Reading {
    /// Reading a type of bodies, and making PDUs of them.
    pub open spec fn of<T: Decodable + Into<Pdu>>() -> Reading {
        Reading {
            end: |body: Seq<u8>| T::end(body),
            gives: |header: PduHeader, body: Seq<u8>, pdu: Pdu|
                exists|value: T| #[trigger]
                    value.is_body(header, body) && call_ensures(T::into, (value,), pdu),
        }
    }
}

/// Reads the bodies of one command.
trait BodyReader: Send + Sync {
    spec fn command(&self) -> CommandId;

    spec fn reading(&self) -> Reading;

    fn read(&self, header: PduHeader, buf: &mut Cursor<&[u8]>) -> (res: Result<Pdu, CodecError>)
        requires
            header.command_id == self.command(),
            (self.reading().end)(wire::cursor_rest(*old(buf))).fault != Some(Fault::NoByte),
        ensures
            ({
                let body = wire::cursor_rest(*old(buf));
                let end = (self.reading().end)(body);
                &&& res is Ok <==> end.ok()
                &&& res matches Ok(pdu) ==> (self.reading().gives)(header, body, pdu)
                &&& res matches Err(e) ==> e.is_fault(end.fault->0)
                &&& wire::cursor_rest(*final(buf)) == end.rest
            }),
    ;
}

/// Reads the bodies of a type.
struct ReaderOf<T> {
    body: PhantomData<T>,
}

impl<T: Decodable + Into<Pdu> + Send + Sync> BodyReader for ReaderOf<T> {
    closed spec fn command(&self) -> CommandId {
        T::command()
    }

    closed spec fn reading(&self) -> Reading {
        Reading::of::<T>()
    }

    fn read(&self, header: PduHeader, buf: &mut Cursor<&[u8]>) -> Result<Pdu, CodecError> {
        match T::decode(header, buf) {
            Ok(value) => Ok(value.into()),
            Err(e) => Err(e),
        }
    }
}

/// A command and the reader of its bodies.
struct Entry {
    command: CommandId,
    reader: Box<dyn BodyReader>,
}

impl Entry {
    fn of<T: Decodable + Into<Pdu> + Send + Sync + 'static>() -> (entry: Entry)
        ensures
            entry.command == T::command(),
            entry.reader.command() == T::command(),
            entry.reader.reading() == Reading::of::<T>(),
    {
        let command = T::command_id();
        Entry { command, reader: Box::new(ReaderOf::<T> { body: PhantomData }) }
    }
}

/// The readings that stand under their commands; the last one of a command counts.
spec fn readings(entries: Seq<Entry>) -> Map<CommandId, Reading>
    decreases entries.len(),
{
    if entries.len() == 0 {
        Map::empty()
    } else {
        readings(entries.drop_last()).insert(
            entries.last().command,
            entries.last().reader.reading(),
        )
    }
}

/// The commands whose bodies are read, and how.
pub struct PduRegistry {
    entries: Vec<Entry>,
}

impl View for PduRegistry {
    type V = Map<CommandId, Reading>;

    closed spec fn view(&self) -> Map<CommandId, Reading> {
        readings(self.entries@)
    }
}

impl PduRegistry {
    #[verifier::type_invariant]
    spec fn well_formed(self) -> bool {
        forall|i: int|
            0 <= i < self.entries@.len() ==> (#[trigger] self.entries@[i]).reader.command()
                == self.entries@[i].command
    }

    /// No command is known.
    pub fn new() -> (registry: Self)
        ensures
            registry@ == Map::<CommandId, Reading>::empty(),
    {
        PduRegistry { entries: Vec::new() }
    }

    /// Makes the command of a type of bodies known: they are read as that type from now on.
    pub fn register<T: Decodable + Into<Pdu> + Send + Sync + 'static>(&mut self)
        ensures
            final(self)@ == old(self)@.insert(T::command(), Reading::of::<T>()),
    {
        proof {
            use_type_invariant(&*self);
        }
        let entry = Entry::of::<T>();
        let ghost before = self.entries@;
        let mut entries: Vec<Entry> = Vec::new();
        std::mem::swap(&mut entries, &mut self.entries);
        entries.push(entry);
        assert(entries@.drop_last() =~= before);
        self.entries = entries;
    }

    /// Reads the body behind a header. A command that is not known is refused. A body that ends
    /// where a byte is due cannot be read.
    pub fn decode(&self, header: PduHeader, buf: &mut Cursor<&[u8]>) -> (res: Result<
        Pdu,
        CodecError,
    >)
        requires
            self@.contains_key(header.command_id) ==> (self@[header.command_id].end)(
                wire::cursor_rest(*old(buf)),
            ).fault != Some(Fault::NoByte),
        ensures
            ({
                let body = wire::cursor_rest(*old(buf));
                if self@.contains_key(header.command_id) {
                    let end = (self@[header.command_id].end)(body);
                    &&& res is Ok <==> end.ok()
                    &&& res matches Ok(pdu) ==> (self@[header.command_id].gives)(header, body, pdu)
                    &&& res matches Err(e) ==> e.is_fault(end.fault->0)
                    &&& wire::cursor_rest(*final(buf)) == end.rest
                } else {
                    &&& res matches Err(e) && e == CodecError::UnknownCommand(header.command_id)
                    &&& wire::cursor_rest(*final(buf)) == body
                }
            }),
    {
        proof {
            use_type_invariant(self);
        }
        let mut i: usize = self.entries.len();
        assert(self.entries@.take(i as int) =~= self.entries@);
        while i > 0
            invariant
                i <= self.entries@.len(),
                self.well_formed(),
                readings(self.entries@.take(i as int)).contains_key(header.command_id) == self@.contains_key(
                    header.command_id,
                ),
                readings(self.entries@.take(i as int))[header.command_id] == self@[header.command_id],
                self@.contains_key(header.command_id) ==> (self@[header.command_id].end)(
                    wire::cursor_rest(*buf),
                ).fault != Some(Fault::NoByte),
                *buf == *old(buf),
            decreases i,
        {
            let ghost seen = self.entries@.take(i as int);
            i = i - 1;
            assert(seen.drop_last() =~= self.entries@.take(i as int));
            if self.entries[i].command == header.command_id {
                return self.entries[i].reader.read(header, buf);
            }
        }
        assert(self.entries@.take(0).len() == 0);
        Err(CodecError::UnknownCommand(header.command_id))
    }
}

/// What is known after every PDU of the library is made known.
pub open spec fn with_all_pdus(known: Map<CommandId, Reading>) -> Map<CommandId, Reading> {
    known
        .insert(CommandId::BIND_TRANSMITTER, Reading::of::<BindTransmitter>())
        .insert(CommandId::BIND_TRANSMITTER_RESP, Reading::of::<BindTransmitterResp>())
        .insert(CommandId::BIND_RECEIVER, Reading::of::<BindReceiver>())
        .insert(CommandId::BIND_RECEIVER_RESP, Reading::of::<BindReceiverResp>())
        .insert(CommandId::BIND_TRANSCEIVER, Reading::of::<BindTransceiver>())
        .insert(CommandId::BIND_TRANSCEIVER_RESP, Reading::of::<BindTransceiverResp>())
        .insert(CommandId::SUBMIT_SM, Reading::of::<SubmitSm>())
        .insert(CommandId::SUBMIT_SM_RESP, Reading::of::<SubmitSmResp>())
        .insert(CommandId::DELIVER_SM, Reading::of::<DeliverSm>())
        .insert(CommandId::DELIVER_SM_RESP, Reading::of::<DeliverSmResp>())
        .insert(CommandId::ENQUIRE_LINK, Reading::of::<EnquireLink>())
        .insert(CommandId::ENQUIRE_LINK_RESP, Reading::of::<EnquireLinkResp>())
        .insert(CommandId::UNBIND, Reading::of::<Unbind>())
        .insert(CommandId::UNBIND_RESP, Reading::of::<UnbindResp>())
        .insert(CommandId::QUERY_SM, Reading::of::<QuerySm>())
        .insert(CommandId::QUERY_SM_RESP, Reading::of::<QuerySmResp>())
        .insert(CommandId::CANCEL_SM, Reading::of::<CancelSm>())
        .insert(CommandId::CANCEL_SM_RESP, Reading::of::<CancelSmResp>())
        .insert(CommandId::GENERIC_NACK, Reading::of::<GenericNack>())
}

/// Makes every PDU of the library known.
pub fn register_all_pdus(registry: &mut PduRegistry)
    ensures
        final(registry)@ == with_all_pdus(old(registry)@),
{
    registry.register::<BindTransmitter>();
    registry.register::<BindTransmitterResp>();
    registry.register::<BindReceiver>();
    registry.register::<BindReceiverResp>();
    registry.register::<BindTransceiver>();
    registry.register::<BindTransceiverResp>();
    registry.register::<SubmitSm>();
    registry.register::<SubmitSmResp>();
    registry.register::<DeliverSm>();
    registry.register::<DeliverSmResp>();
    registry.register::<EnquireLink>();
    registry.register::<EnquireLinkResp>();
    registry.register::<Unbind>();
    registry.register::<UnbindResp>();
    registry.register::<QuerySm>();
    registry.register::<QuerySmResp>();
    registry.register::<CancelSm>();
    registry.register::<CancelSmResp>();
    registry.register::<GenericNack>();
}

impl Default for PduRegistry {
    /// Every PDU of the library is known.
    fn default() -> (registry: Self)
        ensures
            registry@ == with_all_pdus(Map::empty()),
    {
        let mut registry = PduRegistry::new();
        register_all_pdus(&mut registry);
        registry
    }
}

/// Where every PDU of the library is known and nothing else, the commands that are known are all
/// but those of the data PDUs, and what is read under a command is a PDU of that command.
pub proof fn law_all_pdus(header: PduHeader, body: Seq<u8>, pdu: Pdu)
    ensures
        with_all_pdus(Map::empty()).contains_key(header.command_id) <==> header.command_id
            != CommandId::DATA_SM && header.command_id != CommandId::DATA_SM_RESP,
        with_all_pdus(Map::empty()).contains_key(header.command_id) && (with_all_pdus(
            Map::empty(),
        )[header.command_id].gives)(header, body, pdu) ==> pdu.command() == header.command_id,
{
}

} // verus!
