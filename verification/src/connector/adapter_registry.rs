//! The adapters between protocols and messages.

use crate::model::{ProtocolAdapter, Sequence, Unified};
use crate::protocol::Protocol;
use crate::smpp::adapter::SmppAdapter;
use vstd::prelude::*;

verus! {

/// The adapters of the protocols whose codecs are not in this library.
#[derive(Clone, Copy)]
pub struct Adapters<'a> {
    pub cmpp: Option<&'a dyn ProtocolAdapter>,
    pub smgp: Option<&'a dyn ProtocolAdapter>,
    pub sgip: Option<&'a dyn ProtocolAdapter>,
}

/// Whether two adapters are for the same protocol, and read and write alike.
pub open spec fn alike<A: ProtocolAdapter + ?Sized, B: ProtocolAdapter>(a: &A, b: &B) -> bool {
    &&& a.protocol_of() == b.protocol_of()
    &&& forall|pdu: Seq<u8>| #[trigger] a.reads(pdu) == b.reads(pdu)
    &&& forall|message: Unified| #[trigger] a.can_encode(message) == b.can_encode(message)
    &&& forall|message: Unified, sequence: Sequence| #[trigger]
        a.writes(message, sequence) == b.writes(message, sequence)
}

impl<'a> Adapters<'a> {
    /// Whether each adapter is for the protocol that it stands under.
    pub open spec fn well_formed(self) -> bool {
        &&& self.cmpp matches Some(a) ==> a.protocol_of() == Protocol::Cmpp
        &&& self.smgp matches Some(a) ==> a.protocol_of() == Protocol::Smgp
        &&& self.sgip matches Some(a) ==> a.protocol_of() == Protocol::Sgip
    }

    /// What a PDU of a protocol is read as, or the text of the error, if the protocol has an
    /// adapter.
    pub open spec fn reads(self, protocol: Protocol, pdu: Seq<u8>) -> Option<
        Result<Unified, Seq<char>>,
    > {
        match protocol {
            Protocol::Cmpp => match self.cmpp {
                Some(a) => Some(a.reads(pdu)),
                None => None,
            },
            Protocol::Smgp => match self.smgp {
                Some(a) => Some(a.reads(pdu)),
                None => None,
            },
            Protocol::Smpp => Some(SmppAdapter.reads(pdu)),
            Protocol::Sgip => match self.sgip {
                Some(a) => Some(a.reads(pdu)),
                None => None,
            },
        }
    }

    /// Only SMPP has an adapter.
    pub fn new() -> (adapters: Self)
        ensures
            adapters.cmpp is None,
            adapters.smgp is None,
            adapters.sgip is None,
            adapters.well_formed(),
    {
        Adapters { cmpp: None, smgp: None, sgip: None }
    }
}


/// The adapter of a protocol: SMPP's is the library's own, the others' are those that are given.
pub fn adapter_for<'a>(protocol: Protocol, adapters: Adapters<'a>) -> (adapter: Option<
    &'a dyn ProtocolAdapter,
>)
    ensures
        match protocol {
            Protocol::Cmpp => adapter == adapters.cmpp,
            Protocol::Smgp => adapter == adapters.smgp,
            Protocol::Smpp => adapter matches Some(a) && alike(a, &SmppAdapter),
            Protocol::Sgip => adapter == adapters.sgip,
        },
        adapters.well_formed() ==> (adapter matches Some(a) ==> a.protocol_of() == protocol),
{
    match protocol {
        Protocol::Cmpp => adapters.cmpp,
        Protocol::Smgp => adapters.smgp,
        Protocol::Smpp => Some(&SmppAdapter),
        Protocol::Sgip => adapters.sgip,
    }
}

/// Which adapter a protocol gets: its own one, and no other; SMPP always has one.
pub proof fn law_adapter<'a>(
    protocol: Protocol,
    adapters: Adapters<'a>,
    adapter: Option<&'a dyn ProtocolAdapter>,
    pdu: Seq<u8>,
)
    requires
        call_ensures(adapter_for, (protocol, adapters), adapter),
    ensures
        protocol == Protocol::Smpp ==> (adapter matches Some(a) && a.reads(pdu)
            == SmppAdapter.reads(pdu) && a.protocol_of() == Protocol::Smpp),
        protocol == Protocol::Cmpp ==> adapter == adapters.cmpp,
        protocol == Protocol::Smgp ==> adapter == adapters.smgp,
        protocol == Protocol::Sgip ==> adapter == adapters.sgip,
        adapter is None ==> adapters.reads(protocol, pdu) is None,
        adapter matches Some(a) ==> adapters.reads(protocol, pdu) == Some(a.reads(pdu)),
{
}

} // verus!
