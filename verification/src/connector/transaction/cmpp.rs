//! CMPP messages as transactions see them.

use crate::connector::transaction::manager::TransactionManager;
use crate::text;
use vstd::prelude::*;
use vstd::slice::slice_to_vec;
use vstd::std_specs::convert::FromSpecImpl;

verus! {

/// What a transaction reads of a submitted message.
#[derive(Debug, Clone)]
pub struct Submit {
    pub msg_id: [u8; 8],
    pub src_id: String,
    pub dest_terminal_ids: Vec<String>,
    pub msg_content: Vec<u8>,
}

impl Submit {
    /// An empty message.
    pub fn new() -> (submit: Self)
        ensures
            submit.msg_id@ == seq![0u8, 0u8, 0u8, 0u8, 0u8, 0u8, 0u8, 0u8],
            submit.src_id@ == Seq::<char>::empty(),
            submit.dest_terminal_ids@ == Seq::<String>::empty(),
            submit.msg_content@ == Seq::<u8>::empty(),
    {
        let msg_id: [u8; 8] = [0, 0, 0, 0, 0, 0, 0, 0];
        assert(msg_id@ =~= seq![0u8, 0u8, 0u8, 0u8, 0u8, 0u8, 0u8, 0u8]);
        Submit {
            msg_id,
            src_id: String::new(),
            dest_terminal_ids: Vec::new(),
            msg_content: Vec::new(),
        }
    }
}

/// A submitted message.
#[derive(Debug, Clone)]
pub struct CmppSubmit {
    pub inner: Submit,
}

/// The first of some texts, or none.
pub open spec fn first_text(texts: Seq<String>) -> Seq<char> {
    if texts.len() > 0 {
        texts[0]@
    } else {
        Seq::empty()
    }
}

/// The first of some texts, or none.
pub(crate) fn first_or_empty(texts: &Vec<String>) -> (s: String)
    ensures
        s@ == first_text(texts@),
{
    if texts.len() > 0 {
        texts[0].clone()
    } else {
        String::new()
    }
}

impl CmppSubmit {
    pub fn new(inner: Submit) -> (submit: Self)
        ensures
            submit.inner == inner,
    {
        CmppSubmit { inner }
    }

    pub fn inner(&self) -> (inner: &Submit)
        ensures
            *inner == self.inner,
    {
        &self.inner
    }

    pub fn into_inner(self) -> (inner: Submit)
        ensures
            inner == self.inner,
    {
        self.inner
    }

    /// The id in hexadecimal.
    pub fn msg_id(&self) -> (id: String)
        ensures
            id@ == text::hex_bytes_chars(self.inner.msg_id@),
    {
        text::hex_bytes(self.inner.msg_id.as_slice())
    }

    /// The first number that the message goes to.
    pub fn dest_id(&self) -> (id: String)
        ensures
            id@ == first_text(self.inner.dest_terminal_ids@),
    {
        first_or_empty(&self.inner.dest_terminal_ids)
    }

    pub fn src_id(&self) -> (id: String)
        ensures
            id@ == self.inner.src_id@,
    {
        self.inner.src_id.clone()
    }

    pub fn content(&self) -> (content: Vec<u8>)
        ensures
            content@ == self.inner.msg_content@,
    {
        slice_to_vec(self.inner.msg_content.as_slice())
    }

    pub fn protocol_name(&self) -> (name: &'static str)
        ensures
            name@ == "CMPP"@,
    {
        "CMPP"
    }

    /// The id, the number it goes to, the number it comes from, the content and the protocol.
    pub fn into_parts(self) -> (parts: (String, String, String, Vec<u8>, &'static str))
        ensures
            parts.0@ == text::hex_bytes_chars(self.inner.msg_id@),
            parts.1@ == first_text(self.inner.dest_terminal_ids@),
            parts.2@ == self.inner.src_id@,
            parts.3@ == self.inner.msg_content@,
            parts.4@ == "CMPP"@,
    {
        (self.msg_id(), self.dest_id(), self.src_id(), self.content(), self.protocol_name())
    }
}

impl Default for CmppSubmit {
    fn default() -> (submit: Self)
        ensures
            submit.inner.msg_id@ == seq![0u8, 0u8, 0u8, 0u8, 0u8, 0u8, 0u8, 0u8],
            submit.inner.src_id@ == Seq::<char>::empty(),
            submit.inner.dest_terminal_ids@ == Seq::<String>::empty(),
            submit.inner.msg_content@ == Seq::<u8>::empty(),
    {
        CmppSubmit { inner: Submit::new() }
    }
}

/// What a transaction reads of a delivered message.
#[derive(Debug, Clone)]
pub struct Deliver {
    pub msg_id: [u8; 8],
    pub src_terminal_id: String,
    pub registered_delivery: u8,
    pub msg_content: Vec<u8>,
}

impl Deliver {
    /// An empty message.
    pub fn new() -> (deliver: Self)
        ensures
            deliver.msg_id@ == seq![0u8, 0u8, 0u8, 0u8, 0u8, 0u8, 0u8, 0u8],
            deliver.src_terminal_id@ == Seq::<char>::empty(),
            deliver.registered_delivery == 0,
            deliver.msg_content@ == Seq::<u8>::empty(),
    {
        let msg_id: [u8; 8] = [0, 0, 0, 0, 0, 0, 0, 0];
        assert(msg_id@ =~= seq![0u8, 0u8, 0u8, 0u8, 0u8, 0u8, 0u8, 0u8]);
        Deliver {
            msg_id,
            src_terminal_id: String::new(),
            registered_delivery: 0,
            msg_content: Vec::new(),
        }
    }
}

/// A delivered message.
#[derive(Debug, Clone)]
pub struct CmppDeliver {
    pub inner: Deliver,
}

impl CmppDeliver {
    pub fn new(inner: Deliver) -> (deliver: Self)
        ensures
            deliver.inner == inner,
    {
        CmppDeliver { inner }
    }

    pub fn inner(&self) -> (inner: &Deliver)
        ensures
            *inner == self.inner,
    {
        &self.inner
    }

    pub fn into_inner(self) -> (inner: Deliver)
        ensures
            inner == self.inner,
    {
        self.inner
    }

    /// Whether the message is a report.
    pub fn is_report(&self) -> (yes: bool)
        ensures
            yes == (self.inner.registered_delivery == 1),
    {
        self.inner.registered_delivery == 1
    }

    /// The id in hexadecimal.
    pub fn msg_id(&self) -> (id: String)
        ensures
            id@ == text::hex_bytes_chars(self.inner.msg_id@),
    {
        text::hex_bytes(self.inner.msg_id.as_slice())
    }

    pub fn src_terminal_id(&self) -> (id: String)
        ensures
            id@ == self.inner.src_terminal_id@,
    {
        self.inner.src_terminal_id.clone()
    }

    pub fn content(&self) -> (content: Vec<u8>)
        ensures
            content@ == self.inner.msg_content@,
    {
        slice_to_vec(self.inner.msg_content.as_slice())
    }
}

impl Default for CmppDeliver {
    fn default() -> (deliver: Self)
        ensures
            deliver.inner.msg_id@ == seq![0u8, 0u8, 0u8, 0u8, 0u8, 0u8, 0u8, 0u8],
            deliver.inner.src_terminal_id@ == Seq::<char>::empty(),
            deliver.inner.registered_delivery == 0,
            deliver.inner.msg_content@ == Seq::<u8>::empty(),
    {
        CmppDeliver { inner: Deliver::new() }
    }
}

impl From<Deliver> for CmppDeliver {
    fn from(d: Deliver) -> (deliver: Self) {
        CmppDeliver { inner: d }
    }
}

impl FromSpecImpl<Deliver> for CmppDeliver {
    open spec fn obeys_from_spec() -> bool {
        true
    }

    open spec fn from_spec(d: Deliver) -> CmppDeliver {
        CmppDeliver { inner: d }
    }
}

impl From<CmppDeliver> for Deliver {
    fn from(d: CmppDeliver) -> (deliver: Self) {
        d.inner
    }
}

impl FromSpecImpl<CmppDeliver> for Deliver {
    open spec fn obeys_from_spec() -> bool {
        true
    }

    open spec fn from_spec(d: CmppDeliver) -> Deliver {
        d.inner
    }
}

pub type CmppTransactionManager = TransactionManager;

/// Who sends a submitted message, to whom, and what: its fields as they are, and of several numbers
/// the first.
pub proof fn law_submit_parts(m: CmppSubmit, src: String, dest: String, content: Vec<u8>)
    requires
        call_ensures(CmppSubmit::src_id, (&m,), src),
        call_ensures(CmppSubmit::dest_id, (&m,), dest),
        call_ensures(CmppSubmit::content, (&m,), content),
    ensures
        src@ == m.inner.src_id@,
        (m.inner.dest_terminal_ids@.len() > 0 ==> dest@ == m.inner.dest_terminal_ids@[0]@) && (m.inner.dest_terminal_ids@.len() == 0 ==> dest@.len() == 0),
        content@ == m.inner.msg_content@,
{
}

/// Who sends a delivered message, what, and whether it is a report.
pub proof fn law_deliver_parts(m: CmppDeliver, src: String, content: Vec<u8>, report: bool)
    requires
        call_ensures(CmppDeliver::src_terminal_id, (&m,), src),
        call_ensures(CmppDeliver::content, (&m,), content),
        call_ensures(CmppDeliver::is_report, (&m,), report),
    ensures
        src@ == m.inner.src_terminal_id@,
        content@ == m.inner.msg_content@,
        report <==> m.inner.registered_delivery == 1,
{
}

/// Ids are the eight bytes in hexadecimal, so that a response and a report with the same bytes
/// have the same id, and others have not.
pub proof fn law_ids(a: CmppSubmit, b: CmppDeliver, x: String, y: String)
    requires
        call_ensures(CmppSubmit::msg_id, (&a,), x),
        call_ensures(CmppDeliver::msg_id, (&b,), y),
    ensures
        x@.len() == 16,
        y@.len() == 16,
        x@ == y@ <==> a.inner.msg_id@ == b.inner.msg_id@,
{
    text::law_hex_bytes(a.inner.msg_id@);
    text::law_hex_bytes(b.inner.msg_id@);
    text::law_hex_bytes_differ(a.inner.msg_id@, b.inner.msg_id@);
}

} // verus!
