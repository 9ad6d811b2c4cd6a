//! SMGP messages as transactions see them.

use crate::connector::transaction::cmpp;
use crate::connector::transaction::manager::TransactionManager;
use crate::connector::transaction::smpp;
use crate::text;
use vstd::prelude::*;
use vstd::slice::slice_to_vec;
use vstd::std_specs::convert::FromSpecImpl;
use vstd::string::*;
use vstd::utf8::*;

verus! {

/// What a transaction reads of a submitted message.
#[derive(Debug, Clone)]
pub struct Submit {
    pub src_term_id: String,
    pub dest_term_ids: Vec<String>,
    pub msg_content: Vec<u8>,
}

impl Submit {
    /// An empty message.
    pub fn new() -> (submit: Self)
        ensures
            submit.src_term_id@ == Seq::<char>::empty(),
            submit.dest_term_ids@ == Seq::<String>::empty(),
            submit.msg_content@ == Seq::<u8>::empty(),
    {
        Submit { src_term_id: String::new(), dest_term_ids: Vec::new(), msg_content: Vec::new() }
    }
}

/// A submitted message.
#[derive(Debug, Clone)]
pub struct SmgpSubmit {
    pub inner: Submit,
}

impl SmgpSubmit {
    pub fn new(inner: Submit) -> (submit: Self)
        ensures
            submit.inner == inner,
    {
        SmgpSubmit { inner }
    }

    pub fn inner(&self) -> (inner: &Submit)
        ensures
            *inner == self.inner,
    {
        &self.inner
    }

    pub fn into_inner(self) -> (inner: Submit)
        ensures
            inner == self.inner,
    {
        self.inner
    }

    /// What stands for the id, which only the response brings.
    pub fn msg_id(&self) -> (id: String)
        ensures
            id@ == smpp::provisional_id(
                encode_utf8(self.inner.src_term_id@),
                encode_utf8(cmpp::first_text(self.inner.dest_term_ids@)),
                self.inner.msg_content@,
            ),
    {
        let dest = cmpp::first_or_empty(&self.inner.dest_term_ids);
        smpp::make_provisional_id(
            self.inner.src_term_id.as_str().as_bytes(),
            dest.as_str().as_bytes(),
            self.inner.msg_content.as_slice(),
        )
    }

    /// The first number that the message goes to.
    pub fn dest_id(&self) -> (id: String)
        ensures
            id@ == cmpp::first_text(self.inner.dest_term_ids@),
    {
        cmpp::first_or_empty(&self.inner.dest_term_ids)
    }

    pub fn src_id(&self) -> (id: String)
        ensures
            id@ == self.inner.src_term_id@,
    {
        self.inner.src_term_id.clone()
    }

    pub fn content(&self) -> (content: Vec<u8>)
        ensures
            content@ == self.inner.msg_content@,
    {
        slice_to_vec(self.inner.msg_content.as_slice())
    }

    pub fn protocol_name(&self) -> (name: &'static str)
        ensures
            name@ == "SMGP"@,
    {
        "SMGP"
    }
}

impl Default for SmgpSubmit {
    fn default() -> (submit: Self)
        ensures
            submit.inner.src_term_id@ == Seq::<char>::empty(),
            submit.inner.dest_term_ids@ == Seq::<String>::empty(),
            submit.inner.msg_content@ == Seq::<u8>::empty(),
    {
        SmgpSubmit { inner: Submit::new() }
    }
}

/// What a transaction reads of a delivered message.
#[derive(Debug, Clone)]
pub struct Deliver {
    pub msg_id: [u8; 10],
    pub is_report: u8,
    pub src_term_id: String,
    pub msg_content: Vec<u8>,
}

impl Deliver {
    /// An empty message.
    pub fn new() -> (deliver: Self)
        ensures
            deliver.msg_id@ == seq![0u8, 0u8, 0u8, 0u8, 0u8, 0u8, 0u8, 0u8, 0u8, 0u8],
            deliver.is_report == 0,
            deliver.src_term_id@ == Seq::<char>::empty(),
            deliver.msg_content@ == Seq::<u8>::empty(),
    {
        let msg_id: [u8; 10] = [0, 0, 0, 0, 0, 0, 0, 0, 0, 0];
        assert(msg_id@ =~= seq![0u8, 0u8, 0u8, 0u8, 0u8, 0u8, 0u8, 0u8, 0u8, 0u8]);
        Deliver { msg_id, is_report: 0, src_term_id: String::new(), msg_content: Vec::new() }
    }
}

/// A delivered message.
#[derive(Debug, Clone)]
pub struct SmgpDeliver {
    pub inner: Deliver,
}

impl SmgpDeliver {
    pub fn new(inner: Deliver) -> (deliver: Self)
        ensures
            deliver.inner == inner,
    {
        SmgpDeliver { inner }
    }

    pub fn inner(&self) -> (inner: &Deliver)
        ensures
            *inner == self.inner,
    {
        &self.inner
    }

    pub fn into_inner(self) -> (inner: Deliver)
        ensures
            inner == self.inner,
    {
        self.inner
    }

    /// Whether the message is a report.
    pub fn is_report(&self) -> (yes: bool)
        ensures
            yes == (self.inner.is_report == 1),
    {
        self.inner.is_report == 1
    }

    /// The id in hexadecimal.
    pub fn msg_id(&self) -> (id: String)
        ensures
            id@ == text::hex_bytes_chars(self.inner.msg_id@),
    {
        text::hex_bytes(self.inner.msg_id.as_slice())
    }

    pub fn src_terminal_id(&self) -> (id: String)
        ensures
            id@ == self.inner.src_term_id@,
    {
        self.inner.src_term_id.clone()
    }

    pub fn content(&self) -> (content: Vec<u8>)
        ensures
            content@ == self.inner.msg_content@,
    {
        slice_to_vec(self.inner.msg_content.as_slice())
    }
}

impl Default for SmgpDeliver {
    fn default() -> (deliver: Self)
        ensures
            deliver.inner.msg_id@ == seq![0u8, 0u8, 0u8, 0u8, 0u8, 0u8, 0u8, 0u8, 0u8, 0u8],
            deliver.inner.is_report == 0,
            deliver.inner.src_term_id@ == Seq::<char>::empty(),
            deliver.inner.msg_content@ == Seq::<u8>::empty(),
    {
        SmgpDeliver { inner: Deliver::new() }
    }
}

impl From<Deliver> for SmgpDeliver {
    fn from(d: Deliver) -> (deliver: Self) {
        SmgpDeliver { inner: d }
    }
}

impl FromSpecImpl<Deliver> for SmgpDeliver {
    open spec fn obeys_from_spec() -> bool {
        true
    }

    open spec fn from_spec(d: Deliver) -> SmgpDeliver {
        SmgpDeliver { inner: d }
    }
}

impl From<SmgpDeliver> for Deliver {
    fn from(d: SmgpDeliver) -> (deliver: Self) {
        d.inner
    }
}

impl FromSpecImpl<SmgpDeliver> for Deliver {
    open spec fn obeys_from_spec() -> bool {
        true
    }

    open spec fn from_spec(d: SmgpDeliver) -> Deliver {
        d.inner
    }
}

pub type SmgpTransactionManager = TransactionManager;

/// Who sends a submitted message, to whom, and what: its fields as they are, and of several numbers
/// the first.
pub proof fn law_submit_parts(m: SmgpSubmit, src: String, dest: String, content: Vec<u8>)
    requires
        call_ensures(SmgpSubmit::src_id, (&m,), src),
        call_ensures(SmgpSubmit::dest_id, (&m,), dest),
        call_ensures(SmgpSubmit::content, (&m,), content),
    ensures
        src@ == m.inner.src_term_id@,
        (m.inner.dest_term_ids@.len() > 0 ==> dest@ == m.inner.dest_term_ids@[0]@) && (m.inner.dest_term_ids@.len() == 0 ==> dest@.len() == 0),
        content@ == m.inner.msg_content@,
{
}

/// Who sends a delivered message, what, and whether it is a report.
pub proof fn law_deliver_parts(m: SmgpDeliver, src: String, content: Vec<u8>, report: bool)
    requires
        call_ensures(SmgpDeliver::src_terminal_id, (&m,), src),
        call_ensures(SmgpDeliver::content, (&m,), content),
        call_ensures(SmgpDeliver::is_report, (&m,), report),
    ensures
        src@ == m.inner.src_term_id@,
        content@ == m.inner.msg_content@,
        report <==> m.inner.is_report == 1,
{
}

/// Ids are the ten bytes in hexadecimal, so that the same bytes have the same id, and others have
/// not.
pub proof fn law_ids(a: SmgpDeliver, b: SmgpDeliver, x: String, y: String)
    requires
        call_ensures(SmgpDeliver::msg_id, (&a,), x),
        call_ensures(SmgpDeliver::msg_id, (&b,), y),
    ensures
        x@.len() == 20,
        x@ == y@ <==> a.inner.msg_id@ == b.inner.msg_id@,
{
    text::law_hex_bytes(a.inner.msg_id@);
    text::law_hex_bytes(b.inner.msg_id@);
    text::law_hex_bytes_differ(a.inner.msg_id@, b.inner.msg_id@);
}

} // verus!
