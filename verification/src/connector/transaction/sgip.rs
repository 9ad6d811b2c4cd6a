//! SGIP messages as transactions see them.

use crate::connector::transaction::cmpp;
use crate::connector::transaction::manager::TransactionManager;
use crate::text;
use vstd::prelude::*;
use vstd::slice::slice_to_vec;
use vstd::std_specs::convert::FromSpecImpl;
use vstd::string::*;

verus! {

/// What a transaction reads of a submitted message.
#[derive(Debug, Clone)]
pub struct Submit {
    pub sp_number: String,
    pub user_numbers: Vec<String>,
    pub report_flag: u8,
    pub message_content: Vec<u8>,
}

impl Submit {
    /// An empty message.
    pub fn new() -> (submit: Self)
        ensures
            submit.sp_number@ == Seq::<char>::empty(),
            submit.user_numbers@ == Seq::<String>::empty(),
            submit.report_flag == 0,
            submit.message_content@ == Seq::<u8>::empty(),
    {
        Submit {
            sp_number: String::new(),
            user_numbers: Vec::new(),
            report_flag: 0,
            message_content: Vec::new(),
        }
    }
}

/// A submitted message.
#[derive(Debug, Clone)]
pub struct SgipSubmit {
    pub inner: Submit,
}

impl SgipSubmit {
    pub fn new(inner: Submit) -> (submit: Self)
        ensures
            submit.inner == inner,
    {
        SgipSubmit { inner }
    }

    pub fn inner(&self) -> (inner: &Submit)
        ensures
            *inner == self.inner,
    {
        &self.inner
    }

    pub fn into_inner(self) -> (inner: Submit)
        ensures
            inner == self.inner,
    {
        self.inner
    }

    /// The first number that the message goes to.
    pub fn dest_id(&self) -> (id: String)
        ensures
            id@ == cmpp::first_text(self.inner.user_numbers@),
    {
        cmpp::first_or_empty(&self.inner.user_numbers)
    }

    pub fn src_id(&self) -> (id: String)
        ensures
            id@ == self.inner.sp_number@,
    {
        self.inner.sp_number.clone()
    }

    pub fn content(&self) -> (content: Vec<u8>)
        ensures
            content@ == self.inner.message_content@,
    {
        slice_to_vec(self.inner.message_content.as_slice())
    }

    pub fn protocol_name(&self) -> (name: &'static str)
        ensures
            name@ == "SGIP"@,
    {
        "SGIP"
    }

    pub fn report_flag(&self) -> (flag: u8)
        ensures
            flag == self.inner.report_flag,
    {
        self.inner.report_flag
    }
}

impl Default for SgipSubmit {
    fn default() -> (submit: Self)
        ensures
            submit.inner.sp_number@ == Seq::<char>::empty(),
            submit.inner.user_numbers@ == Seq::<String>::empty(),
            submit.inner.report_flag == 0,
            submit.inner.message_content@ == Seq::<u8>::empty(),
    {
        SgipSubmit { inner: Submit::new() }
    }
}

/// What a transaction reads of a delivered message.
#[derive(Debug, Clone)]
pub struct Deliver {
    pub user_number: String,
    pub sp_number: String,
    pub message_content: Vec<u8>,
}

impl Deliver {
    /// An empty message.
    pub fn new() -> (deliver: Self)
        ensures
            deliver.user_number@ == Seq::<char>::empty(),
            deliver.sp_number@ == Seq::<char>::empty(),
            deliver.message_content@ == Seq::<u8>::empty(),
    {
        Deliver {
            user_number: String::new(),
            sp_number: String::new(),
            message_content: Vec::new(),
        }
    }
}

/// A delivered message.
#[derive(Debug, Clone)]
pub struct SgipDeliver {
    pub inner: Deliver,
}

impl SgipDeliver {
    pub fn new(inner: Deliver) -> (deliver: Self)
        ensures
            deliver.inner == inner,
    {
        SgipDeliver { inner }
    }

    pub fn inner(&self) -> (inner: &Deliver)
        ensures
            *inner == self.inner,
    {
        &self.inner
    }

    pub fn into_inner(self) -> (inner: Deliver)
        ensures
            inner == self.inner,
    {
        self.inner
    }

    /// Never: SGIP has a command of its own for reports.
    pub fn is_report(&self) -> (yes: bool)
        ensures
            !yes,
    {
        false
    }

    /// What stands for the id: both numbers, each with blanks up to 21 characters.
    pub fn msg_id(&self) -> (id: String)
        ensures
            id@ == text::padded(self.inner.sp_number@, 21) + text::padded(
                self.inner.user_number@,
                21,
            ),
    {
        let mut id = text::pad(self.inner.sp_number.as_str(), 21);
        id.append(text::pad(self.inner.user_number.as_str(), 21).as_str());
        id
    }

    pub fn src_terminal_id(&self) -> (id: String)
        ensures
            id@ == self.inner.user_number@,
    {
        self.inner.user_number.clone()
    }

    pub fn content(&self) -> (content: Vec<u8>)
        ensures
            content@ == self.inner.message_content@,
    {
        slice_to_vec(self.inner.message_content.as_slice())
    }
}

impl Default for SgipDeliver {
    fn default() -> (deliver: Self)
        ensures
            deliver.inner.user_number@ == Seq::<char>::empty(),
            deliver.inner.sp_number@ == Seq::<char>::empty(),
            deliver.inner.message_content@ == Seq::<u8>::empty(),
    {
        SgipDeliver { inner: Deliver::new() }
    }
}

impl From<Deliver> for SgipDeliver {
    fn from(d: Deliver) -> (deliver: Self) {
        SgipDeliver { inner: d }
    }
}

impl FromSpecImpl<Deliver> for SgipDeliver {
    open spec fn obeys_from_spec() -> bool {
        true
    }

    open spec fn from_spec(d: Deliver) -> SgipDeliver {
        SgipDeliver { inner: d }
    }
}

impl From<SgipDeliver> for Deliver {
    fn from(d: SgipDeliver) -> (deliver: Self) {
        d.inner
    }
}

impl FromSpecImpl<SgipDeliver> for Deliver {
    open spec fn obeys_from_spec() -> bool {
        true
    }

    open spec fn from_spec(d: SgipDeliver) -> Deliver {
        d.inner
    }
}

pub type SgipTransactionManager = TransactionManager;

/// Who sends a submitted message, to whom, and what: its fields as they are, and of several numbers
/// the first.
pub proof fn law_submit_parts(m: SgipSubmit, src: String, dest: String, content: Vec<u8>)
    requires
        call_ensures(SgipSubmit::src_id, (&m,), src),
        call_ensures(SgipSubmit::dest_id, (&m,), dest),
        call_ensures(SgipSubmit::content, (&m,), content),
    ensures
        src@ == m.inner.sp_number@,
        (m.inner.user_numbers@.len() > 0 ==> dest@ == m.inner.user_numbers@[0]@) && (m.inner.user_numbers@.len() == 0 ==> dest@.len() == 0),
        content@ == m.inner.message_content@,
{
}

/// Who sends a delivered message, what, and whether it is a report.
pub proof fn law_deliver_parts(m: SgipDeliver, src: String, content: Vec<u8>, report: bool)
    requires
        call_ensures(SgipDeliver::src_terminal_id, (&m,), src),
        call_ensures(SgipDeliver::content, (&m,), content),
        call_ensures(SgipDeliver::is_report, (&m,), report),
    ensures
        src@ == m.inner.user_number@,
        content@ == m.inner.message_content@,
        !report,
{
}

} // verus!
