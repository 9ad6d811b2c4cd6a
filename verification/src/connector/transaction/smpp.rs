//! SMPP messages as transactions see them.

use crate::connector::transaction::manager::TransactionManager;
use crate::smpp::adapter;
use crate::smpp::datatypes::short_message::{DeliverSm, SubmitSm};
use crate::text;
use vstd::prelude::*;
use vstd::slice::slice_to_vec;
use vstd::std_specs::convert::FromSpecImpl;
use vstd::string::*;
use vstd::utf8::*;

verus! {

/// The first byte, or the digit zero.
pub open spec fn first_byte(bytes: Seq<u8>) -> u8 {
    if bytes.len() > 0 {
        bytes[0]
    } else {
        0x30
    }
}

/// The first byte, or the digit zero.
pub(crate) fn first_or_zero(bytes: &[u8]) -> (byte: u8)
    ensures
        byte == first_byte(bytes@),
{
    if bytes.len() > 0 {
        bytes[0]
    } else {
        0x30
    }
}

/// What stands for the id of a message that has none yet: the first bytes of the number it comes
/// from, of the number it goes to and of its content, and the length of the content up to five,
/// as a number of 32 hexadecimal digits.
pub open spec fn provisional_id(src: Seq<u8>, dest: Seq<u8>, content: Seq<u8>) -> Seq<char> {
    let len = if content.len() < 5 {
        content.len() as u8
    } else {
        5u8
    };
    text::hex_bytes_chars(
        seq![0u8, 0u8, 0u8, 0u8, 0u8, 0u8, 0u8, 0u8, first_byte(src), first_byte(dest),
            first_byte(content), len, 0u8, 0u8, 0u8, 0u8],
    )
}

/// What stands for the id of a message that has none yet.
pub(crate) fn make_provisional_id(src: &[u8], dest: &[u8], content: &[u8]) -> (id: String)
    ensures
        id@ == provisional_id(src@, dest@, content@),
{
    let len: u8 = if content.len() < 5 { content.len() as u8 } else { 5 };
    let bytes: [u8; 16] = [
        0,
        0,
        0,
        0,
        0,
        0,
        0,
        0,
        first_or_zero(src),
        first_or_zero(dest),
        first_or_zero(content),
        len,
        0,
        0,
        0,
        0,
    ];
    assert(bytes@ =~= seq![
        0u8, 0u8, 0u8, 0u8, 0u8, 0u8, 0u8, 0u8, first_byte(src@), first_byte(dest@),
        first_byte(content@), len, 0u8, 0u8, 0u8, 0u8,
    ]);
    text::hex_bytes(bytes.as_slice())
}

/// A submitted message.
#[derive(Debug, Clone)]
pub struct SmppSubmit {
    pub inner: SubmitSm,
}

impl SmppSubmit {
    pub fn new(inner: SubmitSm) -> (submit: Self)
        ensures
            submit.inner == inner,
    {
        SmppSubmit { inner }
    }

    pub fn inner(&self) -> (inner: &SubmitSm)
        ensures
            *inner == self.inner,
    {
        &self.inner
    }

    pub fn into_inner(self) -> (inner: SubmitSm)
        ensures
            inner == self.inner,
    {
        self.inner
    }

    /// What stands for the id, which only the response brings.
    pub fn msg_id(&self) -> (id: String)
        ensures
            id@ == provisional_id(
                encode_utf8(self.inner.source_addr@),
                encode_utf8(self.inner.destination_addr@),
                self.inner.short_message@,
            ),
    {
        make_provisional_id(
            self.inner.source_addr.as_str().as_bytes(),
            self.inner.destination_addr.as_str().as_bytes(),
            self.inner.short_message.as_slice(),
        )
    }

    pub fn dest_id(&self) -> (id: String)
        ensures
            id@ == self.inner.destination_addr@,
    {
        self.inner.destination_addr.clone()
    }

    pub fn src_id(&self) -> (id: String)
        ensures
            id@ == self.inner.source_addr@,
    {
        self.inner.source_addr.clone()
    }

    pub fn content(&self) -> (content: Vec<u8>)
        ensures
            content@ == self.inner.short_message@,
    {
        slice_to_vec(self.inner.short_message.as_slice())
    }

    pub fn protocol_name(&self) -> (name: &'static str)
        ensures
            name@ == "SMPP"@,
    {
        "SMPP"
    }
}

/// A delivered message.
#[derive(Debug, Clone)]
pub struct SmppDeliver {
    pub inner: DeliverSm,
}

impl SmppDeliver {
    pub fn new(inner: DeliverSm) -> (deliver: Self)
        ensures
            deliver.inner == inner,
    {
        SmppDeliver { inner }
    }

    pub fn inner(&self) -> (inner: &DeliverSm)
        ensures
            *inner == self.inner,
    {
        &self.inner
    }

    pub fn into_inner(self) -> (inner: DeliverSm)
        ensures
            inner == self.inner,
    {
        self.inner
    }

    /// Whether the message is a delivery receipt of the message center.
    pub fn is_report(&self) -> (yes: bool)
        ensures
            yes == adapter::is_receipt(self.inner.esm_class),
    {
        self.inner.esm_class & 0x04 != 0
    }

    /// What stands for the id: both numbers, each with blanks up to 21 characters.
    pub fn msg_id(&self) -> (id: String)
        ensures
            id@ == text::padded(self.inner.source_addr@, 21) + ":"@ + text::padded(
                self.inner.destination_addr@,
                21,
            ),
    {
        let mut id = text::pad(self.inner.source_addr.as_str(), 21);
        id.append(":");
        id.append(text::pad(self.inner.destination_addr.as_str(), 21).as_str());
        id
    }

    pub fn src_terminal_id(&self) -> (id: String)
        ensures
            id@ == self.inner.source_addr@,
    {
        self.inner.source_addr.clone()
    }

    pub fn content(&self) -> (content: Vec<u8>)
        ensures
            content@ == self.inner.short_message@,
    {
        slice_to_vec(self.inner.short_message.as_slice())
    }
}

impl From<DeliverSm> for SmppDeliver {
    fn from(d: DeliverSm) -> (deliver: Self) {
        SmppDeliver { inner: d }
    }
}

impl FromSpecImpl<DeliverSm> for SmppDeliver {
    open spec fn obeys_from_spec() -> bool {
        true
    }

    open spec fn from_spec(d: DeliverSm) -> SmppDeliver {
        SmppDeliver { inner: d }
    }
}

impl From<SmppDeliver> for DeliverSm {
    fn from(d: SmppDeliver) -> (deliver: Self) {
        d.inner
    }
}

impl FromSpecImpl<SmppDeliver> for DeliverSm {
    open spec fn obeys_from_spec() -> bool {
        true
    }

    open spec fn from_spec(d: SmppDeliver) -> DeliverSm {
        d.inner
    }
}

pub type SmppTransactionManager = TransactionManager;

/// Who sends a submitted message, to whom, and what: its fields as they are, and of several numbers
/// the first.
pub proof fn law_submit_parts(m: SmppSubmit, src: String, dest: String, content: Vec<u8>)
    requires
        call_ensures(SmppSubmit::src_id, (&m,), src),
        call_ensures(SmppSubmit::dest_id, (&m,), dest),
        call_ensures(SmppSubmit::content, (&m,), content),
    ensures
        src@ == m.inner.source_addr@,
        dest@ == m.inner.destination_addr@,
        content@ == m.inner.short_message@,
{
}

/// Who sends a delivered message, what, and whether it is a report.
pub proof fn law_deliver_parts(m: SmppDeliver, src: String, content: Vec<u8>, report: bool)
    requires
        call_ensures(SmppDeliver::src_terminal_id, (&m,), src),
        call_ensures(SmppDeliver::content, (&m,), content),
        call_ensures(SmppDeliver::is_report, (&m,), report),
    ensures
        src@ == m.inner.source_addr@,
        content@ == m.inner.short_message@,
        report <==> m.inner.esm_class / 4 % 2 == 1,
{
    let class = m.inner.esm_class;
    assert(class & 0x04 != 0 <==> class / 4 % 2 == 1) by (bit_vector);
}

/// What stands for an id, digit by digit: sixteen zeros, two digits each for the first bytes of the
/// sender, of the receiver and of the content and for the length of the content, and eight zeros.
pub proof fn law_provisional_id(src: Seq<u8>, dest: Seq<u8>, content: Seq<u8>)
    ensures
        ({
            let id = provisional_id(src, dest, content);
            &&& id.len() == 32
            &&& forall|i: int| 0 <= i < 16 || 24 <= i < 32 ==> #[trigger] id[i] == '0'
            &&& src.len() > 0 ==> text::digit_value(id[16]) * 16 + text::digit_value(id[17])
                == src[0]
            &&& src.len() == 0 ==> id[16] == '3' && id[17] == '0'
            &&& dest.len() > 0 ==> text::digit_value(id[18]) * 16 + text::digit_value(id[19])
                == dest[0]
            &&& dest.len() == 0 ==> id[18] == '3' && id[19] == '0'
            &&& content.len() > 0 ==> text::digit_value(id[20]) * 16 + text::digit_value(id[21])
                == content[0]
            &&& content.len() == 0 ==> id[20] == '3' && id[21] == '0'
            &&& id[22] == '0'
            &&& text::digit_value(id[23]) == (if content.len() < 5 {
                content.len() as int
            } else {
                5int
            })
        }),
{
    let len = if content.len() < 5 {
        content.len() as u8
    } else {
        5u8
    };
    let bytes = seq![0u8, 0u8, 0u8, 0u8, 0u8, 0u8, 0u8, 0u8, first_byte(src), first_byte(dest),
        first_byte(content), len, 0u8, 0u8, 0u8, 0u8];
    let id = provisional_id(src, dest, content);
    assert(id == text::hex_bytes_chars(bytes));
    text::law_hex_bytes(bytes);
    assert(bytes.len() == 16);
    assert forall|i: int| 0 <= i < 16 || 24 <= i < 32 implies #[trigger] id[i] == '0' by {
        let k = i / 2;
        assert(bytes[k] == 0);
        assert(2 * k == i || 2 * k + 1 == i);
    }
    assert(bytes[8] == first_byte(src));
    assert(bytes[9] == first_byte(dest));
    assert(bytes[10] == first_byte(content));
    assert(bytes[11] == len);
}

} // verus!
