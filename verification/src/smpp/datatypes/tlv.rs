//! Optional parameters: a tag, a length and a value.

use crate::smpp::codec;
use crate::smpp::codec::{CodecError, Encodable};
use crate::smpp::grammar::Written;
use crate::wire;
use bytes::{Bytes, BytesMut};
use std::io::Cursor;
use vstd::prelude::*;

verus! {

/// An optional parameter.
#[derive(Debug, Clone, PartialEq)]
pub struct Tlv {
    pub tag: u16,
    pub length: u16,
    pub value: Bytes,
}

/// An optional parameter as a mathematical value.
#[verifier::ext_equal]
pub struct TlvFields {
    pub tag: u16,
    pub length: u16,
    pub value: Seq<u8>,
}

impl View for Tlv {
    type V = TlvFields;

    open spec fn view(&self) -> TlvFields {
        TlvFields { tag: self.tag, length: self.length, value: wire::shared_bytes(self.value) }
    }
}

impl TlvFields {
    /// The parameter with a value; its length is kept in 16 bits.
    pub open spec fn of(tag: u16, value: Seq<u8>) -> TlvFields {
        TlvFields { tag, length: (value.len() % 0x1_0000) as u16, value }
    }

    /// The length is that of the value.
    pub open spec fn wf(self) -> bool {
        self.length == self.value.len()
    }

    /// The parameter on the wire.
    pub open spec fn bytes(self) -> Seq<u8> {
        wire::be16_bytes(self.tag) + wire::be16_bytes(self.length) + self.value
    }

    /// Whether the bytes start with a whole parameter.
    pub open spec fn starts(s: Seq<u8>) -> bool {
        s.len() >= 4 && s.len() - 4 >= wire::be16(s.skip(2))
    }

    /// The parameter that the bytes start with.
    pub open spec fn read(s: Seq<u8>) -> TlvFields {
        TlvFields {
            tag: wire::be16(s),
            length: wire::be16(s.skip(2)),
            value: s.skip(4).take(wire::be16(s.skip(2)) as int),
        }
    }

    /// What reading a parameter leaves. Of one whose value is cut, tag and length are gone.
    pub open spec fn rest(s: Seq<u8>) -> Seq<u8> {
        if s.len() < 4 {
            s
        } else if Self::starts(s) {
            s.skip(4).skip(wire::be16(s.skip(2)) as int)
        } else {
            s.skip(4)
        }
    }

    /// The parameters that the bytes start with, up to the first that is not whole.
    pub open spec fn series(s: Seq<u8>) -> Seq<TlvFields>
        decreases s.len(),
    {
        if Self::starts(s) {
            seq![Self::read(s)] + Self::series(Self::rest(s))
        } else {
            Seq::empty()
        }
    }

    /// What reading parameters as long as they are whole leaves.
    pub open spec fn series_rest(s: Seq<u8>) -> Seq<u8>
        decreases s.len(),
    {
        if Self::starts(s) {
            Self::series_rest(Self::rest(s))
        } else {
            Self::rest(s)
        }
    }
}

/// Parameters on the wire, one after the other.
pub open spec fn tlv_bytes(tlvs: Seq<TlvFields>) -> Seq<u8>
    decreases tlvs.len(),
{
    if tlvs.len() == 0 {
        Seq::empty()
    } else {
        tlv_bytes(tlvs.drop_last()) + tlvs.last().bytes()
    }
}

/// Parameters as mathematical values.
pub open spec fn tlv_views(tlvs: Seq<Tlv>) -> Seq<TlvFields> {
    Seq::new(tlvs.len(), |i: int| tlvs[i]@)
}

impl Tlv {
    pub fn new(tag: u16, value: Vec<u8>) -> (tlv: Self)
        ensures
            tlv@ == TlvFields::of(tag, value@),
    {
        let length: u16 = (value.len() % 0x1_0000) as u16;
        Tlv { tag, length, value: wire::share_vec(value) }
    }

    /// The parameter on the wire.
    pub fn to_bytes(&self) -> (bytes: Bytes)
        ensures
            wire::shared_bytes(bytes) == self@.bytes(),
    {
        let mut buf = wire::new_buffer();
        let res = self.encode(&mut buf);
        assert(wire::buffer_bytes(buf) =~= self@.bytes());
        wire::freeze(buf)
    }

    /// Reads a parameter.
    pub fn decode(buf: &mut Cursor<&[u8]>) -> (res: Result<Self, CodecError>)
        ensures
            res is Ok <==> TlvFields::starts(wire::cursor_rest(*old(buf))),
            res matches Ok(tlv) ==> tlv@ == TlvFields::read(wire::cursor_rest(*old(buf))),
            res matches Err(e) ==> e is Incomplete,
            wire::cursor_rest(*final(buf)) == TlvFields::rest(wire::cursor_rest(*old(buf))),
    {
        let ghost all = wire::cursor_rest(*buf);
        if wire::remaining(buf) < 4 {
            return Err(CodecError::Incomplete);
        }
        let tag: u16 = wire::get_u16(buf);
        let length: u16 = wire::get_u16(buf);
        assert(all.skip(2).skip(2) =~= all.skip(4));
        if wire::remaining(buf) < length as usize {
            return Err(CodecError::Incomplete);
        }
        let mut value_bytes: Vec<u8> = vec![0u8; length as usize];
        wire::copy_to_slice(buf, &mut value_bytes);
        Ok(Tlv { tag, length, value: wire::share_vec(value_bytes) })
    }

    /// Reads parameters as long as they are whole.
    pub(crate) fn decode_series(buf: &mut Cursor<&[u8]>) -> (tlvs: Vec<Tlv>)
        ensures
            tlv_views(tlvs@) == TlvFields::series(wire::cursor_rest(*old(buf))),
            wire::cursor_rest(*final(buf)) == TlvFields::series_rest(wire::cursor_rest(*old(buf))),
    {
        let ghost all = wire::cursor_rest(*buf);
        let mut tlvs: Vec<Tlv> = Vec::new();
        let mut whole: bool = true;
        proof {
            assert(tlv_views(tlvs@) + TlvFields::series(all) =~= TlvFields::series(all));
        }
        while whole && wire::remaining(buf) > 0
            invariant
                whole ==> tlv_views(tlvs@) + TlvFields::series(wire::cursor_rest(*buf))
                    == TlvFields::series(all),
                whole ==> TlvFields::series_rest(wire::cursor_rest(*buf))
                    == TlvFields::series_rest(all),
                !whole ==> tlv_views(tlvs@) == TlvFields::series(all) && wire::cursor_rest(*buf)
                    == TlvFields::series_rest(all),
            decreases wire::cursor_rest(*buf).len() + (if whole { 1int } else { 0int }),
        {
            let ghost rest = wire::cursor_rest(*buf);
            let ghost before = tlv_views(tlvs@);
            match Tlv::decode(buf) {
                Ok(tlv) => {
                    let ghost fields = tlv@;
                    tlvs.push(tlv);
                    proof {
                        assert(tlv_views(tlvs@) =~= before.push(fields));
                        assert(before + TlvFields::series(rest) =~= before.push(fields)
                            + TlvFields::series(wire::cursor_rest(*buf)));
                    }
                },
                Err(_) => {
                    proof {
                        assert(before + TlvFields::series(rest) =~= before);
                    }
                    whole = false;
                },
            }
        }
        proof {
            if whole {
                assert(tlv_views(tlvs@) + TlvFields::series(wire::cursor_rest(*buf))
                    =~= tlv_views(tlvs@));
            }
        }
        tlvs
    }
}

impl Encodable for Tlv {
    open spec fn written(&self) -> Written {
        Written::new().raw(self@.bytes())
    }

    open spec fn size(&self) -> nat {
        4 + wire::shared_bytes(self.value).len()
    }

    fn encode(&self, buf: &mut BytesMut) -> Result<(), CodecError> {
        let ghost before = wire::buffer_bytes(*buf);
        wire::put_u16(buf, self.tag);
        wire::put_u16(buf, self.length);
        wire::put_slice(buf, wire::shared_slice(&self.value));
        assert(wire::buffer_bytes(*buf) =~= before + self.written().bytes);
        Ok(())
    }

    fn encoded_size(&self) -> usize {
        4 + wire::shared_slice(&self.value).len()
    }
}

/// A parameter whose length is that of its value, written and read back, is the parameter, and
/// what follows it is left to read.
pub proof fn law_tlv_roundtrip(tlv: TlvFields, tail: Seq<u8>)
    requires
        tlv.wf(),
    ensures
        TlvFields::starts(tlv.bytes() + tail),
        TlvFields::read(tlv.bytes() + tail) == tlv,
        TlvFields::rest(tlv.bytes() + tail) == tail,
{
    let a = wire::be16_bytes(tlv.tag);
    let b = wire::be16_bytes(tlv.length);
    let all = tlv.bytes() + tail;
    assert(all =~= a + (b + tlv.value + tail));
    wire::law_be16_roundtrip(tlv.tag, b + tlv.value + tail);
    assert(all.skip(2) =~= b + (tlv.value + tail));
    wire::law_be16_roundtrip(tlv.length, tlv.value + tail);
    assert(all.skip(4) =~= tlv.value + tail);
    assert((tlv.value + tail).take(tlv.length as int) =~= tlv.value);
    assert((tlv.value + tail).skip(tlv.length as int) =~= tail);
}

/// A value of at most 65535 bytes makes a parameter whose length is that of its value.
pub proof fn law_new_tlv_is_whole(tag: u16, value: Seq<u8>)
    requires
        value.len() < 0x1_0000,
    ensures
        TlvFields::of(tag, value).wf(),
{
}

proof fn lemma_tlv_bytes_front(tlvs: Seq<TlvFields>)
    requires
        tlvs.len() > 0,
    ensures
        tlv_bytes(tlvs) == tlvs[0].bytes() + tlv_bytes(tlvs.skip(1)),
    decreases tlvs.len(),
{
    let init = tlvs.drop_last();
    if init.len() == 0 {
        assert(tlv_bytes(init) =~= Seq::<u8>::empty());
        assert(tlvs.skip(1) =~= Seq::<TlvFields>::empty());
        assert(tlv_bytes(tlvs) =~= tlvs[0].bytes() + tlv_bytes(tlvs.skip(1)));
    } else {
        lemma_tlv_bytes_front(init);
        assert(init.skip(1) =~= tlvs.skip(1).drop_last());
        assert(tlvs.skip(1).last() == tlvs.last());
        assert(tlv_bytes(tlvs) =~= tlvs[0].bytes() + tlv_bytes(tlvs.skip(1)));
    }
}

/// Parameters whose lengths are those of their values, written one after the other and read
/// back, are the parameters.
pub proof fn law_tlv_series_roundtrip(tlvs: Seq<TlvFields>)
    requires
        forall|i: int| 0 <= i < tlvs.len() ==> (#[trigger] tlvs[i]).wf(),
    ensures
        TlvFields::series(tlv_bytes(tlvs)) == tlvs,
        TlvFields::series_rest(tlv_bytes(tlvs)) == Seq::<u8>::empty(),
    decreases tlvs.len(),
{
    if tlvs.len() == 0 {
        assert(TlvFields::series(tlv_bytes(tlvs)) =~= tlvs);
    } else {
        let rest = tlvs.skip(1);
        assert forall|i: int| 0 <= i < rest.len() implies (#[trigger] rest[i]).wf() by {
            assert(rest[i] == tlvs[i + 1]);
        }
        law_tlv_series_roundtrip(rest);
        lemma_tlv_bytes_front(tlvs);
        law_tlv_roundtrip(tlvs[0], tlv_bytes(rest));
        assert(seq![tlvs[0]] + rest =~= tlvs);
    }
}

/// A parameter on the wire: its tag and its length in two bytes each, the high one first, and its
/// value. Parameters follow each other without a gap.
pub proof fn law_tlv_on_wire(tag: u16, value: Seq<u8>, more: Seq<TlvFields>)
    requires
        value.len() < 65536,
    ensures
        TlvFields::of(tag, value).bytes() == seq![
            (tag / 256) as u8,
            (tag % 256) as u8,
            (value.len() / 256) as u8,
            (value.len() % 256) as u8,
        ] + value,
        tlv_bytes(seq![TlvFields::of(tag, value)] + more) == TlvFields::of(tag, value).bytes()
            + tlv_bytes(more),
        tlv_bytes(Seq::empty()) == Seq::<u8>::empty(),
        TlvFields::of(tag, value).tag == tag,
        TlvFields::of(tag, value).value == value,
{
    assert(TlvFields::of(tag, value).bytes() =~= seq![
        (tag / 256) as u8,
        (tag % 256) as u8,
        (value.len() / 256) as u8,
        (value.len() % 256) as u8,
    ] + value);
    let all = seq![TlvFields::of(tag, value)] + more;
    assert(all.skip(1) =~= more);
    lemma_tlv_bytes_front(all);
}

/// What bytes are read as: parameters one after the other, until one is not whole.
pub proof fn law_tlv_by_bytes(s: Seq<u8>)
    ensures
        ({
            let len = s[2] * 256 + s[3];
            &&& s.len() >= 4 && s.len() >= 4 + len ==> TlvFields::series(s) == seq![
                TlvFields {
                    tag: (s[0] * 256 + s[1]) as u16,
                    length: len as u16,
                    value: s.subrange(4, 4 + len),
                },
            ] + TlvFields::series(s.subrange(4 + len, s.len() as int))
            &&& s.len() < 4 || s.len() < 4 + len ==> TlvFields::series(s).len() == 0
        }),
{
    let len = s[2] * 256 + s[3];
    if s.len() >= 4 && s.len() >= 4 + len {
        assert(s.skip(4).take(len) =~= s.subrange(4, 4 + len));
        assert(s.skip(4).skip(len) =~= s.subrange(4 + len, s.len() as int));
    }
}

} // verus!
