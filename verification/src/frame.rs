//! A frame: a PDU with its command and sequence number at hand.

use crate::encoded_pdu::{EncodedPdu, RawPdu};
use crate::wire;
use vstd::prelude::*;
use vstd::std_specs::convert::FromSpecImpl;

verus! {

/// A PDU cut out of the byte stream.
#[derive(Debug)]
pub struct Frame {
    pub command_id: u32,
    pub sequence_id: u32,
    pub data: RawPdu,
}

/// A frame as a mathematical value.
#[verifier::ext_equal]
pub struct FrameModel {
    pub command_id: u32,
    pub sequence_id: u32,
    pub data: Seq<u8>,
}

impl View for Frame {
    type V = FrameModel;

    open spec fn view(&self) -> FrameModel {
        FrameModel {
            command_id: self.command_id,
            sequence_id: self.sequence_id,
            data: self.data@,
        }
    }
}

/// Frames as mathematical values.
pub open spec fn frame_views(frames: Seq<Frame>) -> Seq<FrameModel> {
    Seq::new(frames.len(), |i: int| frames[i]@)
}

impl Clone for Frame {
    fn clone(&self) -> (copy: Self)
        ensures
            copy@ == self@,
    {
        Frame {
            command_id: self.command_id,
            sequence_id: self.sequence_id,
            data: self.data.clone(),
        }
    }
}

impl Frame {
    pub fn new(command_id: u32, sequence_id: u32, data: RawPdu) -> (frame: Self)
        ensures
            frame == (Frame { command_id, sequence_id, data }),
    {
        Frame { command_id, sequence_id, data }
    }

    pub fn data_as_slice(&self) -> (data: &[u8])
        ensures
            data@ == self.data@,
    {
        self.data.as_slice()
    }

    pub fn len(&self) -> (len: usize)
        ensures
            len == self.data@.len(),
    {
        self.data.len()
    }

    pub fn is_empty(&self) -> (empty: bool)
        ensures
            empty == (self.data@.len() == 0),
    {
        self.data.is_empty()
    }
}

impl EncodedPdu for Frame {
    open spec fn wire_bytes(&self) -> Seq<u8> {
        self.data@
    }

    open spec fn sequence_of(&self) -> Option<u32> {
        Some(self.sequence_id)
    }

    open spec fn command_of(&self) -> Option<u32> {
        Some(self.command_id)
    }

    fn as_bytes(&self) -> &[u8] {
        self.data.as_slice()
    }

    fn sequence_id(&self) -> Option<u32> {
        Some(self.sequence_id)
    }

    fn command_id(&self) -> Option<u32> {
        Some(self.command_id)
    }
}

impl From<RawPdu> for Frame {
    /// Reads the command at offset 4 and the sequence number at offset 8; a PDU that is too
    /// short for both has zeros.
    fn from(pdu: RawPdu) -> (frame: Self) {
        if pdu.len() >= 12 {
            let command_id: u32 = wire::read_be32(pdu.as_slice(), 4);
            let sequence_id: u32 = wire::read_be32(pdu.as_slice(), 8);
            Frame::new(command_id, sequence_id, pdu)
        } else {
            Frame::new(0, 0, pdu)
        }
    }
}

impl FromSpecImpl<RawPdu> for Frame {
    open spec fn obeys_from_spec() -> bool {
        true
    }

    open spec fn from_spec(pdu: RawPdu) -> Frame {
        if pdu@.len() >= 12 {
            Frame {
                command_id: wire::be32(pdu@.skip(4)),
                sequence_id: wire::be32(pdu@.skip(8)),
                data: pdu,
            }
        } else {
            Frame { command_id: 0, sequence_id: 0, data: pdu }
        }
    }
}

/// A PDU becomes a frame of the same bytes, with the numbers at bytes 4 and 8; one that ends before
/// byte 12 has zeros.
pub proof fn law_frame_of_pdu(pdu: RawPdu)
    ensures
        ({
            let f = <Frame as vstd::std_specs::convert::FromSpec<RawPdu>>::from_spec(pdu);
            let s = pdu@;
            &&& f.data@ == s
            &&& f.wire_bytes() == s
            &&& f.command_of() == Some(f.command_id)
            &&& f.sequence_of() == Some(f.sequence_id)
            &&& s.len() < 12 ==> f.command_id == 0 && f.sequence_id == 0
            &&& s.len() >= 12 ==> f.command_id == s[4] * 16777216 + s[5] * 65536 + s[6] * 256
                + s[7] && f.sequence_id == s[8] * 16777216 + s[9] * 65536 + s[10] * 256 + s[11]
        }),
{
    if pdu@.len() >= 12 {
        wire::law_high_byte_first(0, 0, pdu@.skip(4));
        wire::law_high_byte_first(0, 0, pdu@.skip(8));
    }
}

/// A frame as a mathematical value has the same numbers and bytes, and frames keep their order.
pub proof fn law_frame_views(frames: Seq<Frame>, i: int)
    requires
        0 <= i < frames.len(),
    ensures
        frame_views(frames).len() == frames.len(),
        frame_views(frames)[i].command_id == frames[i].command_id,
        frame_views(frames)[i].sequence_id == frames[i].sequence_id,
        frame_views(frames)[i].data == frames[i].data@,
{
}

} // verus!
