//! Cutting frames out of a byte stream, and putting a header in front of a body.

use crate::encoded_pdu;
use crate::encoded_pdu::RawPdu;
use crate::frame;
use crate::frame::{Frame, FrameModel};
use crate::protocol::Protocol;
use crate::wire;
use vstd::prelude::*;
use vstd::slice::{slice_subrange, slice_to_vec};

verus! {

/// No frame is longer than this.
pub const MAX_FRAME_LEN: usize = 100_000;

/// What the front of a stream says: how long its first frame is.
pub open spec fn announced(stream: Seq<u8>) -> int {
    wire::be32(stream) as int
}

/// Whether a frame can have this length. A length that none can have means that the stream is
/// out of step: its first byte is skipped, and the next one tried.
pub open spec fn plausible(len: int, min_len: int) -> bool {
    min_len <= len <= MAX_FRAME_LEN
}

/// The complete frames of a stream, each as its bytes.
pub open spec fn cut(stream: Seq<u8>, min_len: int) -> Seq<Seq<u8>>
    decreases stream.len(),
{
    if stream.len() < 4 || min_len < 1 {
        Seq::empty()
    } else if !plausible(announced(stream), min_len) {
        cut(stream.skip(1), min_len)
    } else if announced(stream) > stream.len() {
        Seq::empty()
    } else {
        seq![stream.take(announced(stream))] + cut(stream.skip(announced(stream)), min_len)
    }
}

/// What is left of a stream behind its complete frames: the start of the next one.
pub open spec fn rest(stream: Seq<u8>, min_len: int) -> Seq<u8>
    decreases stream.len(),
{
    if stream.len() < 4 || min_len < 1 {
        stream
    } else if !plausible(announced(stream), min_len) {
        rest(stream.skip(1), min_len)
    } else if announced(stream) > stream.len() {
        stream
    } else {
        rest(stream.skip(announced(stream)), min_len)
    }
}

/// The integer at `at`, or 0 where the bytes do not reach that far.
pub open spec fn field_or_zero(data: Seq<u8>, at: int) -> u32 {
    match encoded_pdu::field32(data, at) {
        Some(value) => value,
        None => 0,
    }
}

/// The frame of these bytes, with its command from offset 4 and its sequence number from
/// `sequence_at`.
pub open spec fn framed(data: Seq<u8>, sequence_at: int) -> FrameModel {
    FrameModel {
        command_id: field_or_zero(data, 4),
        sequence_id: field_or_zero(data, sequence_at),
        data,
    }
}

/// The complete frames of a stream.
pub open spec fn frames_in(stream: Seq<u8>, min_len: int, sequence_at: int) -> Seq<FrameModel> {
    cut(stream, min_len).map_values(|data: Seq<u8>| framed(data, sequence_at))
}

fn field(data: &[u8], at: usize) -> (value: u32)
    requires
        at <= 100,
    ensures
        value == field_or_zero(data@, at as int),
{
    if data.len() >= at + 4 {
        wire::read_be32(data, at)
    } else {
        0
    }
}

/// Takes the complete frames from the front of a stream. What is left is the start of the next
/// frame.
pub(crate) fn cut_frames(buf: &mut Vec<u8>, min_len: usize, sequence_at: usize) -> (frames: Vec<
    Frame,
>)
    requires
        1 <= min_len,
        sequence_at <= 100,
    ensures
        frame::frame_views(frames@) == frames_in(
            old(buf)@,
            min_len as int,
            sequence_at as int,
        ),
        final(buf)@ == rest(old(buf)@, min_len as int),
{
    let ghost stream = buf@;
    let mut frames: Vec<Frame> = Vec::new();
    let mut datas: Ghost<Seq<Seq<u8>>> = Ghost(Seq::empty());
    let mut off: usize = 0;
    let mut done = false;
    assert(stream.skip(0) =~= stream);
    assert(frame::frame_views(frames@) =~= datas@.map_values(
        |data: Seq<u8>| framed(data, sequence_at as int),
    ));
    assert(datas@ + cut(stream, min_len as int) =~= cut(stream, min_len as int));
    while !done && buf.len() - off >= 4
        invariant
            buf@ == stream,
            off <= stream.len(),
            1 <= min_len,
            sequence_at <= 100,
            frame::frame_views(frames@) == datas@.map_values(
                |data: Seq<u8>| framed(data, sequence_at as int),
            ),
            datas@ + cut(stream.skip(off as int), min_len as int) == cut(stream, min_len as int),
            rest(stream.skip(off as int), min_len as int) == rest(stream, min_len as int),
            done ==> stream.len() - off >= 4 && plausible(
                announced(stream.skip(off as int)),
                min_len as int,
            ) && announced(stream.skip(off as int)) > stream.len() - off,
        decreases stream.len() - off + if done { 0int } else { 1int },
    {
        let ghost here = stream.skip(off as int);
        let total: usize = wire::read_be32(buf.as_slice(), off) as usize;
        if total < min_len || total > MAX_FRAME_LEN {
            assert(here.skip(1) =~= stream.skip(off + 1));
            off = off + 1;
        } else if total > buf.len() - off {
            done = true;
        } else {
            let data = slice_to_vec(slice_subrange(buf.as_slice(), off, off + total));
            assert(data@ =~= here.take(total as int));
            let command_id: u32 = field(data.as_slice(), 4);
            let sequence_id: u32 = field(data.as_slice(), sequence_at);
            let ghost before = datas@;
            proof {
                datas@ = datas@.push(here.take(total as int));
                assert(here.skip(total as int) =~= stream.skip(off + total));
                assert(datas@ + cut(stream.skip(off + total), min_len as int) =~= before + cut(
                    here,
                    min_len as int,
                ));
            }
            off = off + total;
            let ghost frames_before = frame::frame_views(frames@);
            frames.push(Frame::new(command_id, sequence_id, RawPdu::from_vec(data)));
            assert(frame::frame_views(frames@) =~= frames_before.push(
                framed(here.take(total as int), sequence_at as int),
            ));
            assert(frame::frame_views(frames@) =~= datas@.map_values(
                |data: Seq<u8>| framed(data, sequence_at as int),
            ));
        }
    }
    assert(cut(stream.skip(off as int), min_len as int) =~= Seq::empty());
    assert(datas@ =~= cut(stream, min_len as int));
    let left = buf.split_off(off);
    assert(left@ =~= stream.skip(off as int));
    *buf = left;
    frames
}

/// A header with the length, the command and the sequence number, in front of a body.
pub open spec fn pdu12(command_id: u32, sequence_id: u32, body: Seq<u8>) -> Seq<u8> {
    wire::be32_bytes((12 + body.len()) as u32) + wire::be32_bytes(command_id) + wire::be32_bytes(
        sequence_id,
    ) + body
}

/// A header with the length, the command, the status and the sequence number, in front of a
/// body.
pub open spec fn pdu16(
    command_id: u32,
    status: u32,
    sequence_id: u32,
    body: Seq<u8>,
) -> Seq<u8> {
    wire::be32_bytes((16 + body.len()) as u32) + wire::be32_bytes(command_id) + wire::be32_bytes(
        status,
    ) + wire::be32_bytes(sequence_id) + body
}

/// That many zeros.
pub open spec fn zeros(count: nat) -> Seq<u8> {
    Seq::new(count, |i: int| 0u8)
}

/// A header with the length, the command and a sequence number of three zeros, in front of a
/// body.
pub open spec fn pdu20(command_id: u32, body: Seq<u8>) -> Seq<u8> {
    wire::be32_bytes((20 + body.len()) as u32) + wire::be32_bytes(command_id) + zeros(12) + body
}

pub(crate) fn push_zeros(data: &mut Vec<u8>, count: usize)
    ensures
        final(data)@ == old(data)@ + zeros(count as nat),
{
    let ghost before = data@;
    let mut i: usize = 0;
    assert(data@ =~= before + zeros(0));
    while i < count
        invariant
            i <= count,
            data@ == before + zeros(i as nat),
        decreases count - i,
    {
        data.push(0);
        assert(data@ =~= before + zeros((i + 1) as nat));
        i = i + 1;
    }
}

/// A header of 12 bytes in front of a body.
pub fn encode_pdu12(command_id: u32, sequence_id: u32, body: &[u8]) -> (pdu: Vec<u8>)
    requires
        body@.len() <= u32::MAX - 12,
    ensures
        pdu@ == pdu12(command_id, sequence_id, body@),
{
    let mut pdu: Vec<u8> = Vec::new();
    wire::push_be32(&mut pdu, 12 + body.len() as u32);
    wire::push_be32(&mut pdu, command_id);
    wire::push_be32(&mut pdu, sequence_id);
    pdu.extend_from_slice(body);
    assert(pdu@ =~= pdu12(command_id, sequence_id, body@));
    pdu
}

/// A header of 16 bytes in front of a body.
pub fn encode_pdu16(command_id: u32, status: u32, sequence_id: u32, body: &[u8]) -> (pdu: Vec<u8>)
    requires
        body@.len() <= u32::MAX - 16,
    ensures
        pdu@ == pdu16(command_id, status, sequence_id, body@),
{
    let mut pdu: Vec<u8> = Vec::new();
    wire::push_be32(&mut pdu, 16 + body.len() as u32);
    wire::push_be32(&mut pdu, command_id);
    wire::push_be32(&mut pdu, status);
    wire::push_be32(&mut pdu, sequence_id);
    pdu.extend_from_slice(body);
    assert(pdu@ =~= pdu16(command_id, status, sequence_id, body@));
    pdu
}

/// A header of 20 bytes in front of a body.
pub fn encode_pdu20(command_id: u32, body: &[u8]) -> (pdu: Vec<u8>)
    requires
        body@.len() <= u32::MAX - 20,
    ensures
        pdu@ == pdu20(command_id, body@),
{
    let mut pdu: Vec<u8> = Vec::new();
    wire::push_be32(&mut pdu, 20 + body.len() as u32);
    wire::push_be32(&mut pdu, command_id);
    push_zeros(&mut pdu, 12);
    pdu.extend_from_slice(body);
    assert(pdu@ =~= pdu20(command_id, body@));
    pdu
}

/// The sequence number of a PDU, if it is long enough to have one.
pub open spec fn sequence_in(pdu: Seq<u8>, protocol: Protocol) -> Option<u32> {
    encoded_pdu::field32(pdu, protocol.sequence_at() as int)
}

/// The sequence number of a PDU, if it is long enough to have one.
pub fn pdu_sequence(pdu: &[u8], protocol: Protocol) -> (sequence_id: Option<u32>)
    ensures
        sequence_id == sequence_in(pdu@, protocol),
{
    let at: usize = protocol.seq_offset();
    if pdu.len() >= at + 4 {
        Some(wire::read_be32(pdu, at))
    } else {
        None
    }
}

/// A stream may arrive in pieces: cutting the frames as the pieces come in, and keeping what is
/// left over for the next piece, gives the same frames and the same rest as cutting the whole.
pub proof fn law_pieces(first: Seq<u8>, second: Seq<u8>, min_len: int)
    requires
        min_len >= 1,
    ensures
        cut(first + second, min_len) == cut(first, min_len) + cut(
            rest(first, min_len) + second,
            min_len,
        ),
        rest(first + second, min_len) == rest(rest(first, min_len) + second, min_len),
    decreases first.len(),
{
    let whole = first + second;
    if first.len() >= 4 {
        assert(announced(whole) == announced(first));
        let n = announced(first);
        if !plausible(n, min_len) {
            law_pieces(first.skip(1), second, min_len);
            assert(whole.skip(1) =~= first.skip(1) + second);
        } else if n <= first.len() {
            law_pieces(first.skip(n), second, min_len);
            assert(whole.skip(n) =~= first.skip(n) + second);
            assert(whole.take(n) =~= first.take(n));
            assert(cut(whole, min_len) =~= cut(first, min_len) + cut(
                rest(first, min_len) + second,
                min_len,
            ));
        } else {
            assert(cut(whole, min_len) =~= cut(first, min_len) + cut(whole, min_len));
        }
    } else {
        assert(cut(whole, min_len) =~= cut(first, min_len) + cut(whole, min_len));
    }
}

/// Whether bytes are one frame: as long as they say, and of a length that a frame can have.
pub open spec fn well_formed(frame: Seq<u8>, min_len: int) -> bool {
    frame.len() >= 4 && announced(frame) == frame.len() && plausible(frame.len() as int, min_len)
}

/// Every frame that is cut out is as long as it says, and of a length that a frame can have.
pub proof fn law_cut_is_well_formed(stream: Seq<u8>, min_len: int, i: int)
    requires
        min_len >= 4,
        0 <= i < cut(stream, min_len).len(),
    ensures
        well_formed(cut(stream, min_len)[i], min_len),
    decreases stream.len(),
{
    let n = announced(stream);
    if !plausible(n, min_len) {
        law_cut_is_well_formed(stream.skip(1), min_len, i);
    } else {
        let head = stream.take(n);
        assert(announced(head) == n);
        if i > 0 {
            law_cut_is_well_formed(stream.skip(n), min_len, i - 1);
        }
    }
}

/// Frames one behind the other.
pub open spec fn joined(frames: Seq<Seq<u8>>) -> Seq<u8>
    decreases frames.len(),
{
    if frames.len() == 0 {
        Seq::empty()
    } else {
        frames[0] + joined(frames.skip(1))
    }
}

/// Frames sent one behind the other are cut out again as they were, with nothing left.
pub proof fn law_joined_then_cut(frames: Seq<Seq<u8>>, min_len: int)
    requires
        min_len >= 1,
        forall|i: int| 0 <= i < frames.len() ==> well_formed(#[trigger] frames[i], min_len),
    ensures
        cut(joined(frames), min_len) == frames,
        rest(joined(frames), min_len) == Seq::<u8>::empty(),
    decreases frames.len(),
{
    if frames.len() > 0 {
        let tail = frames.skip(1);
        assert forall|i: int| 0 <= i < tail.len() implies well_formed(
            #[trigger] tail[i],
            min_len,
        ) by {
            assert(tail[i] == frames[i + 1]);
        }
        law_joined_then_cut(tail, min_len);
        let stream = joined(frames);
        assert(well_formed(frames[0], min_len));
        let n = frames[0].len() as int;
        assert(announced(stream) == announced(frames[0]));
        assert(stream.take(n) =~= frames[0]);
        assert(stream.skip(n) =~= joined(tail));
        assert(cut(stream, min_len) =~= frames);
    } else {
        assert(cut(joined(frames), min_len) =~= frames);
    }
}

/// What is left over is shorter than the longest frame, so the buffer of a reader that cuts
/// whenever bytes come in stays small.
pub proof fn law_rest_is_short(stream: Seq<u8>, min_len: int)
    requires
        min_len >= 1,
    ensures
        rest(stream, min_len).len() < MAX_FRAME_LEN,
    decreases stream.len(),
{
    if stream.len() >= 4 {
        let n = announced(stream);
        if !plausible(n, min_len) {
            law_rest_is_short(stream.skip(1), min_len);
        } else if n <= stream.len() {
            law_rest_is_short(stream.skip(n), min_len);
        }
    }
}

/// A PDU with a header of 12 bytes is a frame for the protocols with such headers, and its
/// command and sequence number are read back from it.
pub proof fn law_pdu12_is_frame(command_id: u32, sequence_id: u32, body: Seq<u8>)
    requires
        12 + body.len() <= MAX_FRAME_LEN,
    ensures
        well_formed(pdu12(command_id, sequence_id, body), 12),
        field_or_zero(pdu12(command_id, sequence_id, body), 4) == command_id,
        field_or_zero(pdu12(command_id, sequence_id, body), 8) == sequence_id,
{
    let pdu = pdu12(command_id, sequence_id, body);
    let len = wire::be32_bytes((12 + body.len()) as u32);
    let command = wire::be32_bytes(command_id);
    let sequence = wire::be32_bytes(sequence_id);
    assert(pdu =~= len + (command + (sequence + body)));
    wire::law_be32_roundtrip((12 + body.len()) as u32, command + (sequence + body));
    wire::law_be32_roundtrip(command_id, sequence + body);
    wire::law_be32_roundtrip(sequence_id, body);
    assert(pdu.skip(4) =~= command + (sequence + body));
    assert(pdu.skip(8) =~= sequence + body);
}

/// A PDU with a header of 16 bytes is a frame for the protocols with such headers, and its
/// command and sequence number are read back from it.
pub proof fn law_pdu16_is_frame(command_id: u32, status: u32, sequence_id: u32, body: Seq<u8>)
    requires
        16 + body.len() <= MAX_FRAME_LEN,
    ensures
        well_formed(pdu16(command_id, status, sequence_id, body), 16),
        field_or_zero(pdu16(command_id, status, sequence_id, body), 4) == command_id,
        field_or_zero(pdu16(command_id, status, sequence_id, body), 12) == sequence_id,
{
    let pdu = pdu16(command_id, status, sequence_id, body);
    let len = wire::be32_bytes((16 + body.len()) as u32);
    let command = wire::be32_bytes(command_id);
    let state = wire::be32_bytes(status);
    let sequence = wire::be32_bytes(sequence_id);
    assert(pdu =~= len + (command + (state + (sequence + body))));
    wire::law_be32_roundtrip((16 + body.len()) as u32, command + (state + (sequence + body)));
    wire::law_be32_roundtrip(command_id, state + (sequence + body));
    wire::law_be32_roundtrip(sequence_id, body);
    assert(pdu.skip(4) =~= command + (state + (sequence + body)));
    assert(pdu.skip(12) =~= sequence + body);
}

/// A PDU with a header of 20 bytes is a frame for the protocols with such headers, and its
/// command is read back from it.
pub proof fn law_pdu20_is_frame(command_id: u32, body: Seq<u8>)
    requires
        20 + body.len() <= MAX_FRAME_LEN,
    ensures
        well_formed(pdu20(command_id, body), 20),
        field_or_zero(pdu20(command_id, body), 4) == command_id,
        field_or_zero(pdu20(command_id, body), 12) == 0,
{
    let pdu = pdu20(command_id, body);
    let len = wire::be32_bytes((20 + body.len()) as u32);
    let command = wire::be32_bytes(command_id);
    assert(pdu =~= len + (command + (zeros(12) + body)));
    wire::law_be32_roundtrip((20 + body.len()) as u32, command + (zeros(12) + body));
    wire::law_be32_roundtrip(command_id, zeros(12) + body);
    assert(pdu.skip(4) =~= command + (zeros(12) + body));
    assert(pdu.skip(12)[0] == 0 && pdu.skip(12)[1] == 0 && pdu.skip(12)[2] == 0 && pdu.skip(12)[3]
        == 0);
}

/// How a stream is cut, by its bytes. Its first four bytes say how long its first frame is, the
/// high one first. Of a length of at least `min_len` and at most 100000 bytes the frame is taken if
/// it is all there, and else waited for; any other length makes the first byte skipped.
pub proof fn law_cut_by_bytes(s: Seq<u8>, min_len: int)
    requires
        min_len >= 4,
    ensures
        s.len() < 4 ==> cut(s, min_len).len() == 0 && rest(s, min_len) == s,
        s.len() >= 4 ==> {
            let len = s[0] * 16777216 + s[1] * 65536 + s[2] * 256 + s[3];
            &&& min_len <= len <= 100000 && len <= s.len() ==> cut(s, min_len) == seq![
                s.subrange(0, len),
            ] + cut(s.subrange(len, s.len() as int), min_len) && rest(s, min_len) == rest(
                s.subrange(len, s.len() as int),
                min_len,
            )
            &&& min_len <= len <= 100000 && len > s.len() ==> cut(s, min_len).len() == 0 && rest(
                s,
                min_len,
            ) == s
            &&& len < min_len || len > 100000 ==> cut(s, min_len) == cut(
                s.subrange(1, s.len() as int),
                min_len,
            ) && rest(s, min_len) == rest(s.subrange(1, s.len() as int), min_len)
        },
{
    wire::law_high_byte_first(0, 0, s);
    if s.len() >= 4 {
        let len = s[0] * 16777216 + s[1] * 65536 + s[2] * 256 + s[3];
        assert(s.skip(1) =~= s.subrange(1, s.len() as int));
        if len <= s.len() {
            assert(s.take(len) =~= s.subrange(0, len));
            assert(s.skip(len) =~= s.subrange(len, s.len() as int));
        }
    }
}

/// What a frame is made of: all its bytes, the command that they hold at byte 4, and the sequence
/// number that they hold where the protocol keeps it; what they do not reach is 0. The frames are
/// in the order of the stream.
pub proof fn law_frame_by_bytes(s: Seq<u8>, min_len: int, at: int, i: int)
    requires
        0 <= at,
        0 <= i < cut(s, min_len).len(),
    ensures
        frames_in(s, min_len, at).len() == cut(s, min_len).len(),
        ({
            let f = frames_in(s, min_len, at)[i];
            let d = cut(s, min_len)[i];
            &&& f.data == d
            &&& d.len() >= 8 ==> f.command_id == d[4] * 16777216 + d[5] * 65536 + d[6] * 256 + d[7]
            &&& d.len() < 8 ==> f.command_id == 0
            &&& d.len() >= at + 4 ==> f.sequence_id == d[at] * 16777216 + d[at + 1] * 65536 + d[at
                + 2] * 256 + d[at + 3]
            &&& d.len() < at + 4 ==> f.sequence_id == 0
        }),
{
    let d = cut(s, min_len)[i];
    if d.len() >= 8 {
        wire::law_high_byte_first(0, 0, d.skip(4));
    }
    if d.len() >= at + 4 {
        wire::law_high_byte_first(0, 0, d.skip(at));
    }
}

/// Headers by their bytes: the length and the command in four bytes each, then the sequence
/// number, or the status and the sequence number, or twelve zeros, and then the body.
pub proof fn law_headers_by_bytes(
    command_id: u32,
    status: u32,
    sequence_id: u32,
    body: &[u8],
    a: Vec<u8>,
    b: Vec<u8>,
    c: Vec<u8>,
)
    requires
        body@.len() <= u32::MAX - 20,
        call_ensures(encode_pdu12, (command_id, sequence_id, body), a),
        call_ensures(encode_pdu16, (command_id, status, sequence_id, body), b),
        call_ensures(encode_pdu20, (command_id, body), c),
    ensures
        a@.len() == 12 + body@.len(),
        b@.len() == 16 + body@.len(),
        c@.len() == 20 + body@.len(),
        a@[0] * 16777216 + a@[1] * 65536 + a@[2] * 256 + a@[3] == a@.len(),
        b@[0] * 16777216 + b@[1] * 65536 + b@[2] * 256 + b@[3] == b@.len(),
        c@[0] * 16777216 + c@[1] * 65536 + c@[2] * 256 + c@[3] == c@.len(),
        a@[4] * 16777216 + a@[5] * 65536 + a@[6] * 256 + a@[7] == command_id,
        b@[4] * 16777216 + b@[5] * 65536 + b@[6] * 256 + b@[7] == command_id,
        c@[4] * 16777216 + c@[5] * 65536 + c@[6] * 256 + c@[7] == command_id,
        a@[8] * 16777216 + a@[9] * 65536 + a@[10] * 256 + a@[11] == sequence_id,
        b@[8] * 16777216 + b@[9] * 65536 + b@[10] * 256 + b@[11] == status,
        b@[12] * 16777216 + b@[13] * 65536 + b@[14] * 256 + b@[15] == sequence_id,
        forall|i: int| 8 <= i < 20 ==> #[trigger] c@[i] == 0,
        a@.subrange(12, a@.len() as int) == body@,
        b@.subrange(16, b@.len() as int) == body@,
        c@.subrange(20, c@.len() as int) == body@,
{
    wire::law_high_byte_first(0, (12 + body@.len()) as u32, Seq::empty());
    wire::law_high_byte_first(0, (16 + body@.len()) as u32, Seq::empty());
    wire::law_high_byte_first(0, (20 + body@.len()) as u32, Seq::empty());
    wire::law_high_byte_first(0, command_id, Seq::empty());
    wire::law_high_byte_first(0, status, Seq::empty());
    wire::law_high_byte_first(0, sequence_id, Seq::empty());
    assert(a@.subrange(12, a@.len() as int) =~= body@);
    assert(b@.subrange(16, b@.len() as int) =~= body@);
    assert(c@.subrange(20, c@.len() as int) =~= body@);
}

/// Where the sequence number of a PDU is: at byte 8 in CMPP and SMGP, at byte 12 in SMPP and SGIP.
pub proof fn law_sequence_by_bytes(pdu: &[u8], protocol: Protocol, id: Option<u32>)
    requires
        call_ensures(pdu_sequence, (pdu, protocol), id),
    ensures
        ({
            let at: int = if protocol == Protocol::Cmpp || protocol == Protocol::Smgp {
                8
            } else {
                12
            };
            let s = pdu@;
            &&& s.len() < at + 4 ==> id is None
            &&& s.len() >= at + 4 ==> (id matches Some(n) && n == s[at] * 16777216 + s[at + 1]
                * 65536 + s[at + 2] * 256 + s[at + 3])
        }),
{
    if pdu@.len() >= 12 {
        wire::law_high_byte_first(0, 0, pdu@.skip(8));
    }
    if pdu@.len() >= 16 {
        wire::law_high_byte_first(0, 0, pdu@.skip(12));
    }
}

} // verus!
