//! Splitting long messages into segments.

use crate::longmsg::frame::{
    LongMessageFrame, Segment, UdhHeader, UdhParser, UDH_HEADER_16BIT_LEN, UDH_HEADER_8BIT_LEN,
};
use crate::longmsg::frame;
use crate::longmsg::reference_id;
use crate::longmsg::reference_id::{ReferenceIdGenerator, SeedDispenser};
use vstd::prelude::*;
use vstd::slice::{slice_subrange, slice_to_vec};

verus! {

/// The characters of a single message in the GSM 7 bit alphabet.
pub const GSM_7BIT_SINGLE_MAX: usize = 160;

/// The characters of a segment in the GSM 7 bit alphabet.
pub const GSM_7BIT_MULTI_MAX: usize = 153;

/// The characters of a single message in UCS-2.
pub const UCS2_SINGLE_MAX: usize = 70;

/// The characters of a segment in UCS-2.
pub const UCS2_MULTI_MAX: usize = 67;

/// The bit that says that a message starts with a user data header.
pub const TP_UDHI_MASK: u8 = 0x40;

/// The alphabet of a message, which decides how long a segment can be.
#[derive(Debug, Clone, Copy, PartialEq, Eq, Structural)]
pub enum SmsAlphabet {
    /// The GSM 7 bit alphabet.
    GSM7,
    /// ASCII, with the limits of the GSM 7 bit alphabet.
    ASCII,
    /// UCS-2 in big endian order.
    UCS2,
    /// Binary content, up to 134 bytes a segment.
    Binary,
}

/// Splits long messages. A reference above 255 gives headers with a 16 bit reference, others
/// headers with an 8 bit one.
#[derive(Debug)]
pub struct LongMessageSplitter {
    generator: ReferenceIdGenerator,
}

/// The longest segment of an alphabet, header included.
pub open spec fn segment_limit(alphabet: SmsAlphabet) -> nat {
    match alphabet {
        SmsAlphabet::GSM7 | SmsAlphabet::ASCII => GSM_7BIT_MULTI_MAX as nat,
        SmsAlphabet::UCS2 => UCS2_MULTI_MAX as nat,
        SmsAlphabet::Binary => 134,
    }
}

/// The header that a reference needs, its length byte included.
pub open spec fn header_len(reference: u16) -> nat {
    if reference > 255 {
        UDH_HEADER_16BIT_LEN as nat
    } else {
        UDH_HEADER_8BIT_LEN as nat
    }
}

/// How many bytes of the message a segment carries.
pub open spec fn piece_size(alphabet: SmsAlphabet, reference: u16) -> nat {
    (segment_limit(alphabet) - header_len(reference)) as nat
}

/// How many pieces of a size a message has.
pub open spec fn piece_count(len: nat, size: nat) -> nat {
    if len % size == 0 {
        len / size
    } else {
        len / size + 1
    }
}

/// The piece number `i` of a message, from 0 on.
pub open spec fn piece(content: Seq<u8>, size: nat, i: int) -> Seq<u8> {
    content.subrange(
        i * size,
        if i * size + size < content.len() {
            i * size + size
        } else {
            content.len() as int
        },
    )
}

/// The header of a segment.
pub open spec fn segment_header(reference: u16, total: u8, number: u8) -> UdhHeader {
    if reference > 255 {
        UdhHeader::of_16bit(reference, total, number)
    } else {
        UdhHeader::of_8bit(reference as u8, total, number)
    }
}

/// The segment that carries a piece.
pub open spec fn segment(reference: u16, total: u8, number: u8, piece: Seq<u8>) -> Segment {
    let header = segment_header(reference, total, number);
    Segment {
        reference_id: reference,
        total_segments: total,
        segment_number: number,
        content: seq![header.bytes().len() as u8] + header.bytes() + piece,
        has_udhi: true,
        udh: Some(header),
    }
}

/// The number of segments as it is written down: one byte.
pub open spec fn total_of(content: Seq<u8>, alphabet: SmsAlphabet, reference: u16) -> u8 {
    (piece_count(content.len(), piece_size(alphabet, reference)) % 256) as u8
}

/// The segments of a message: a short message as it is, a long one in pieces. The number of
/// segments is a byte; a message of more than 255 pieces loses its end.
pub open spec fn segments(content: Seq<u8>, alphabet: SmsAlphabet, reference: u16) -> Seq<Segment> {
    if content.len() <= segment_limit(alphabet) {
        seq![
            Segment {
                reference_id: 0,
                total_segments: 1,
                segment_number: 1,
                content,
                has_udhi: false,
                udh: None,
            },
        ]
    } else {
        let total = total_of(content, alphabet, reference);
        Seq::new(
            total as nat,
            |i: int|
                segment(
                    reference,
                    total,
                    (i + 1) as u8,
                    piece(content, piece_size(alphabet, reference), i),
                ),
        )
    }
}

/// Frames as mathematical values.
pub open spec fn views(frames: Seq<LongMessageFrame>) -> Seq<Segment> {
    Seq::new(frames.len(), |i: int| frames[i]@)
}

/// The message that segments carry: their contents without headers, one after the other.
pub open spec fn joined(segments: Seq<Segment>) -> Seq<u8>
    decreases segments.len(),
{
    if segments.len() == 0 {
        Seq::empty()
    } else {
        joined(segments.drop_last()) + UdhParser::payload(segments.last().content)
    }
}

proof fn lemma_piece_start(len: nat, size: nat, i: int)
    requires
        size > 0,
        0 <= i < piece_count(len, size),
    ensures
        0 <= i * size < len,
{
    vstd::arithmetic::div_mod::lemma_fundamental_div_mod(len as int, size as int);
    if i <= len / size - 1 {
        assert(i * size <= (len / size - 1) * size) by (nonlinear_arith)
            requires
                i <= len / size - 1,
                size > 0,
        ;
        assert((len / size - 1) * size == size * (len / size) - size) by (nonlinear_arith);
    } else {
        assert(i == len / size);
        assert(i * size == size * (len / size)) by (nonlinear_arith)
            requires
                i == len / size,
        ;
    }
    assert(0 <= i * size) by (nonlinear_arith)
        requires
            0 <= i,
            size > 0,
    ;
}

impl LongMessageSplitter {
    /// The counter of the splitter's references.
    pub closed spec fn counter(&self) -> u64 {
        self.generator.counter()
    }

    /// A splitter whose references start at the next seed.
    pub fn new(seeds: &mut SeedDispenser) -> (splitter: Self)
        ensures
            splitter.counter() == reference_id::seed(
                old(seeds).base(),
                old(seeds).issued() as int,
            ),
            final(seeds).base() == old(seeds).base(),
            final(seeds).issued() == (old(seeds).issued() + 1) % 0x1_0000_0000_0000_0000,
    {
        LongMessageSplitter { generator: ReferenceIdGenerator::new(seeds) }
    }

    /// A splitter that takes its references from a generator.
    pub fn with_generator(generator: ReferenceIdGenerator) -> (splitter: Self)
        ensures
            splitter.counter() == generator.counter(),
    {
        LongMessageSplitter { generator }
    }

    /// Splits a message. A message that fits one segment is its only segment, without a header;
    /// another takes the next reference.
    pub fn split(&mut self, content: &[u8], alphabet: SmsAlphabet) -> (frames: Vec<LongMessageFrame>)
        ensures
            views(frames@) == segments(
                content@,
                alphabet,
                reference_id::low16(old(self).counter()),
            ),
            final(self).counter() == (if content@.len() <= segment_limit(alphabet) {
                old(self).counter() as int
            } else {
                (old(self).counter() + 1) % 0x1_0000_0000_0000_0000
            }),
    {
        if content.len() <= Self::max_per_segment(alphabet) {
            return Self::split_with_reference(content, alphabet, self.generator.current());
        }
        let reference: u16 = self.generator.next_reference_id();
        Self::split_with_reference(content, alphabet, reference)
    }

    fn max_per_segment(alphabet: SmsAlphabet) -> (max: usize)
        ensures
            max == segment_limit(alphabet),
    {
        match alphabet {
            SmsAlphabet::GSM7 | SmsAlphabet::ASCII => GSM_7BIT_MULTI_MAX,
            SmsAlphabet::UCS2 => UCS2_MULTI_MAX,
            SmsAlphabet::Binary => 134,
        }
    }

    /// Splits a message under a reference that was drawn elsewhere, such as from a generator
    /// that several splitters share.
    pub fn split_with_reference(content: &[u8], alphabet: SmsAlphabet, reference: u16) -> (frames:
        Vec<LongMessageFrame>)
        ensures
            views(frames@) == segments(content@, alphabet, reference),
    {
        let max_per_segment: usize = Self::max_per_segment(alphabet);
        let mut frames: Vec<LongMessageFrame> = Vec::new();
        if content.len() <= max_per_segment {
            frames.push(LongMessageFrame::new(0, 1, 1, slice_to_vec(content), false, None));
            assert(views(frames@) =~= segments(content@, alphabet, reference));
            return frames;
        }
        let udh_len: usize = if reference > 255 {
            UDH_HEADER_16BIT_LEN
        } else {
            UDH_HEADER_8BIT_LEN
        };
        let size: usize = max_per_segment - udh_len;
        let len: usize = content.len();
        assert(len / size < len) by (nonlinear_arith)
            requires
                size >= 2,
                len > 0,
        ;
        let count: usize = if len % size == 0 {
            len / size
        } else {
            len / size + 1
        };
        let total: u8 = (count % 256) as u8;
        let mut i: u8 = 0;
        while i < total
            invariant
                i <= total,
                total == count % 256,
                size == piece_size(alphabet, reference),
                size > 0,
                count == piece_count(content@.len(), size as nat),
                total == total_of(content@, alphabet, reference),
                len == content@.len(),
                content@.len() > segment_limit(alphabet),
                views(frames@) == segments(content@, alphabet, reference).take(i as int),
            decreases total - i,
        {
            proof {
                lemma_piece_start(content@.len(), size as nat, i as int);
            }
            let start: usize = i as usize * size;
            let end: usize = if len - start > size {
                start + size
            } else {
                len
            };
            let segment_content = slice_subrange(content, start, end);
            let (udh, frame_content) = if reference > 255 {
                Self::build_16bit_udh_frame(reference, total, i + 1, segment_content)
            } else {
                Self::build_8bit_udh_frame(reference as u8, total, i + 1, segment_content)
            };
            let ghost before = views(frames@);
            frames.push(
                LongMessageFrame::new(reference, total, i + 1, frame_content, true, Some(udh)),
            );
            proof {
                assert(segment_content@ =~= piece(content@, size as nat, i as int));
                assert(views(frames@) =~= before.push(frames@.last()@));
                assert(segments(content@, alphabet, reference).take(i + 1) =~= segments(
                    content@,
                    alphabet,
                    reference,
                ).take(i as int).push(segments(content@, alphabet, reference)[i as int]));
            }
            i = i + 1;
        }
        assert(segments(content@, alphabet, reference).take(i as int) =~= segments(
            content@,
            alphabet,
            reference,
        ));
        frames
    }

    fn build_8bit_udh_frame(
        reference_id: u8,
        total_segments: u8,
        segment_number: u8,
        segment_content: &[u8],
    ) -> (res: (UdhHeader, Vec<u8>))
        ensures
            res.0 == UdhHeader::of_8bit(reference_id, total_segments, segment_number),
            res.1@ == seq![5u8] + res.0.bytes() + segment_content@,
    {
        let udh = UdhHeader::new_8bit(reference_id, total_segments, segment_number);
        let mut frame_content: Vec<u8> = vec![
            0x05,
            0x00,
            0x03,
            reference_id,
            total_segments,
            segment_number,
        ];
        frame_content.extend_from_slice(segment_content);
        assert(frame_content@ =~= seq![5u8] + udh.bytes() + segment_content@);
        (udh, frame_content)
    }

    fn build_16bit_udh_frame(
        reference_id: u16,
        total_segments: u8,
        segment_number: u8,
        segment_content: &[u8],
    ) -> (res: (UdhHeader, Vec<u8>))
        ensures
            res.0 == UdhHeader::of_16bit(reference_id, total_segments, segment_number),
            res.1@ == seq![6u8] + res.0.bytes() + segment_content@,
    {
        let udh = UdhHeader::new_16bit(reference_id, total_segments, segment_number);
        let mut frame_content: Vec<u8> = vec![
            0x06,
            0x08,
            0x04,
            (reference_id / 256) as u8,
            (reference_id % 256) as u8,
            total_segments,
            segment_number,
        ];
        frame_content.extend_from_slice(segment_content);
        assert(frame_content@ =~= seq![6u8] + udh.bytes() + segment_content@);
        (udh, frame_content)
    }

    /// Splits a message and hands out the bytes of the segments alone.
    pub fn split_into_pdu(&mut self, content: &[u8], alphabet: SmsAlphabet) -> (pdus: Vec<Vec<u8>>)
        ensures
            pdus@.len() == segments(
                content@,
                alphabet,
                reference_id::low16(old(self).counter()),
            ).len(),
            forall|i: int|
                0 <= i < pdus@.len() ==> (#[trigger] pdus@[i])@ == segments(
                    content@,
                    alphabet,
                    reference_id::low16(old(self).counter()),
                )[i].content,
            final(self).counter() == (if content@.len() <= segment_limit(alphabet) {
                old(self).counter() as int
            } else {
                (old(self).counter() + 1) % 0x1_0000_0000_0000_0000
            }),
    {
        let frames = self.split(content, alphabet);
        let ghost expected = views(frames@);
        let mut pdus: Vec<Vec<u8>> = Vec::new();
        let mut i: usize = 0;
        while i < frames.len()
            invariant
                i <= frames@.len(),
                pdus@.len() == i,
                expected == views(frames@),
                forall|j: int| 0 <= j < i ==> (#[trigger] pdus@[j])@ == expected[j].content,
            decreases frames@.len() - i,
        {
            pdus.push(slice_to_vec(frames[i].content.as_slice()));
            i = i + 1;
        }
        pdus
    }
}

/// No segment is longer than its alphabet allows.
pub proof fn law_segments_within_limit(
    content: Seq<u8>,
    alphabet: SmsAlphabet,
    reference: u16,
    i: int,
)
    requires
        0 <= i < segments(content, alphabet, reference).len(),
    ensures
        segments(content, alphabet, reference)[i].content.len() <= segment_limit(alphabet),
{
    if content.len() > segment_limit(alphabet) {
        lemma_piece_start(content.len(), piece_size(alphabet, reference), i);
    }
}

/// The segments of a long message share the reference and the number of segments, and count up
/// from 1.
pub proof fn law_segments_numbered(
    content: Seq<u8>,
    alphabet: SmsAlphabet,
    reference: u16,
    i: int,
)
    requires
        content.len() > segment_limit(alphabet),
        0 <= i < segments(content, alphabet, reference).len(),
    ensures
        ({
            let s = segments(content, alphabet, reference);
            &&& s[i].reference_id == reference
            &&& s[i].total_segments == s.len()
            &&& s[i].segment_number == i + 1
            &&& s[i].has_udhi
            &&& UdhParser::header_of(s[i].content) matches Some((header, _)) && s[i].udh == Some(
                header,
            )
        }),
{
    let s = segments(content, alphabet, reference);
    let header = segment_header(reference, s[i].total_segments, s[i].segment_number);
    frame::law_udh_roundtrip(header, piece(content, piece_size(alphabet, reference), i));
}

/// A message that does not fit one segment has at least two, if it has at most 255.
pub proof fn law_long_message_is_split(content: Seq<u8>, alphabet: SmsAlphabet, reference: u16)
    requires
        content.len() > segment_limit(alphabet),
        piece_count(content.len(), piece_size(alphabet, reference)) <= 255,
    ensures
        segments(content, alphabet, reference).len() >= 2,
{
    let size = piece_size(alphabet, reference);
    vstd::arithmetic::div_mod::lemma_fundamental_div_mod(content.len() as int, size as int);
    if content.len() / size == 0 {
        assert(false);
    }
    if content.len() / size == 1 {
        assert(content.len() % size != 0);
    }
}

proof fn lemma_joined_prefix(content: Seq<u8>, alphabet: SmsAlphabet, reference: u16, k: int)
    requires
        content.len() > segment_limit(alphabet),
        0 <= k <= segments(content, alphabet, reference).len(),
    ensures
        joined(segments(content, alphabet, reference).take(k)) == content.take(
            if k * piece_size(alphabet, reference) < content.len() {
                k * piece_size(alphabet, reference)
            } else {
                content.len() as int
            },
        ),
    decreases k,
{
    let s = segments(content, alphabet, reference);
    let size = piece_size(alphabet, reference);
    if k == 0 {
        assert(k * size == 0) by (nonlinear_arith)
            requires
                k == 0,
        ;
        assert(joined(s.take(0)) =~= content.take(0));
    } else {
        lemma_joined_prefix(content, alphabet, reference, k - 1);
        lemma_piece_start(content.len(), size, k - 1);
        assert(s.take(k).drop_last() =~= s.take(k - 1));
        let total = total_of(content, alphabet, reference);
        let header = segment_header(reference, total, k as u8);
        let part = piece(content, size, k - 1);
        frame::law_udh_roundtrip(header, part);
        assert((k - 1) * size + size == k * size) by (nonlinear_arith);
        let upto = if k * size < content.len() {
            k * size
        } else {
            content.len() as int
        };
        assert(content.take((k - 1) * size) + part =~= content.take(upto));
        assert(s.take(k).last() == segment(reference, total, k as u8, part));
        assert(UdhParser::payload(s.take(k).last().content) == part);
    }
}

/// The segments of a message, stripped of their headers and joined in order, give the message
/// back, as long as there are at most 255 of them. A short message must not start with what
/// reads as a concatenation header.
pub proof fn law_split_then_join(content: Seq<u8>, alphabet: SmsAlphabet, reference: u16)
    requires
        content.len() <= segment_limit(alphabet) ==> UdhParser::header_of(content) is None,
        piece_count(content.len(), piece_size(alphabet, reference)) <= 255,
    ensures
        joined(segments(content, alphabet, reference)) == content,
{
    let s = segments(content, alphabet, reference);
    let size = piece_size(alphabet, reference);
    if content.len() <= segment_limit(alphabet) {
        assert(s.drop_last() =~= Seq::<Segment>::empty());
        assert(joined(s.drop_last()) == Seq::<u8>::empty());
        assert(s.last().content == content);
        assert(joined(s) =~= content);
    } else {
        lemma_joined_prefix(content, alphabet, reference, s.len() as int);
        assert(s.take(s.len() as int) =~= s);
        vstd::arithmetic::div_mod::lemma_fundamental_div_mod(content.len() as int, size as int);
        let count = piece_count(content.len(), size);
        assert(count * size >= content.len()) by {
            if content.len() % size == 0 {
                assert(count * size == size * (content.len() / size)) by (nonlinear_arith)
                    requires
                        count == content.len() / size,
                ;
            } else {
                assert(count * size == size * (content.len() / size) + size) by (nonlinear_arith)
                    requires
                        count == content.len() / size + 1,
                ;
            }
        }
        assert(content.take(content.len() as int) =~= content);
    }
}

/// How a message is split, in numbers. One of at most 153 bytes of GSM 7 bit or ASCII text, 67 of
/// UCS-2 or 134 of anything else goes out as it is. A longer one goes out in frames of at most
/// that many bytes, each with a header of six bytes, or seven if the reference is above 255, and
/// as much of the text as there is room for. The frames count up from 1, and each says how many
/// there are, up to 255.
pub proof fn law_split_in_numbers(
    content: Seq<u8>,
    alphabet: SmsAlphabet,
    reference: u16,
    frames: Seq<LongMessageFrame>,
)
    requires
        views(frames) == segments(content, alphabet, reference),
    ensures
        ({
            let limit: int = match alphabet {
                SmsAlphabet::GSM7 => 153,
                SmsAlphabet::ASCII => 153,
                SmsAlphabet::UCS2 => 67,
                SmsAlphabet::Binary => 134,
            };
            let size: int = if reference <= 255 {
                limit - 6
            } else {
                limit - 7
            };
            &&& content.len() <= limit ==> frames.len() == 1 && frames[0].content@ == content
                && !frames[0].has_udhi && frames[0].udh is None && frames[0].total_segments == 1
                && frames[0].segment_number == 1 && frames[0].reference_id == 0
            &&& limit < content.len() <= 255 * size ==> {
                &&& 2 <= frames.len() <= 255
                &&& (frames.len() - 1) * size < content.len() <= frames.len() * size
                &&& forall|i: int|
                    #![trigger frames[i]]
                    0 <= i < frames.len() ==> {
                        &&& frames[i].has_udhi
                        &&& frames[i].reference_id == reference
                        &&& frames[i].total_segments == frames.len()
                        &&& frames[i].segment_number == i + 1
                        &&& frames[i].content@.len() <= limit
                        &&& frames[i].content@ == (if reference <= 255 {
                            seq![
                                5u8,
                                0u8,
                                3u8,
                                reference as u8,
                                frames.len() as u8,
                                (i + 1) as u8,
                            ]
                        } else {
                            seq![
                                6u8,
                                8u8,
                                4u8,
                                (reference / 256) as u8,
                                (reference % 256) as u8,
                                frames.len() as u8,
                                (i + 1) as u8,
                            ]
                        }) + content.subrange(
                            i * size,
                            if i + 1 == frames.len() {
                                content.len() as int
                            } else {
                                (i + 1) * size
                            },
                        )
                    }
            }
            &&& forall|i: int|
                #![trigger frames[i]]
                0 <= i < frames.len() ==> frames[i].content@.len() <= limit
        }),
{
    let limit: int = match alphabet {
        SmsAlphabet::GSM7 => 153,
        SmsAlphabet::ASCII => 153,
        SmsAlphabet::UCS2 => 67,
        SmsAlphabet::Binary => 134,
    };
    let size: int = if reference <= 255 {
        limit - 6
    } else {
        limit - 7
    };
    let s = segments(content, alphabet, reference);
    assert(frames.len() == s.len());
    assert forall|i: int| 0 <= i < frames.len() implies #[trigger] frames[i]@ == s[i] by {
        assert(views(frames)[i] == frames[i]@);
    }
    assert forall|i: int| #![trigger frames[i]] 0 <= i < frames.len() implies
        frames[i].content@.len() <= limit by {
        law_segments_within_limit(content, alphabet, reference, i);
        assert(frames[i]@ == s[i]);
    }
    if content.len() <= limit {
        assert(frames[0]@ == s[0]);
    }
    if limit < content.len() <= 255 * size {
        assert(piece_size(alphabet, reference) == size);
        lemma_piece_bounds(content.len(), size as nat);
        let n = piece_count(content.len(), size as nat) as int;
        assert(n <= 255) by {
            assert(n >= 256 ==> (n - 1) * size >= 255 * size) by (nonlinear_arith)
                requires
                    size > 0,
            ;
        }
        law_long_message_is_split(content, alphabet, reference);
        assert(total_of(content, alphabet, reference) == n);
        assert(frames.len() == n);
        assert((frames.len() - 1) * size < content.len() <= frames.len() * size);
        assert forall|i: int| #![trigger frames[i]] 0 <= i < frames.len() implies {
            &&& frames[i].has_udhi
            &&& frames[i].reference_id == reference
            &&& frames[i].total_segments == frames.len()
            &&& frames[i].segment_number == i + 1
        } by {
            assert(frames[i]@ == s[i]);
        }
        assert forall|i: int| #![trigger frames[i]] 0 <= i < frames.len() implies
            frames[i].content@ == (if reference <= 255 {
            seq![5u8, 0u8, 3u8, reference as u8, frames.len() as u8, (i + 1) as u8]
        } else {
            seq![
                6u8,
                8u8,
                4u8,
                (reference / 256) as u8,
                (reference % 256) as u8,
                frames.len() as u8,
                (i + 1) as u8,
            ]
        }) + content.subrange(
            i * size,
            if i + 1 == frames.len() {
                content.len() as int
            } else {
                (i + 1) * size
            },
        ) by {
            assert(frames[i]@ == s[i]);
            assert((i + 1) * size == i * size + size) by (nonlinear_arith);
            if i + 1 < n {
                assert((i + 1) * size <= (n - 1) * size) by (nonlinear_arith)
                    requires
                        i + 1 < n,
                        size > 0,
                ;
            } else {
                assert(i == n - 1);
            }
            let part = content.subrange(
                i * size,
                if i + 1 == frames.len() {
                    content.len() as int
                } else {
                    (i + 1) * size
                },
            );
            assert(piece(content, size as nat, i) =~= part);
            frame::law_header_on_wire(reference, n as u8, (i + 1) as u8);
            let header = segment_header(reference, n as u8, (i + 1) as u8);
            assert(s[i].content == seq![header.bytes().len() as u8] + header.bytes() + part);
            if reference <= 255 {
                assert(seq![header.bytes().len() as u8] + header.bytes() =~= seq![
                    5u8,
                    0u8,
                    3u8,
                    reference as u8,
                    frames.len() as u8,
                    (i + 1) as u8,
                ]);
            } else {
                assert(seq![header.bytes().len() as u8] + header.bytes() =~= seq![
                    6u8,
                    8u8,
                    4u8,
                    (reference / 256) as u8,
                    (reference % 256) as u8,
                    frames.len() as u8,
                    (i + 1) as u8,
                ]);
            }
        }
    }
}

/// The pieces of a message cover it, and the last of them is not empty.
proof fn lemma_piece_bounds(len: nat, size: nat)
    requires
        size > 0,
        len > 0,
    ensures
        ({
            let count = piece_count(len, size) as int;
            (count - 1) * size < len <= count * size
        }),
{
    vstd::arithmetic::div_mod::lemma_fundamental_div_mod(len as int, size as int);
    let q = (len / size) as int;
    assert(size * q == q * size) by (nonlinear_arith);
    assert((q - 1) * size == q * size - size) by (nonlinear_arith);
    assert((q + 1) * size == q * size + size) by (nonlinear_arith);
}

/// How many pieces there are: so many that all but the last are full, and the number that is written
/// down is the rest of that by 256.
pub proof fn law_number_of_pieces(
    content: Seq<u8>,
    alphabet: SmsAlphabet,
    reference: u16,
    len: nat,
    size: nat,
)
    requires
        size > 0,
    ensures
        piece_count(len, size) * size >= len,
        len > 0 ==> (piece_count(len, size) - 1) * size < len,
        len == 0 ==> piece_count(len, size) == 0,
        total_of(content, alphabet, reference) == piece_count(
            content.len(),
            piece_size(alphabet, reference),
        ) % 256,
{
    let q = len / size;
    let r = len % size;
    vstd::arithmetic::div_mod::lemma_fundamental_div_mod(len as int, size as int);
    vstd::arithmetic::div_mod::lemma_mod_bound(len as int, size as int);
    assert(len == size * q + r);
    assert(q * size == size * q) by (nonlinear_arith);
    assert((q + 1) * size == size * q + size) by (nonlinear_arith);
    assert((q - 1) * size == size * q - size) by (nonlinear_arith);
    assert(0 * size == 0) by (nonlinear_arith);
    if len == 0 {
        assert(q == 0) by {
            vstd::arithmetic::div_mod::lemma_basic_div(0, size as int);
        }
        assert(r == 0) by {
            vstd::arithmetic::div_mod::lemma_small_mod(0, size);
        }
    }
}

} // verus!
