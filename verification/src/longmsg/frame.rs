//! Segments of long messages and their user data headers (UDH).

use crate::error::RsmsError;
use crate::text;
use vstd::prelude::*;
use vstd::slice::{slice_subrange, slice_to_vec};
use vstd::string::*;

verus! {

/// The information element of a concatenation header with an 8 bit reference.
pub const UDH_IEI_CONCAT_8BIT: u8 = 0x00;

/// The information element of a concatenation header with a 16 bit reference.
pub const UDH_IEI_CONCAT_16BIT: u8 = 0x08;

/// The bytes of a header with an 8 bit reference, its length byte included.
pub const UDH_HEADER_LEN: usize = 6;

/// The same as `UDH_HEADER_LEN`.
pub const UDH_HEADER_8BIT_LEN: usize = 6;

/// The bytes of a header with a 16 bit reference, its length byte included.
pub const UDH_HEADER_16BIT_LEN: usize = 7;

/// A concatenation header: which long message a segment belongs to, and where in it.
#[derive(Debug, Clone, Copy, PartialEq, Eq, Structural)]
pub struct UdhHeader {
    /// The information element: `UDH_IEI_CONCAT_8BIT` or `UDH_IEI_CONCAT_16BIT`.
    pub iei: u8,
    /// The length of the element's data: 3 with an 8 bit reference, 4 with a 16 bit one.
    pub iedl: u8,
    /// The reference that all segments of a long message share.
    pub reference_id: u16,
    /// How many segments the long message has.
    pub total_segments: u8,
    /// The number of this segment, from 1 on.
    pub segment_number: u8,
}

impl UdhHeader {
    /// The header with an 8 bit reference.
    pub open spec fn of_8bit(reference_id: u8, total_segments: u8, segment_number: u8) -> UdhHeader {
        UdhHeader {
            iei: UDH_IEI_CONCAT_8BIT,
            iedl: 3,
            reference_id: reference_id as u16,
            total_segments,
            segment_number,
        }
    }

    /// The header with a 16 bit reference.
    pub open spec fn of_16bit(
        reference_id: u16,
        total_segments: u8,
        segment_number: u8,
    ) -> UdhHeader {
        UdhHeader {
            iei: UDH_IEI_CONCAT_16BIT,
            iedl: 4,
            reference_id,
            total_segments,
            segment_number,
        }
    }

    /// The bytes of the header without the length byte in front. An 8 bit header keeps the low
    /// byte of the reference.
    pub open spec fn bytes(self) -> Seq<u8> {
        if self.iei == UDH_IEI_CONCAT_16BIT {
            seq![
                self.iei,
                self.iedl,
                (self.reference_id / 256) as u8,
                (self.reference_id % 256) as u8,
                self.total_segments,
                self.segment_number,
            ]
        } else {
            seq![
                self.iei,
                self.iedl,
                (self.reference_id % 256) as u8,
                self.total_segments,
                self.segment_number,
            ]
        }
    }

    /// The header whose bytes start `s`, with a 16 bit reference if the first byte says so and
    /// with an 8 bit one otherwise.
    pub open spec fn read(s: Seq<u8>) -> UdhHeader {
        if s[0] == UDH_IEI_CONCAT_16BIT {
            UdhHeader {
                iei: s[0],
                iedl: s[1],
                reference_id: (s[2] * 256 + s[3]) as u16,
                total_segments: s[4],
                segment_number: s[5],
            }
        } else {
            UdhHeader {
                iei: s[0],
                iedl: s[1],
                reference_id: s[2] as u16,
                total_segments: s[3],
                segment_number: s[4],
            }
        }
    }

    pub fn new_8bit(reference_id: u8, total_segments: u8, segment_number: u8) -> (header: Self)
        ensures
            header == Self::of_8bit(reference_id, total_segments, segment_number),
    {
        UdhHeader {
            iei: UDH_IEI_CONCAT_8BIT,
            iedl: 3,
            reference_id: reference_id as u16,
            total_segments,
            segment_number,
        }
    }

    pub fn new_16bit(reference_id: u16, total_segments: u8, segment_number: u8) -> (header: Self)
        ensures
            header == Self::of_16bit(reference_id, total_segments, segment_number),
    {
        UdhHeader {
            iei: UDH_IEI_CONCAT_16BIT,
            iedl: 4,
            reference_id,
            total_segments,
            segment_number,
        }
    }

    /// The bytes of the header, without the length byte in front.
    pub fn to_bytes(&self) -> (bytes: Vec<u8>)
        ensures
            bytes@ == self.bytes(),
    {
        if self.iei == UDH_IEI_CONCAT_16BIT {
            vec![
                self.iei,
                self.iedl,
                (self.reference_id / 256) as u8,
                (self.reference_id % 256) as u8,
                self.total_segments,
                self.segment_number,
            ]
        } else {
            vec![
                self.iei,
                self.iedl,
                (self.reference_id % 256) as u8,
                self.total_segments,
                self.segment_number,
            ]
        }
    }

    /// Whether bytes start with a header, from its information element on.
    pub open spec fn starts(s: Seq<u8>) -> bool {
        &&& s.len() >= UDH_HEADER_8BIT_LEN - 1
        &&& s[0] == UDH_IEI_CONCAT_16BIT ==> s.len() >= UDH_HEADER_16BIT_LEN - 1
        &&& s[0] == UDH_IEI_CONCAT_8BIT || s[0] == UDH_IEI_CONCAT_16BIT
    }

    /// Reads a header from bytes that start at the information element, without the length byte
    /// in front. Too few bytes are refused, and so is any other information element.
    pub fn from_bytes(b: &[u8]) -> (res: Result<Self, RsmsError>)
        ensures
            match res {
                Ok(header) => Self::starts(b@) && header == Self::read(b@),
                Err(e) => if b@.len() < UDH_HEADER_8BIT_LEN - 1 {
                    e.is_codec("UDH header too short"@)
                } else if b@[0] == UDH_IEI_CONCAT_16BIT {
                    b@.len() < UDH_HEADER_16BIT_LEN - 1 && e.is_codec(
                        "16-bit UDH header too short"@,
                    )
                } else {
                    b@[0] != UDH_IEI_CONCAT_8BIT && e.is_codec("not a concatenation UDH"@)
                },
            },
    {
        if b.len() < UDH_HEADER_8BIT_LEN - 1 {
            return Err(RsmsError::Codec("UDH header too short".to_owned()));
        }
        let iei: u8 = b[0];
        if iei == UDH_IEI_CONCAT_16BIT {
            if b.len() < UDH_HEADER_16BIT_LEN - 1 {
                return Err(RsmsError::Codec("16-bit UDH header too short".to_owned()));
            }
            Ok(
                UdhHeader {
                    iei: b[0],
                    iedl: b[1],
                    reference_id: b[2] as u16 * 256 + b[3] as u16,
                    total_segments: b[4],
                    segment_number: b[5],
                },
            )
        } else if iei == UDH_IEI_CONCAT_8BIT {
            Ok(
                UdhHeader {
                    iei: b[0],
                    iedl: b[1],
                    reference_id: b[2] as u16,
                    total_segments: b[3],
                    segment_number: b[4],
                },
            )
        } else {
            Err(RsmsError::Codec("not a concatenation UDH".to_owned()))
        }
    }
}

/// One segment of a long message, or a short message that is its only segment.
#[derive(Debug)]
pub struct LongMessageFrame {
    /// The reference that all segments of the long message share.
    pub reference_id: u16,
    /// How many segments the long message has.
    pub total_segments: u8,
    /// The number of this segment, from 1 on.
    pub segment_number: u8,
    /// The bytes of the segment, a user data header included if `has_udhi`.
    pub content: Vec<u8>,
    /// Whether `content` starts with a user data header.
    pub has_udhi: bool,
    /// The header, if there is one.
    pub udh: Option<UdhHeader>,
}

/// A segment as a mathematical value.
#[verifier::ext_equal]
pub struct Segment {
    pub reference_id: u16,
    pub total_segments: u8,
    pub segment_number: u8,
    pub content: Seq<u8>,
    pub has_udhi: bool,
    pub udh: Option<UdhHeader>,
}

impl View for LongMessageFrame {
    type V = Segment;

    open spec fn view(&self) -> Segment {
        Segment {
            reference_id: self.reference_id,
            total_segments: self.total_segments,
            segment_number: self.segment_number,
            content: self.content@,
            has_udhi: self.has_udhi,
            udh: self.udh,
        }
    }
}

impl Clone for LongMessageFrame {
    fn clone(&self) -> (copy: Self)
        ensures
            copy@ == self@,
    {
        let content = slice_to_vec(self.content.as_slice());
        LongMessageFrame {
            reference_id: self.reference_id,
            total_segments: self.total_segments,
            segment_number: self.segment_number,
            content,
            has_udhi: self.has_udhi,
            udh: self.udh,
        }
    }
}

impl LongMessageFrame {
    pub fn new(
        reference_id: u16,
        total_segments: u8,
        segment_number: u8,
        content: Vec<u8>,
        has_udhi: bool,
        udh: Option<UdhHeader>,
    ) -> (frame: Self)
        ensures
            frame == (LongMessageFrame {
                reference_id,
                total_segments,
                segment_number,
                content,
                has_udhi,
                udh,
            }),
    {
        LongMessageFrame {
            reference_id,
            total_segments,
            segment_number,
            content,
            has_udhi,
            udh,
        }
    }

    /// The name of the long message that the segment belongs to: its reference and its number
    /// of segments.
    pub fn unique_id(&self) -> (id: String)
        ensures
            id@ == text::decimal_chars(self.reference_id as nat) + "-"@ + text::decimal_chars(
                self.total_segments as nat,
            ),
    {
        let mut id = text::decimal(self.reference_id as u64);
        id.append("-");
        id.append(text::decimal(self.total_segments as u64).as_str());
        id
    }
}

/// Reads user data headers from the start of a message.
pub struct UdhParser;

impl UdhParser {
    /// The concatenation header in the bytes behind the length byte.
    pub open spec fn concat_header(udh: Seq<u8>) -> Option<UdhHeader> {
        if udh.len() >= 6 && udh[0] == UDH_IEI_CONCAT_16BIT {
            Some(UdhHeader::read(udh))
        } else if udh.len() >= 5 && udh[0] == UDH_IEI_CONCAT_8BIT {
            Some(UdhHeader::read(udh))
        } else {
            None
        }
    }

    /// The concatenation header at the start of a message, and how many bytes it takes with
    /// its length byte.
    pub open spec fn header_of(content: Seq<u8>) -> Option<(UdhHeader, usize)> {
        if content.len() == 0 || content[0] == 0 || content.len() < 1 + content[0] {
            None
        } else {
            match Self::concat_header(content.subrange(1, 1 + content[0])) {
                Some(header) => Some((header, (1 + content[0]) as usize)),
                None => None,
            }
        }
    }

    /// A message without its concatenation header.
    pub open spec fn payload(content: Seq<u8>) -> Seq<u8> {
        match Self::header_of(content) {
            Some((_, len)) => content.skip(len as int),
            None => content,
        }
    }

    /// The concatenation header at the start of a message and its length, length byte
    /// included, if there is one.
    pub fn extract_udh(content: &[u8]) -> (res: Option<(UdhHeader, usize)>)
        ensures
            res == Self::header_of(content@),
    {
        if content.len() == 0 {
            return None;
        }
        let udhl: usize = content[0] as usize;
        if udhl == 0 || content.len() < 1 + udhl {
            return None;
        }
        let udh_bytes = slice_subrange(content, 1, 1 + udhl);
        match UdhParser::parse_concat_udh(udh_bytes) {
            Some(header) => Some((header, 1 + udhl)),
            None => None,
        }
    }

    fn parse_concat_udh(udh: &[u8]) -> (res: Option<UdhHeader>)
        ensures
            res == Self::concat_header(udh@),
    {
        if udh.len() == 0 {
            return None;
        }
        let iei: u8 = udh[0];
        if iei == UDH_IEI_CONCAT_16BIT {
            if udh.len() < 6 {
                return None;
            }
            Some(
                UdhHeader {
                    iei: udh[0],
                    iedl: udh[1],
                    reference_id: udh[2] as u16 * 256 + udh[3] as u16,
                    total_segments: udh[4],
                    segment_number: udh[5],
                },
            )
        } else if iei == UDH_IEI_CONCAT_8BIT {
            if udh.len() < 5 {
                return None;
            }
            Some(
                UdhHeader {
                    iei: udh[0],
                    iedl: udh[1],
                    reference_id: udh[2] as u16,
                    total_segments: udh[3],
                    segment_number: udh[4],
                },
            )
        } else {
            None
        }
    }

    /// A message without its concatenation header; one without such a header as it is.
    pub fn strip_udh(content: &[u8]) -> (payload: Vec<u8>)
        ensures
            payload@ == Self::payload(content@),
    {
        match Self::extract_udh(content) {
            Some((_, udh_len)) => {
                let rest = slice_to_vec(slice_subrange(content, udh_len, content.len()));
                assert(rest@ =~= content@.skip(udh_len as int));
                rest
            },
            None => slice_to_vec(content),
        }
    }

    /// Whether a message starts with a concatenation header.
    pub fn has_udhi(content: &[u8]) -> (yes: bool)
        ensures
            yes == (Self::header_of(content@) is Some),
    {
        Self::extract_udh(content).is_some()
    }
}

/// The bytes of a header read back give the header, whatever follows them. An 8 bit header
/// carries references up to 255.
pub proof fn law_header_roundtrip(header: UdhHeader, tail: Seq<u8>)
    requires
        header.iei == UDH_IEI_CONCAT_16BIT || (header.iei == UDH_IEI_CONCAT_8BIT
            && header.reference_id < 256),
    ensures
        UdhHeader::starts(header.bytes()),
        UdhHeader::read(header.bytes()) == header,
        UdhHeader::starts(header.bytes() + tail),
        UdhHeader::read(header.bytes() + tail) == header,
{
    let s = header.bytes() + tail;
    assert(s[0] == header.iei && s[1] == header.iedl && s[2] == header.bytes()[2] && s[3]
        == header.bytes()[3] && s[4] == header.bytes()[4]);
    if header.iei == UDH_IEI_CONCAT_16BIT {
        assert(s[5] == header.segment_number);
    }
}

/// A message made of a header's length, the header and a payload has that header, and stripping
/// it leaves the payload.
pub proof fn law_udh_roundtrip(header: UdhHeader, payload: Seq<u8>)
    requires
        header.iei == UDH_IEI_CONCAT_16BIT || (header.iei == UDH_IEI_CONCAT_8BIT
            && header.reference_id < 256),
    ensures
        ({
            let content = seq![header.bytes().len() as u8] + header.bytes() + payload;
            &&& UdhParser::header_of(content) == Some(
                (header, (1 + header.bytes().len()) as usize),
            )
            &&& UdhParser::payload(content) == payload
        }),
{
    let content = seq![header.bytes().len() as u8] + header.bytes() + payload;
    assert(content[0] == header.bytes().len());
    assert(content.subrange(1, 1 + content[0]) =~= header.bytes());
    assert(content.skip(1 + header.bytes().len() as int) =~= payload);
}

/// Stripping never makes a message longer, and takes a header of at least six bytes.
pub proof fn law_strip_shortens(content: Seq<u8>)
    ensures
        UdhParser::payload(content).len() <= content.len(),
        UdhParser::header_of(content) is Some ==> UdhParser::payload(content).len() + 6
            <= content.len(),
{
}

/// A header on the wire: the element and its length, the reference in one byte or in two with
/// the high one first, the number of segments, and the number of the segment.
pub proof fn law_header_on_wire(reference: u16, total: u8, number: u8)
    ensures
        UdhHeader::of_8bit((reference % 256) as u8, total, number).bytes() == seq![
            0x00u8,
            0x03u8,
            (reference % 256) as u8,
            total,
            number,
        ],
        UdhHeader::of_16bit(reference, total, number).bytes() == seq![
            0x08u8,
            0x04u8,
            (reference / 256) as u8,
            (reference % 256) as u8,
            total,
            number,
        ],
{
}

/// Which header a message has, by its bytes: the first byte tells how long the header is, the
/// second which element it is, and what follows the header is the text.
pub proof fn law_header_by_bytes(content: Seq<u8>)
    ensures
        content.len() > content[0] && content[0] >= 5 && content[1] == 0 ==> {
            &&& UdhParser::header_of(content) == Some(
                (
                    UdhHeader {
                        iei: 0,
                        iedl: content[2],
                        reference_id: content[3] as u16,
                        total_segments: content[4],
                        segment_number: content[5],
                    },
                    (content[0] + 1) as usize,
                ),
            )
            &&& UdhParser::payload(content) == content.subrange(
                content[0] + 1,
                content.len() as int,
            )
        },
        content.len() > content[0] && content[0] >= 6 && content[1] == 8 ==> {
            &&& UdhParser::header_of(content) == Some(
                (
                    UdhHeader {
                        iei: 8,
                        iedl: content[2],
                        reference_id: (content[3] * 256 + content[4]) as u16,
                        total_segments: content[5],
                        segment_number: content[6],
                    },
                    (content[0] + 1) as usize,
                ),
            )
            &&& UdhParser::payload(content) == content.subrange(
                content[0] + 1,
                content.len() as int,
            )
        },
        content.len() <= 5 || content.len() <= content[0] || content[0] < 5 || (content[1] != 0
            && content[1] != 8) ==> UdhParser::header_of(content) is None && UdhParser::payload(
            content,
        ) == content,
{
}

/// Reading a header byte by byte: 0 stands for a reference of one byte and takes five bytes, 8 for
/// one of two bytes and takes six; everything else is refused.
pub proof fn law_header_is_read(b: &[u8], res: Result<UdhHeader, RsmsError>)
    requires
        call_ensures(UdhHeader::from_bytes, (b,), res),
    ensures
        res is Ok <==> b@.len() >= 5 && (b@[0] == 0 || b@[0] == 8 && b@.len() >= 6),
        UdhHeader::starts(b@) <==> res is Ok,
        res matches Ok(h) ==> h.iei == b@[0] && h.iedl == b@[1],
        res matches Ok(h) ==> b@[0] == 0 ==> h.reference_id == b@[2] && h.total_segments == b@[3]
            && h.segment_number == b@[4],
        res matches Ok(h) ==> b@[0] == 8 ==> h.reference_id == b@[2] * 256 + b@[3]
            && h.total_segments == b@[4] && h.segment_number == b@[5],
        res matches Err(e) ==> (b@.len() < 5 ==> e.is_codec("UDH header too short"@)),
        res matches Err(e) ==> (b@.len() >= 5 && b@[0] == 8 ==> e.is_codec(
            "16-bit UDH header too short"@,
        )),
        res matches Err(e) ==> (b@.len() >= 5 && b@[0] != 8 ==> e.is_codec(
            "not a concatenation UDH"@,
        )),
{
}

} // verus!
