//! The protocols and where their headers keep what.

use crate::error::RsmsError;
use crate::text;
use crate::text::{same_text, to_ascii_lowercase, trim};
use vstd::prelude::*;
use vstd::string::*;

verus! {

/// A short message protocol.
#[derive(Debug, Clone, Copy, PartialEq, Eq, Structural)]
pub enum Protocol {
    /// CMPP 2.0 and 3.0: a header of 12 bytes, the sequence number at offset 8.
    Cmpp,
    /// SMGP 3.0: a header of 12 bytes, the sequence number at offset 8.
    Smgp,
    /// SMPP 3.4 and 5.0: a header of 16 bytes, the sequence number at offset 12.
    Smpp,
    /// SGIP 1.2: a header of 20 bytes, the sequence number at offset 12.
    Sgip,
}

impl Default for Protocol {
    fn default() -> (p: Self)
        ensures
            p == Protocol::Cmpp,
    {
        Protocol::Cmpp
    }
}

impl Protocol {
    /// The length of the protocol's header.
    pub open spec fn header_size(self) -> usize {
        match self {
            Protocol::Cmpp | Protocol::Smgp => 12,
            Protocol::Smpp => 16,
            Protocol::Sgip => 20,
        }
    }

    /// Where the sequence number starts.
    pub open spec fn sequence_at(self) -> usize {
        match self {
            Protocol::Smpp | Protocol::Sgip => 12,
            Protocol::Cmpp | Protocol::Smgp => 8,
        }
    }

    /// The protocol's name in small letters.
    pub open spec fn name(self) -> Seq<char> {
        match self {
            Protocol::Cmpp => "cmpp"@,
            Protocol::Smgp => "smgp"@,
            Protocol::Smpp => "smpp"@,
            Protocol::Sgip => "sgip"@,
        }
    }

    /// The length of the header in bytes.
    pub fn header_len(&self) -> (len: usize)
        ensures
            len == self.header_size(),
    {
        match self {
            Protocol::Cmpp | Protocol::Smgp => 12,
            Protocol::Smpp => 16,
            Protocol::Sgip => 20,
        }
    }

    /// The offset of the sequence number in a PDU.
    pub fn seq_offset(&self) -> (offset: usize)
        ensures
            offset == self.sequence_at(),
    {
        match self {
            Protocol::Smpp | Protocol::Sgip => 12,
            Protocol::Cmpp | Protocol::Smgp => 8,
        }
    }

    /// The name in small letters.
    pub fn as_str(&self) -> (name: &'static str)
        ensures
            name@ == self.name(),
    {
        match self {
            Protocol::Cmpp => "cmpp",
            Protocol::Smgp => "smgp",
            Protocol::Smpp => "smpp",
            Protocol::Sgip => "sgip",
        }
    }

    /// Text as a protocol's name is looked up: trimmed and in small letters.
    pub open spec fn lookup_key(s: Seq<char>) -> Seq<char> {
        text::trim_back(text::trim_front(s)).map_values(|c: char| text::lower(c))
    }

    /// The protocol of that name, whatever the case and the white space around it.
    pub fn parse(s: &str) -> (res: Result<Protocol, RsmsError>)
        ensures
            res matches Ok(p) ==> p.name() == Self::lookup_key(s@),
            res is Ok <==> exists|p: Protocol| #[trigger] p.name() == Self::lookup_key(s@),
            res matches Err(e) ==> e.is_other("unknown protocol: "@ + Self::lookup_key(s@)),
    {
        let key = to_ascii_lowercase(trim(s));
        let name = key.as_str();
        if same_text(name, "cmpp") {
            assert(Protocol::Cmpp.name() == name@);
            Ok(Protocol::Cmpp)
        } else if same_text(name, "smgp") {
            assert(Protocol::Smgp.name() == name@);
            Ok(Protocol::Smgp)
        } else if same_text(name, "smpp") {
            assert(Protocol::Smpp.name() == name@);
            Ok(Protocol::Smpp)
        } else if same_text(name, "sgip") {
            assert(Protocol::Sgip.name() == name@);
            Ok(Protocol::Sgip)
        } else {
            let mut text = "unknown protocol: ".to_owned();
            text.append(name);
            Err(RsmsError::Other(text))
        }
    }
}

impl std::str::FromStr for Protocol {
    type Err = RsmsError;

    fn from_str(s: &str) -> (res: Result<Self, RsmsError>)
        ensures
            res matches Ok(p) ==> p.name() == Self::lookup_key(s@),
            res is Ok <==> exists|p: Protocol| #[trigger] p.name() == Self::lookup_key(s@),
            res matches Err(e) ==> e.is_other("unknown protocol: "@ + Self::lookup_key(s@)),
    {
        Protocol::parse(s)
    }
}

/// The sequence number lies within the header.
pub proof fn law_sequence_in_header(p: Protocol)
    ensures
        p.sequence_at() + 4 <= p.header_size(),
{
}

/// Two protocols never share a name.
pub proof fn law_names_differ(p: Protocol, q: Protocol)
    requires
        p.name() == q.name(),
    ensures
        p == q,
{
    reveal_strlit("cmpp");
    reveal_strlit("smgp");
    reveal_strlit("smpp");
    reveal_strlit("sgip");
    assert("cmpp"@[0] != "smgp"@[0] && "cmpp"@[0] != "smpp"@[0] && "cmpp"@[0] != "sgip"@[0]);
    assert("smgp"@[2] != "smpp"@[2] && "smgp"@[2] != "sgip"@[2] && "smpp"@[2] != "sgip"@[2]);
}

proof fn lemma_trim_front(blank: Seq<char>, s: Seq<char>)
    requires
        forall|i: int| 0 <= i < blank.len() ==> text::is_white_space(#[trigger] blank[i]),
        s.len() > 0,
        !text::is_white_space(s[0]),
    ensures
        text::trim_front(blank + s) == s,
    decreases blank.len(),
{
    if blank.len() == 0 {
        assert(blank + s =~= s);
    } else {
        assert((blank + s)[0] == blank[0]);
        assert((blank + s).skip(1) =~= blank.skip(1) + s);
        lemma_trim_front(blank.skip(1), s);
    }
}

proof fn lemma_trim_back(s: Seq<char>, blank: Seq<char>)
    requires
        forall|i: int| 0 <= i < blank.len() ==> text::is_white_space(#[trigger] blank[i]),
        s.len() > 0,
        !text::is_white_space(s.last()),
    ensures
        text::trim_back(s + blank) == s,
    decreases blank.len(),
{
    if blank.len() == 0 {
        assert(s + blank =~= s);
    } else {
        assert((s + blank).last() == blank.last());
        assert((s + blank).drop_last() =~= s + blank.drop_last());
        lemma_trim_back(s, blank.drop_last());
    }
}

/// A protocol's name is looked up as itself, whichever of its letters are capitals and whatever
/// white space stands around it. With names that differ, it is read as the protocol.
pub proof fn law_name_is_found(p: Protocol, front: Seq<char>, name: Seq<char>, back: Seq<char>)
    requires
        name.map_values(|c: char| text::lower(c)) == p.name(),
        forall|i: int| 0 <= i < front.len() ==> text::is_white_space(#[trigger] front[i]),
        forall|i: int| 0 <= i < back.len() ==> text::is_white_space(#[trigger] back[i]),
    ensures
        Protocol::lookup_key(front + name + back) == p.name(),
{
    reveal_strlit("cmpp");
    reveal_strlit("smgp");
    reveal_strlit("smpp");
    reveal_strlit("sgip");
    let small = name.map_values(|c: char| text::lower(c));
    assert(small.len() == 4);
    assert(small[0] == text::lower(name[0]) && small[3] == text::lower(name[3]));
    assert(!text::is_white_space(name[0]) && !text::is_white_space(name.last()));
    assert(front + name + back =~= front + (name + back));
    lemma_trim_front(front, name + back);
    lemma_trim_back(name, back);
}

/// The headers in numbers: how long they are, and where the sequence number starts.
pub proof fn law_headers()
    ensures
        Protocol::Cmpp.header_size() == 12,
        Protocol::Smgp.header_size() == 12,
        Protocol::Smpp.header_size() == 16,
        Protocol::Sgip.header_size() == 20,
        Protocol::Cmpp.sequence_at() == 8,
        Protocol::Smgp.sequence_at() == 8,
        Protocol::Smpp.sequence_at() == 12,
        Protocol::Sgip.sequence_at() == 12,
{
}

/// Each protocol has its name.
pub proof fn law_names()
    ensures
        Protocol::Cmpp.name() == "cmpp"@,
        Protocol::Smgp.name() == "smgp"@,
        Protocol::Smpp.name() == "smpp"@,
        Protocol::Sgip.name() == "sgip"@,
{
}

} // verus!
