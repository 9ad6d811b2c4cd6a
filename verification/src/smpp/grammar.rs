//! How the bodies of PDUs are put together: what reading and writing a series of fields gives.

use crate::cstring;
use crate::text;
use vstd::prelude::*;
use vstd::utf8::*;

verus! {

/// Why reading a field failed.
pub enum Fault {
    /// There is no byte left.
    NoByte,
    /// The data ends within a string.
    Cut,
    /// A string is too long for its field.
    TooLong { field: Seq<char>, max_len: nat },
}

/// A position in a body that is read field by field. After a field that cannot be read, nothing
/// more is read.
#[verifier::ext_equal]
pub struct Scan {
    pub rest: Seq<u8>,
    pub fault: Option<Fault>,
}

impl Scan {
    /// The start of a body.
    pub open spec fn of(body: Seq<u8>) -> Scan {
        Scan { rest: body, fault: None }
    }

    /// Everything so far could be read.
    pub open spec fn ok(self) -> bool {
        self.fault is None
    }

    /// The byte that comes next.
    pub open spec fn byte(self) -> u8 {
        self.rest[0]
    }

    /// Behind a byte.
    pub open spec fn after_byte(self) -> Scan {
        if self.fault is Some {
            self
        } else if self.rest.len() == 0 {
            Scan { rest: self.rest, fault: Some(Fault::NoByte) }
        } else {
            Scan { rest: self.rest.skip(1), fault: None }
        }
    }

    /// The string that comes next.
    pub open spec fn string(self) -> Seq<char> {
        text::lossy_chars(self.rest.take(cstring::zero_at(self.rest) as int))
    }

    /// Behind a string in a field of a given length.
    pub open spec fn after_string(self, max_len: nat, field: Seq<char>) -> Scan {
        if self.fault is Some {
            self
        } else {
            Scan {
                rest: cstring::after_cstring(self.rest, max_len),
                fault: if cstring::has_cstring(self.rest, max_len) {
                    None
                } else if cstring::cut_cstring(self.rest, max_len) {
                    Some(Fault::Cut)
                } else {
                    Some(Fault::TooLong { field, max_len })
                },
            }
        }
    }

    /// Behind the next `n` bytes, which must be there.
    pub open spec fn after_exactly(self, n: nat) -> Scan {
        if self.fault is Some {
            self
        } else if self.rest.len() < n {
            Scan { rest: self.rest, fault: Some(Fault::NoByte) }
        } else {
            Scan { rest: self.rest.skip(n as int), fault: None }
        }
    }

    /// The next `n` bytes, if there are that many.
    pub open spec fn bytes(self, n: nat) -> Seq<u8> {
        if self.rest.len() >= n {
            self.rest.take(n as int)
        } else {
            Seq::empty()
        }
    }

    /// Behind the next `n` bytes, if there are that many.
    pub open spec fn after_bytes(self, n: nat) -> Scan {
        if self.fault is None && self.rest.len() >= n {
            Scan { rest: self.rest.skip(n as int), fault: None }
        } else {
            self
        }
    }
}

/// What has been written of a body, field by field. After a string that does not fit its field,
/// nothing more is written; `fault` is then the length of that field.
#[verifier::ext_equal]
pub struct Written {
    pub bytes: Seq<u8>,
    pub fault: Option<usize>,
}

impl Written {
    /// Nothing yet.
    pub open spec fn new() -> Written {
        Written { bytes: Seq::empty(), fault: None }
    }

    /// Everything so far could be written.
    pub open spec fn ok(self) -> bool {
        self.fault is None
    }

    /// With a byte.
    pub open spec fn byte(self, value: u8) -> Written {
        if self.fault is Some {
            self
        } else {
            Written { bytes: self.bytes.push(value), fault: None }
        }
    }

    /// With a string in a field of a given length.
    pub open spec fn string(self, chars: Seq<char>, max_len: usize) -> Written {
        if self.fault is Some {
            self
        } else if encode_utf8(chars).len() < max_len {
            Written { bytes: self.bytes + cstring::cstring_bytes(chars), fault: None }
        } else {
            Written { bytes: self.bytes, fault: Some(max_len) }
        }
    }

    /// With bytes as they are.
    pub open spec fn raw(self, data: Seq<u8>) -> Written {
        if self.fault is Some {
            self
        } else {
            Written { bytes: self.bytes + data, fault: None }
        }
    }
}

/// A text that a field can carry: it fits with its terminator, and has no zero in it.
pub open spec fn fits(chars: Seq<char>, max_len: nat) -> bool {
    encode_utf8(chars).len() < max_len && !encode_utf8(chars).contains(0)
}

/// What follows a string follows it in what has been written.
pub proof fn lemma_then_string(w: Written, chars: Seq<char>, max_len: usize, tail: Seq<u8>)
    requires
        w.ok(),
        encode_utf8(chars).len() < max_len,
    ensures
        w.string(chars, max_len).ok(),
        w.string(chars, max_len).bytes + tail == w.bytes + (cstring::cstring_bytes(chars) + tail),
{
    assert(w.bytes + cstring::cstring_bytes(chars) + tail =~= w.bytes + (cstring::cstring_bytes(
        chars,
    ) + tail));
}

/// What follows a byte follows it in what has been written.
pub proof fn lemma_then_byte(w: Written, value: u8, tail: Seq<u8>)
    requires
        w.ok(),
    ensures
        w.byte(value).ok(),
        w.byte(value).bytes + tail == w.bytes + (seq![value] + tail),
{
    assert(w.bytes.push(value) + tail =~= w.bytes + (seq![value] + tail));
}

/// What follows bytes follows them in what has been written.
pub proof fn lemma_then_raw(w: Written, data: Seq<u8>, tail: Seq<u8>)
    requires
        w.ok(),
    ensures
        w.raw(data).ok(),
        w.raw(data).bytes + tail == w.bytes + (data + tail),
{
    assert(w.bytes + data + tail =~= w.bytes + (data + tail));
}

/// Before anything has been written, what follows is all there is.
pub proof fn lemma_new(tail: Seq<u8>)
    ensures
        Written::new().bytes + tail == tail,
{
    assert(Written::new().bytes + tail =~= tail);
}

/// Reading a byte that was written gives the byte, and what was written behind it comes next.
pub proof fn lemma_read_byte(value: u8, tail: Seq<u8>)
    ensures
        Scan::of(seq![value] + tail).byte() == value,
        Scan::of(seq![value] + tail).after_byte() == Scan::of(tail),
{
    assert((seq![value] + tail).skip(1) =~= tail);
}

/// Reading a string that was written gives the string, and what was written behind it comes
/// next.
pub proof fn lemma_read_string(chars: Seq<char>, max_len: nat, field: Seq<char>, tail: Seq<u8>)
    requires
        fits(chars, max_len),
    ensures
        Scan::of(cstring::cstring_bytes(chars) + tail).string() == chars,
        Scan::of(cstring::cstring_bytes(chars) + tail).after_string(max_len, field) == Scan::of(tail),
{
    cstring::law_cstring_roundtrip(chars, max_len, tail);
}

/// A string is what stands in front of the next zero; one that leaves no room for the zero in its
/// field is too long.
pub proof fn law_string_by_bytes(a: Seq<u8>, max_len: nat, field: Seq<char>, tail: Seq<u8>)
    requires
        !a.contains(0),
    ensures
        Scan::of(a + seq![0u8] + tail).string() == text::lossy_chars(a),
        a.len() < max_len ==> Scan::of(a + seq![0u8] + tail).after_string(max_len, field)
            == Scan::of(tail),
        a.len() >= max_len ==> Scan::of(a + seq![0u8] + tail).after_string(max_len, field).fault
            == Some(Fault::TooLong { field, max_len }),
{
    let s = a + seq![0u8] + tail;
    assert forall|i: int| 0 <= i < a.len() implies s[i] != 0 by {
        assert(a.contains(a[i]));
    }
    cstring::lemma_zero_at_unique(s, a.len());
    assert(s.take(a.len() as int) =~= a);
    assert(s.skip(a.len() as int + 1) =~= tail);
}

/// A string without a zero cannot be read: where the data ends within its field it is cut, and
/// where it fills the field it is too long.
pub proof fn law_string_without_end(a: Seq<u8>, max_len: nat, field: Seq<char>)
    requires
        !a.contains(0),
    ensures
        a.len() < max_len ==> Scan::of(a).after_string(max_len, field).fault == Some(Fault::Cut),
        a.len() >= max_len ==> Scan::of(a).after_string(max_len, field).fault == Some(
            Fault::TooLong { field, max_len },
        ),
{
    assert forall|i: int| 0 <= i < a.len() implies a[i] != 0 by {
        assert(a.contains(a[i]));
    }
    cstring::lemma_zero_at_unique(a, a.len());
}

/// Bytes are read one by one while there are any, and after a failure nothing more is read.
pub proof fn law_bytes_by_bytes(scan: Scan, n: nat, max_len: nat, field: Seq<char>)
    ensures
        Scan::of(scan.rest).after_byte().ok() <==> scan.rest.len() >= 1,
        scan.rest.len() >= n ==> Scan::of(scan.rest).after_exactly(n) == Scan::of(
            scan.rest.subrange(n as int, scan.rest.len() as int),
        ) && Scan::of(scan.rest).after_bytes(n) == Scan::of(
            scan.rest.subrange(n as int, scan.rest.len() as int),
        ) && scan.bytes(n) == scan.rest.subrange(0, n as int),
        scan.rest.len() < n ==> Scan::of(scan.rest).after_exactly(n).fault == Some(Fault::NoByte)
            && Scan::of(scan.rest).after_bytes(n) == Scan::of(scan.rest) && scan.bytes(n).len() == 0,
        !scan.ok() ==> scan.after_byte() == scan && scan.after_string(max_len, field) == scan
            && scan.after_exactly(n) == scan && scan.after_bytes(n) == scan,
{
    if scan.rest.len() >= n {
        assert(scan.rest.skip(n as int) =~= scan.rest.subrange(
            n as int,
            scan.rest.len() as int,
        ));
        assert(scan.rest.take(n as int) =~= scan.rest.subrange(0, n as int));
    }
}

/// What is written is what was written before and then the field, until a string does not fit.
pub proof fn law_written_by_bytes(w: Written, value: u8, chars: Seq<char>, max_len: usize, data: Seq<u8>)
    ensures
        w.ok() ==> w.byte(value).bytes == w.bytes + seq![value] && w.byte(value).ok(),
        w.ok() ==> w.raw(data).bytes == w.bytes + data && w.raw(data).ok(),
        w.ok() && encode_utf8(chars).len() < max_len ==> w.string(chars, max_len).bytes == w.bytes
            + encode_utf8(chars) + seq![0u8] && w.string(chars, max_len).ok(),
        w.ok() && encode_utf8(chars).len() >= max_len ==> w.string(chars, max_len).bytes == w.bytes
            && !w.string(chars, max_len).ok(),
        !w.ok() ==> w.byte(value) == w && w.raw(data) == w && w.string(chars, max_len) == w,
        Written::new().ok(),
        Written::new().bytes.len() == 0,
        fits(chars, max_len as nat) <==> encode_utf8(chars).len() < max_len && forall|i: int|
            0 <= i < encode_utf8(chars).len() ==> #[trigger] encode_utf8(chars)[i] != 0,
{
    assert(w.bytes + encode_utf8(chars) + seq![0u8] =~= w.bytes + encode_utf8(chars).push(0));
    if exists|i: int| 0 <= i < encode_utf8(chars).len() && #[trigger] encode_utf8(chars)[i] == 0 {
        assert(encode_utf8(chars).contains(0));
    }
}

} // verus!
