//! Zero terminated strings with a maximal length.

use crate::text;
use crate::wire;
use bytes::BytesMut;
use std::io::Cursor;
use vstd::prelude::*;
use vstd::string::*;
use vstd::utf8::*;

verus! {

/// Why a string could not be read or written.
#[derive(Debug)]
pub enum CstringError {
    /// The data ends before the string does.
    Incomplete,
    /// The string and its terminator do not fit into `max_len` bytes.
    FieldTooLong { field: &'static str, max_len: usize },
}

impl CstringError {
    /// The text of the error.
    pub open spec fn text(self) -> Seq<char> {
        match self {
            CstringError::Incomplete => "buffer incomplete for cstring"@,
            CstringError::FieldTooLong { field, max_len } => field@
                + " exceeds maximum length of "@ + text::decimal_chars((max_len - 1) as nat)
                + " bytes"@,
        }
    }

    /// The text of the error. A maximal length of zero has no room for a terminator and no
    /// text.
    pub fn to_text(&self) -> (s: String)
        requires
            self matches CstringError::FieldTooLong { field, max_len } ==> max_len > 0,
        ensures
            s@ == self.text(),
    {
        match self {
            CstringError::Incomplete => "buffer incomplete for cstring".to_owned(),
            CstringError::FieldTooLong { field, max_len } => {
                let mut s = (*field).to_owned();
                s.append(" exceeds maximum length of ");
                s.append(text::decimal((*max_len - 1) as u64).as_str());
                s.append(" bytes");
                s
            },
        }
    }
}

/// How many bytes stand before the first zero.
pub open spec fn zero_at(s: Seq<u8>) -> nat
    decreases s.len(),
{
    if s.len() == 0 || s[0] == 0 {
        0
    } else {
        1 + zero_at(s.skip(1))
    }
}

/// The bytes start with a string that ends, terminator included, within `max_len` bytes.
pub open spec fn has_cstring(s: Seq<u8>, max_len: nat) -> bool {
    zero_at(s) < s.len() && zero_at(s) < max_len
}

/// The data ends before it is known whether a string fits.
pub open spec fn cut_cstring(s: Seq<u8>, max_len: nat) -> bool {
    zero_at(s) == s.len() && s.len() < max_len
}

/// What reading a string leaves: everything behind the terminator; if the data ends first,
/// nothing; if the string is too long, what follows the bytes read.
pub open spec fn after_cstring(s: Seq<u8>, max_len: nat) -> Seq<u8> {
    if has_cstring(s, max_len) {
        s.skip(zero_at(s) as int + 1)
    } else if cut_cstring(s, max_len) {
        Seq::empty()
    } else {
        s.skip(max_len as int)
    }
}

/// The first zero, if any, and no zero before it.
pub proof fn lemma_zero_at(s: Seq<u8>)
    ensures
        zero_at(s) <= s.len(),
        zero_at(s) < s.len() ==> s[zero_at(s) as int] == 0,
        forall|i: int| 0 <= i < zero_at(s) ==> s[i] != 0,
    decreases s.len(),
{
    if s.len() > 0 && s[0] != 0 {
        lemma_zero_at(s.skip(1));
        assert forall|i: int| 0 <= i < zero_at(s) implies s[i] != 0 by {
            if i > 0 {
                assert(s[i] == s.skip(1)[i - 1]);
            }
        }
        if zero_at(s) < s.len() {
            assert(s[zero_at(s) as int] == s.skip(1)[zero_at(s) - 1]);
        }
    }
}

/// A sequence whose first zero, or whose end, is at `n`.
pub proof fn lemma_zero_at_unique(s: Seq<u8>, n: nat)
    requires
        n <= s.len(),
        n < s.len() ==> s[n as int] == 0,
        forall|i: int| 0 <= i < n ==> s[i] != 0,
    ensures
        zero_at(s) == n,
{
    lemma_zero_at(s);
    if zero_at(s) < n {
        assert(s[zero_at(s) as int] != 0);
    } else if n < zero_at(s) {
        assert(s[n as int] != 0);
    }
}

/// Reads a zero terminated string of at most `max_len` bytes, terminator included.
pub fn decode_cstring(
    buf: &mut Cursor<&[u8]>,
    max_len: usize,
    field_name: &'static str,
) -> (res: Result<String, CstringError>)
    ensures
        match res {
            Ok(s) => has_cstring(wire::cursor_rest(*old(buf)), max_len as nat) && s@ == text::lossy_chars(
                wire::cursor_rest(*old(buf)).take(zero_at(wire::cursor_rest(*old(buf))) as int),
            ),
            Err(CstringError::Incomplete) => cut_cstring(wire::cursor_rest(*old(buf)), max_len as nat),
            Err(CstringError::FieldTooLong { field, max_len: limit }) => !has_cstring(
                wire::cursor_rest(*old(buf)),
                max_len as nat,
            ) && !cut_cstring(wire::cursor_rest(*old(buf)), max_len as nat) && field == field_name
                && limit == max_len,
        },
        wire::cursor_rest(*final(buf)) == after_cstring(wire::cursor_rest(*old(buf)), max_len as nat),
{
    let ghost all = wire::cursor_rest(*buf);
    let mut string_bytes: Vec<u8> = Vec::new();
    let mut bytes_read: usize = 0;
    while bytes_read < max_len
        invariant
            bytes_read <= max_len,
            bytes_read <= all.len(),
            string_bytes@ == all.take(bytes_read as int),
            wire::cursor_rest(*buf) == all.skip(bytes_read as int),
            forall|i: int| 0 <= i < bytes_read ==> all[i] != 0,
            all == wire::cursor_rest(*old(buf)),
        decreases max_len - bytes_read,
    {
        if wire::remaining(buf) == 0 {
            proof {
                lemma_zero_at_unique(all, bytes_read as nat);
                assert(wire::cursor_rest(*buf) =~= Seq::<u8>::empty());
            }
            return Err(CstringError::Incomplete);
        }
        let byte: u8 = wire::get_u8(buf);
        proof {
            assert(byte == all[bytes_read as int]);
            assert(wire::cursor_rest(*buf) =~= all.skip(bytes_read + 1));
        }
        bytes_read = bytes_read + 1;
        if byte == 0 {
            proof {
                lemma_zero_at_unique(all, (bytes_read - 1) as nat);
            }
            return Ok(text::from_utf8_lossy(string_bytes.as_slice()));
        }
        string_bytes.push(byte);
        assert(string_bytes@ =~= all.take(bytes_read as int));
    }
    proof {
        lemma_zero_at(all);
    }
    Err(CstringError::FieldTooLong { field: field_name, max_len })
}

/// The bytes of a string on the wire: its UTF-8 bytes and a zero.
pub open spec fn cstring_bytes(chars: Seq<char>) -> Seq<u8> {
    encode_utf8(chars).push(0)
}

/// Appends a string and its terminator if they fit into `max_len` bytes, and else nothing.
pub fn encode_cstring(buf: &mut BytesMut, value: &str, max_len: usize) -> (res: Result<
    (),
    CstringError,
>)
    ensures
        res is Ok <==> encode_utf8(value@).len() < max_len,
        res is Ok ==> wire::buffer_bytes(*final(buf)) == wire::buffer_bytes(*old(buf)) + cstring_bytes(value@),
        res is Err ==> wire::buffer_bytes(*final(buf)) == wire::buffer_bytes(*old(buf)),
        res matches Err(e) ==> (e matches CstringError::FieldTooLong { field, max_len: limit }
            && field@ == "cstring"@ && limit == max_len),
{
    let bytes = value.as_bytes();
    if bytes.len() >= max_len {
        return Err(CstringError::FieldTooLong { field: "cstring", max_len });
    }
    let ghost before = wire::buffer_bytes(*buf);
    wire::put_slice(buf, bytes);
    wire::put_u8(buf, 0);
    assert(wire::buffer_bytes(*buf) =~= before + cstring_bytes(value@));
    Ok(())
}

/// A string without a zero character in it, written and read back with the same limit, is the
/// string, and what follows it is left to read.
pub proof fn law_cstring_roundtrip(chars: Seq<char>, max_len: nat, tail: Seq<u8>)
    requires
        encode_utf8(chars).len() < max_len,
        !encode_utf8(chars).contains(0),
    ensures
        has_cstring(cstring_bytes(chars) + tail, max_len),
        text::lossy_chars(
            (cstring_bytes(chars) + tail).take(zero_at(cstring_bytes(chars) + tail) as int),
        ) == chars,
        after_cstring(cstring_bytes(chars) + tail, max_len) == tail,
{
    let body = encode_utf8(chars);
    let all = cstring_bytes(chars) + tail;
    assert forall|i: int| 0 <= i < body.len() implies all[i] != 0 by {
        assert(all[i] == body[i]);
        assert(body.contains(body[i]));
    }
    lemma_zero_at_unique(all, body.len());
    assert(all.take(body.len() as int) =~= body);
    text::law_utf8_roundtrip(chars);
    assert(all.skip(body.len() as int + 1) =~= tail);
}

/// A string ends at its first zero, which must stand within its field; then what is left is what
/// stands behind the zero. Without one there, the string is cut if the data ends first and else too
/// long, and then as many bytes are gone as the field has.
pub proof fn law_where_strings_end(s: Seq<u8>, i: int, max_len: nat)
    requires
        0 <= i <= s.len(),
        forall|j: int| 0 <= j < i ==> #[trigger] s[j] != 0,
    ensures
        i < s.len() && s[i] == 0 && i < max_len ==> zero_at(s) == i && has_cstring(s, max_len)
            && after_cstring(s, max_len) == s.subrange(i + 1, s.len() as int),
        i == s.len() && i < max_len ==> !has_cstring(s, max_len) && cut_cstring(s, max_len)
            && after_cstring(s, max_len).len() == 0,
        i == max_len ==> !has_cstring(s, max_len) && !cut_cstring(s, max_len) && after_cstring(
            s,
            max_len,
        ) == s.subrange(i, s.len() as int),
{
    lemma_zero_at(s);
    if i < s.len() && s[i] == 0 && i < max_len {
        lemma_zero_at_unique(s, i as nat);
        assert(s.skip(i + 1) =~= s.subrange(i + 1, s.len() as int));
    }
    if i == s.len() {
        lemma_zero_at_unique(s, i as nat);
    }
    if i == max_len {
        if zero_at(s) < i {
            assert(s[zero_at(s) as int] != 0);
        }
        assert(s.skip(i) =~= s.subrange(i, s.len() as int));
    }
}

/// A string on the wire: its bytes and a zero. The texts of the errors.
pub proof fn law_strings_on_wire(chars: Seq<char>, e: CstringError)
    ensures
        cstring_bytes(chars) == encode_utf8(chars) + seq![0u8],
        e is Incomplete ==> e.text() == "buffer incomplete for cstring"@,
        e matches CstringError::FieldTooLong { field, max_len } ==> e.text() == field@
            + " exceeds maximum length of "@ + text::decimal_chars((max_len - 1) as nat)
            + " bytes"@,
{
    assert(cstring_bytes(chars) =~= encode_utf8(chars) + seq![0u8]);
}

} // verus!
