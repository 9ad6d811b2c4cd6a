//! Strings in fields of a fixed length, padded with zeros.

use crate::text;
use crate::wire;
use bytes::BytesMut;
use std::io::{Cursor, Read};
use vstd::prelude::*;
use vstd::string::*;
use vstd::utf8::*;

verus! {

/// Bytes without the zeros at their end.
pub open spec fn strip_zeros(s: Seq<u8>) -> Seq<u8>
    decreases s.len(),
{
    if s.len() > 0 && s.last() == 0 {
        strip_zeros(s.drop_last())
    } else {
        s
    }
}

/// A number of zeros.
pub open spec fn zeros(n: nat) -> Seq<u8> {
    Seq::new(n, |i: int| 0u8)
}

/// Bytes followed by zeros, up to a length.
pub open spec fn padded(s: Seq<u8>, len: nat) -> Seq<u8> {
    s + zeros((len - s.len()) as nat)
}

/// The text of the error for a value that does not fit its field.
pub open spec fn overflow_text(field: Seq<char>, len: nat, max_len: nat) -> Seq<char> {
    "field '"@ + field + "' length "@ + text::decimal_chars(len) + " exceeds max "@
        + text::decimal_chars(max_len) + " bytes"@
}

/// Appends a string in a field of `max_len` bytes.
pub fn encode_pstring(
    buf: &mut BytesMut,
    value: &str,
    max_len: usize,
    field_name: &'static str,
) -> (res: Result<(), String>)
    requires
        wire::buffer_bytes(*old(buf)).len() + max_len <= isize::MAX,
    ensures
        res is Ok <==> encode_utf8(value@).len() <= max_len,
        res is Ok ==> wire::buffer_bytes(*final(buf)) == wire::buffer_bytes(*old(buf)) + padded(
            encode_utf8(value@),
            max_len as nat,
        ),
        res is Err ==> wire::buffer_bytes(*final(buf)) == wire::buffer_bytes(*old(buf)),
        res matches Err(e) ==> e@ == overflow_text(
            field_name@,
            encode_utf8(value@).len(),
            max_len as nat,
        ),
{
    let bytes = value.as_bytes();
    if bytes.len() > max_len {
        let mut s = "field '".to_owned();
        s.append(field_name);
        s.append("' length ");
        s.append(text::decimal(bytes.len() as u64).as_str());
        s.append(" exceeds max ");
        s.append(text::decimal(max_len as u64).as_str());
        s.append(" bytes");
        return Err(s);
    }
    let ghost before = wire::buffer_bytes(*buf);
    wire::put_slice(buf, bytes);
    wire::put_bytes(buf, 0, max_len - bytes.len());
    assert(wire::buffer_bytes(*buf) =~= before + padded(encode_utf8(value@), max_len as nat));
    Ok(())
}

/// `Read::read_exact` on a cursor: fills `target` with the next bytes, if there are enough of
/// them. Where a failed read leaves the cursor is not said.
#[verifier::external_body]
fn read_exact(cursor: &mut Cursor<&[u8]>, target: &mut Vec<u8>) -> (res: Result<(), std::io::Error>)
    ensures
        res is Ok <==> wire::cursor_rest(*old(cursor)).len() >= old(target)@.len(),
        res is Ok ==> final(target)@ == wire::cursor_rest(*old(cursor)).take(
            old(target)@.len() as int,
        ) && wire::cursor_rest(*final(cursor)) == wire::cursor_rest(*old(cursor)).skip(
            old(target)@.len() as int,
        ),
{
    cursor.read_exact(target)
}

/// Reads a string from a field of `max_len` bytes and drops the padding.
pub fn decode_pstring(buf: &mut Cursor<&[u8]>, max_len: usize) -> (res: Result<
    String,
    std::io::Error,
>)
    requires
        max_len <= isize::MAX,
    ensures
        res is Ok <==> wire::cursor_rest(*old(buf)).len() >= max_len,
        res matches Ok(s) ==> s@ == text::lossy_chars(
            strip_zeros(wire::cursor_rest(*old(buf)).take(max_len as int)),
        ) && wire::cursor_rest(*final(buf)) == wire::cursor_rest(*old(buf)).skip(max_len as int),
{
    let mut bytes: Vec<u8> = vec![0u8; max_len];
    match read_exact(buf, &mut bytes) {
        Err(e) => {
            return Err(e);
        },
        Ok(_) => {},
    }
    let ghost field = bytes@;
    while bytes.len() > 0 && bytes[bytes.len() - 1] == 0
        invariant
            strip_zeros(bytes@) == strip_zeros(field),
        decreases bytes@.len(),
    {
        let ghost before = bytes@;
        bytes.pop();
        assert(bytes@ =~= before.drop_last());
    }
    assert(strip_zeros(bytes@) == bytes@);
    Ok(text::from_utf8_lossy(bytes.as_slice()))
}

proof fn lemma_strip_padding(s: Seq<u8>, n: nat)
    requires
        s.len() == 0 || s.last() != 0,
    ensures
        strip_zeros(s + zeros(n)) == s,
    decreases n,
{
    if n == 0 {
        assert(s + zeros(0) =~= s);
    } else {
        let all = s + zeros(n);
        assert(all.drop_last() =~= s + zeros((n - 1) as nat));
        lemma_strip_padding(s, (n - 1) as nat);
    }
}

/// A string that does not end in a zero, written to a field that it fits and read back, is the
/// string, and what follows the field is left to read.
pub proof fn law_pstring_roundtrip(chars: Seq<char>, max_len: nat, tail: Seq<u8>)
    requires
        encode_utf8(chars).len() <= max_len,
        encode_utf8(chars).len() == 0 || encode_utf8(chars).last() != 0,
    ensures
        ({
            let all = padded(encode_utf8(chars), max_len) + tail;
            &&& all.len() >= max_len
            &&& text::lossy_chars(strip_zeros(all.take(max_len as int))) == chars
            &&& all.skip(max_len as int) == tail
        }),
{
    let body = encode_utf8(chars);
    let all = padded(body, max_len) + tail;
    assert(all.take(max_len as int) =~= body + zeros((max_len - body.len()) as nat));
    assert(all.skip(max_len as int) =~= tail);
    lemma_strip_padding(body, (max_len - body.len()) as nat);
    text::law_utf8_roundtrip(chars);
}

/// A written field is as long as it was asked for.
pub proof fn law_pstring_length(s: Seq<u8>, max_len: nat)
    requires
        s.len() <= max_len,
    ensures
        padded(s, max_len).len() == max_len,
{
}

/// What a field is: the bytes, and zeros behind them up to its length.
pub proof fn law_padding(s: Seq<u8>, len: nat, i: int)
    requires
        s.len() <= len,
        0 <= i < len,
    ensures
        padded(s, len).len() == len,
        i < s.len() ==> padded(s, len)[i] == s[i],
        i >= s.len() ==> padded(s, len)[i] == 0,
{
}

/// What is left without padding: a front part that does not end in a zero, with only zeros behind
/// it.
pub proof fn law_stripped(s: Seq<u8>)
    ensures
        strip_zeros(s).len() <= s.len(),
        strip_zeros(s) == s.subrange(0, strip_zeros(s).len() as int),
        strip_zeros(s).len() > 0 ==> strip_zeros(s).last() != 0,
        forall|i: int| strip_zeros(s).len() <= i < s.len() ==> #[trigger] s[i] == 0,
    decreases s.len(),
{
    if s.len() > 0 && s.last() == 0 {
        law_stripped(s.drop_last());
        assert forall|i: int| strip_zeros(s).len() <= i < s.len() implies #[trigger] s[i] == 0 by {
            if i < s.len() - 1 {
                assert(s.drop_last()[i] == s[i]);
            }
        }
        assert(s.drop_last().subrange(0, strip_zeros(s).len() as int) =~= s.subrange(
            0,
            strip_zeros(s).len() as int,
        ));
    } else {
        assert(s.subrange(0, s.len() as int) =~= s);
    }
}

/// The text of the error for a value that does not fit its field.
pub proof fn law_overflow_text(field: Seq<char>, len: nat, max_len: nat)
    ensures
        overflow_text(field, len, max_len) == "field '"@ + field + "' length "@
            + text::decimal_chars(len) + " exceeds max "@ + text::decimal_chars(max_len)
            + " bytes"@,
{
}

} // verus!
