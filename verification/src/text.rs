//! Text: numbers in decimal and hexadecimal, searching and trimming, and bytes read as UTF-8.

use vstd::prelude::*;
use vstd::string::*;
use vstd::utf8::*;

verus! {

/// The character of a hexadecimal digit, in lower case.
pub open spec fn digit_char(d: nat) -> char {
    if d == 0 { '0' } else if d == 1 { '1' } else if d == 2 { '2' } else if d == 3 { '3' }
    else if d == 4 { '4' } else if d == 5 { '5' } else if d == 6 { '6' } else if d == 7 { '7' }
    else if d == 8 { '8' } else if d == 9 { '9' } else if d == 10 { 'a' } else if d == 11 { 'b' }
    else if d == 12 { 'c' } else if d == 13 { 'd' } else if d == 14 { 'e' } else { 'f' }
}

/// A number written in a base up to sixteen, without leading zeros.
pub open spec fn digits(n: nat, base: nat) -> Seq<char>
    recommends
        2 <= base <= 16,
    decreases n,
{
    if base < 2 || n < base {
        seq![digit_char(n)]
    } else {
        proof {
            vstd::arithmetic::div_mod::lemma_div_decreases(n as int, base as int);
        }
        digits(n / base, base).push(digit_char(n % base))
    }
}

/// A number in decimal.
pub open spec fn decimal_chars(n: nat) -> Seq<char> {
    digits(n, 10)
}

/// A number in hexadecimal, with the prefix `0x`.
pub open spec fn hex_chars(n: nat) -> Seq<char> {
    seq!['0', 'x'] + digits(n, 16)
}

/// Bytes in hexadecimal, two digits each.
pub open spec fn hex_bytes_chars(bytes: Seq<u8>) -> Seq<char>
    decreases bytes.len(),
{
    if bytes.len() == 0 {
        Seq::empty()
    } else {
        hex_bytes_chars(bytes.drop_last()) + seq![
            digit_char(bytes.last() as nat / 16),
            digit_char(bytes.last() as nat % 16),
        ]
    }
}

/// One digit as text.
fn digit_text(d: u64) -> (s: &'static str)
    requires
        d < 16,
    ensures
        s@ == seq![digit_char(d as nat)],
{
    proof {
        reveal_strlit("0");
        reveal_strlit("1");
        reveal_strlit("2");
        reveal_strlit("3");
        reveal_strlit("4");
        reveal_strlit("5");
        reveal_strlit("6");
        reveal_strlit("7");
        reveal_strlit("8");
        reveal_strlit("9");
        reveal_strlit("a");
        reveal_strlit("b");
        reveal_strlit("c");
        reveal_strlit("d");
        reveal_strlit("e");
        reveal_strlit("f");
    }
    match d {
        0 => "0",
        1 => "1",
        2 => "2",
        3 => "3",
        4 => "4",
        5 => "5",
        6 => "6",
        7 => "7",
        8 => "8",
        9 => "9",
        10 => "a",
        11 => "b",
        12 => "c",
        13 => "d",
        14 => "e",
        _ => "f",
    }
}

fn digits_text(n: u64, base: u64) -> (s: String)
    requires
        2 <= base <= 16,
    ensures
        s@ == digits(n as nat, base as nat),
    decreases n,
{
    if n < base {
        digit_text(n).to_owned()
    } else {
        proof {
            vstd::arithmetic::div_mod::lemma_div_decreases(n as int, base as int);
        }
        let mut s = digits_text(n / base, base);
        s.append(digit_text(n % base));
        s
    }
}

/// A number in decimal.
pub fn decimal(n: u64) -> (s: String)
    ensures
        s@ == decimal_chars(n as nat),
{
    digits_text(n, 10)
}

/// A number in hexadecimal, with the prefix `0x`.
pub fn hex(n: u64) -> (s: String)
    ensures
        s@ == hex_chars(n as nat),
{
    let mut s = "0x".to_owned();
    proof {
        reveal_strlit("0x");
        assert("0x"@ =~= seq!['0', 'x']);
    }
    s.append(digits_text(n, 16).as_str());
    s
}

/// Bytes in hexadecimal, two digits each.
pub fn hex_bytes(bytes: &[u8]) -> (s: String)
    ensures
        s@ == hex_bytes_chars(bytes@),
{
    let mut s = String::new();
    let mut i: usize = 0;
    while i < bytes.len()
        invariant
            i <= bytes@.len(),
            s@ == hex_bytes_chars(bytes@.take(i as int)),
        decreases bytes@.len() - i,
    {
        let b = bytes[i] as u64;
        let ghost before = s@;
        s.append(digit_text(b / 16));
        s.append(digit_text(b % 16));
        proof {
            let upto = bytes@.take(i + 1);
            assert(upto.drop_last() =~= bytes@.take(i as int));
            assert(s@ =~= before + seq![
                digit_char(upto.last() as nat / 16),
                digit_char(upto.last() as nat % 16),
            ]);
        }
        i = i + 1;
    }
    assert(bytes@.take(i as int) =~= bytes@);
    s
}

/// Bytes in decimal, with commas between them.
pub open spec fn comma_chars(bytes: Seq<u8>) -> Seq<char>
    decreases bytes.len(),
{
    if bytes.len() == 0 {
        Seq::empty()
    } else if bytes.len() == 1 {
        decimal_chars(bytes[0] as nat)
    } else {
        comma_chars(bytes.drop_last()) + ", "@ + decimal_chars(bytes.last() as nat)
    }
}

/// Bytes in decimal, with commas between them and brackets around them.
pub open spec fn list_chars(bytes: Seq<u8>) -> Seq<char> {
    "["@ + comma_chars(bytes) + "]"@
}

/// Bytes in decimal, with commas between them and brackets around them.
pub fn list(bytes: &[u8]) -> (s: String)
    ensures
        s@ == list_chars(bytes@),
{
    let mut inner = String::new();
    let mut i: usize = 0;
    while i < bytes.len()
        invariant
            i <= bytes@.len(),
            inner@ == comma_chars(bytes@.take(i as int)),
        decreases bytes@.len() - i,
    {
        let ghost upto = bytes@.take(i + 1);
        assert(upto.drop_last() =~= bytes@.take(i as int));
        if i > 0 {
            inner.append(", ");
        }
        inner.append(decimal(bytes[i] as u64).as_str());
        assert(inner@ =~= comma_chars(upto));
        i = i + 1;
    }
    assert(bytes@.take(i as int) =~= bytes@);
    let mut s = "[".to_owned();
    s.append(inner.as_str());
    s.append("]");
    s
}

/// Text with blanks behind it, up to a width.
pub open spec fn padded(s: Seq<char>, width: nat) -> Seq<char> {
    s + Seq::new(
        if s.len() < width {
            (width - s.len()) as nat
        } else {
            0
        },
        |i: int| ' ',
    )
}

/// Text with blanks behind it, up to a width.
pub fn pad(s: &str, width: usize) -> (t: String)
    ensures
        t@ == padded(s@, width as nat),
{
    let mut t = s.to_owned();
    let mut n: usize = s.unicode_len();
    let ghost len = s@.len() as int;
    proof {
        reveal_strlit(" ");
    }
    assert(t@ =~= s@ + Seq::new((n - len) as nat, |i: int| ' '));
    while n < width
        invariant
            len == s@.len(),
            len <= n,
            n <= width || n == len,
            " "@ =~= seq![' '],
            t@ == s@ + Seq::new((n - len) as nat, |i: int| ' '),
        decreases width - n,
    {
        t.append(" ");
        assert(t@ =~= s@ + Seq::new((n + 1 - len) as nat, |i: int| ' '));
        n = n + 1;
    }
    assert(t@ =~= padded(s@, width as nat));
    t
}

/// Whether two texts are the same.
pub fn same_text(a: &str, b: &str) -> (same: bool)
    ensures
        same == (a@ == b@),
{
    a.to_owned() == b.to_owned()
}

/// A white space character, by the Unicode property of that name.
pub open spec fn is_white_space(c: char) -> bool {
    ||| '\u{9}' <= c <= '\u{d}'
    ||| c == ' '
    ||| c == '\u{85}'
    ||| c == '\u{a0}'
    ||| c == '\u{1680}'
    ||| '\u{2000}' <= c <= '\u{200a}'
    ||| c == '\u{2028}'
    ||| c == '\u{2029}'
    ||| c == '\u{202f}'
    ||| c == '\u{205f}'
    ||| c == '\u{3000}'
}

/// Text without the white space in front of it.
pub open spec fn trim_front(s: Seq<char>) -> Seq<char>
    decreases s.len(),
{
    if s.len() > 0 && is_white_space(s[0]) {
        trim_front(s.skip(1))
    } else {
        s
    }
}

/// Text without the white space behind it.
pub open spec fn trim_back(s: Seq<char>) -> Seq<char>
    decreases s.len(),
{
    if s.len() > 0 && is_white_space(s.last()) {
        trim_back(s.drop_last())
    } else {
        s
    }
}

/// A character with the ASCII capitals made small.
pub open spec fn lower(c: char) -> char {
    if 'A' <= c <= 'Z' {
        (c as u32 + 32) as char
    } else {
        c
    }
}

/// Whether `needle` stands somewhere in `s`.
pub open spec fn contains_text(s: Seq<char>, needle: Seq<char>) -> bool {
    exists|i: int|
        0 <= i <= s.len() - needle.len() && #[trigger] s.subrange(i, i + needle.len()) == needle
}

/// Where `needle` stands first in `s` from `from` on, if it does.
pub open spec fn first_at(s: Seq<char>, needle: Seq<char>, from: int) -> Option<int>
    decreases s.len() - from + 1,
{
    if from < 0 || from + needle.len() > s.len() {
        None
    } else if s.subrange(from, from + needle.len()) == needle {
        Some(from)
    } else {
        first_at(s, needle, from + 1)
    }
}

/// How many characters there are up to the first white space.
pub open spec fn word_len(s: Seq<char>) -> nat
    decreases s.len(),
{
    if s.len() == 0 || is_white_space(s[0]) {
        0
    } else {
        1 + word_len(s.skip(1))
    }
}

/// The word behind the first place where a tag stands, if there is one.
pub open spec fn tagged_word(s: Seq<char>, tag: Seq<char>) -> Option<Seq<char>> {
    match first_at(s, tag, 0) {
        Some(at) => {
            let rest = s.skip(at + tag.len());
            if word_len(rest) == 0 {
                None
            } else {
                Some(rest.take(word_len(rest) as int))
            }
        },
        None => None,
    }
}

/// Text without the zero characters behind it.
pub open spec fn trim_zeros(s: Seq<char>) -> Seq<char>
    decreases s.len(),
{
    if s.len() > 0 && s.last() == '\0' {
        trim_zeros(s.drop_last())
    } else {
        s
    }
}

fn white_space(c: char) -> (yes: bool)
    ensures
        yes == is_white_space(c),
{
    ('\u{9}' <= c && c <= '\u{d}') || c == ' ' || c == '\u{85}' || c == '\u{a0}' || c == '\u{1680}'
        || ('\u{2000}' <= c && c <= '\u{200a}') || c == '\u{2028}' || c == '\u{2029}' || c
        == '\u{202f}' || c == '\u{205f}' || c == '\u{3000}'
}

proof fn lemma_word_len(s: Seq<char>, n: nat)
    requires
        n <= s.len(),
        forall|i: int| 0 <= i < n ==> !is_white_space(#[trigger] s[i]),
        n < s.len() ==> is_white_space(s[n as int]),
    ensures
        word_len(s) == n,
    decreases n,
{
    if n > 0 {
        assert forall|i: int| 0 <= i < n - 1 implies !is_white_space(#[trigger] s.skip(1)[i]) by {
            assert(s.skip(1)[i] == s[i + 1]);
        }
        lemma_word_len(s.skip(1), (n - 1) as nat);
        assert(!is_white_space(s[0]));
    }
}

/// Whether `needle` stands in `s` at `at`.
fn stands_at(s: &str, needle: &str, at: usize) -> (yes: bool)
    requires
        at + needle@.len() <= s@.len(),
    ensures
        yes == (s@.subrange(at as int, at + needle@.len()) == needle@),
{
    let len: usize = s.unicode_len();
    let n: usize = needle.unicode_len();
    let mut i: usize = 0;
    while i < n
        invariant
            i <= n,
            n == needle@.len(),
            len == s@.len(),
            at + n <= len,
            forall|j: int| 0 <= j < i ==> s@[at + j] == #[trigger] needle@[j],
        decreases n - i,
    {
        if s.get_char(at + i) != needle.get_char(i) {
            assert(s@.subrange(at as int, at + n)[i as int] != needle@[i as int]);
            return false;
        }
        i = i + 1;
    }
    assert(s@.subrange(at as int, at + n) =~= needle@);
    true
}

/// The word behind the first place where a tag stands, if there is one.
pub fn word_behind(s: &str, tag: &str) -> (word: Option<String>)
    ensures
        match tagged_word(s@, tag@) {
            Some(chars) => word matches Some(w) && w@ == chars,
            None => word is None,
        },
{
    let len: usize = s.unicode_len();
    let n: usize = tag.unicode_len();
    let mut at: usize = 0;
    while len - at >= n && !stands_at(s, tag, at)
        invariant
            at <= len,
            len == s@.len(),
            n == tag@.len(),
            first_at(s@, tag@, at as int) == first_at(s@, tag@, 0),
        decreases len - at,
    {
        proof {
            if at == len {
                assert(s@.subrange(at as int, at + n) =~= tag@);
            }
        }
        at = at + 1;
    }
    if len - at < n {
        return None;
    }
    let start: usize = at + n;
    let mut end: usize = start;
    while end < len && !white_space(s.get_char(end))
        invariant
            start <= end <= len,
            len == s@.len(),
            forall|i: int| start <= i < end ==> !is_white_space(#[trigger] s@[i]),
        decreases len - end,
    {
        end = end + 1;
    }
    proof {
        let rest = s@.skip(start as int);
        assert forall|i: int| 0 <= i < end - start implies !is_white_space(#[trigger] rest[i]) by {
            assert(rest[i] == s@[start + i]);
        }
        lemma_word_len(rest, (end - start) as nat);
        assert(rest.take(end - start) =~= s@.subrange(start as int, end as int));
    }
    if end == start {
        return None;
    }
    Some(s.substring_char(start, end).to_owned())
}

/// Text without the zero characters behind it.
pub fn without_zeros(s: &str) -> (t: String)
    ensures
        t@ == trim_zeros(s@),
{
    let len: usize = s.unicode_len();
    let mut n: usize = len;
    assert(s@.take(n as int) =~= s@);
    while n > 0 && s.get_char(n - 1) == '\0'
        invariant
            n <= len,
            len == s@.len(),
            trim_zeros(s@.take(n as int)) == trim_zeros(s@),
        decreases n,
    {
        assert(s@.take(n as int).drop_last() =~= s@.take(n - 1));
        n = n - 1;
    }
    assert(s@.take(n as int) =~= s@.subrange(0, n as int));
    s.substring_char(0, n).to_owned()
}

/// `str::trim`: the text without the white space in front of it and behind it.
#[verifier::external_body]
pub(crate) fn trim(s: &str) -> (t: &str)
    ensures
        t@ == trim_back(trim_front(s@)),
{
    s.trim()
}

/// `str::to_ascii_lowercase`: each ASCII capital made small, everything else as it is.
#[verifier::external_body]
pub(crate) fn to_ascii_lowercase(s: &str) -> (t: String)
    ensures
        t@ == s@.map_values(|c: char| lower(c)),
{
    s.to_ascii_lowercase()
}

/// `str::contains` with a text: whether the text stands somewhere in `s`.
#[verifier::external_body]
pub(crate) fn contains(s: &str, needle: &str) -> (found: bool)
    ensures
        found == contains_text(s@, needle@),
{
    s.contains(needle)
}

/// The text that `String::from_utf8_lossy` makes of bytes that are not valid UTF-8, with
/// replacement characters for what cannot be read.
pub uninterp spec fn repaired_chars(bytes: Seq<u8>) -> Seq<char>;

/// Bytes read as text: what they encode if they are valid UTF-8, and else a repaired text.
pub open spec fn lossy_chars(bytes: Seq<u8>) -> Seq<char> {
    if valid_utf8(bytes) {
        decode_utf8(bytes)
    } else {
        repaired_chars(bytes)
    }
}

/// `String::from_utf8_lossy`: bytes that are valid UTF-8 give the text that they encode, others
/// a repaired text.
#[verifier::external_body]
pub(crate) fn from_utf8_lossy(bytes: &[u8]) -> (s: String)
    ensures
        s@ == (if valid_utf8(bytes@) {
            decode_utf8(bytes@)
        } else {
            repaired_chars(bytes@)
        }),
{
    String::from_utf8_lossy(bytes).into_owned()
}

proof fn lemma_digits_len(n: nat)
    ensures
        digits(n, 10).len() >= 1,
        n >= 10 ==> digits(n, 10).len() >= 2,
    decreases n,
{
    if n >= 10 {
        lemma_digits_len(n / 10);
    }
}

/// Different numbers are different in decimal.
pub proof fn law_decimal_differs(m: nat, n: nat)
    requires
        decimal_chars(m) == decimal_chars(n),
    ensures
        m == n,
    decreases m,
{
    lemma_digits_len(m);
    lemma_digits_len(n);
    if m < 10 && n < 10 {
        assert(digits(m, 10)[0] == digit_char(m) && digits(n, 10)[0] == digit_char(n));
    } else if m >= 10 && n >= 10 {
        assert(digits(m, 10).drop_last() =~= digits(m / 10, 10));
        assert(digits(n, 10).drop_last() =~= digits(n / 10, 10));
        law_decimal_differs(m / 10, n / 10);
        assert(digits(m, 10).last() == digit_char(m % 10));
        assert(digits(n, 10).last() == digit_char(n % 10));
    } else if m < 10 {
        assert(digits(m, 10).len() == 1);
    } else {
        assert(digits(n, 10).len() == 1);
    }
}

/// Text written as UTF-8 and read back is the text.
pub proof fn law_utf8_roundtrip(chars: Seq<char>)
    ensures
        lossy_chars(encode_utf8(chars)) == chars,
{
    encode_utf8_valid_utf8(chars);
    encode_utf8_decode_utf8(chars);
}

/// Bytes that are valid UTF-8, read as text and written back, are the bytes.
pub proof fn law_utf8_bytes_roundtrip(bytes: Seq<u8>)
    requires
        valid_utf8(bytes),
    ensures
        encode_utf8(lossy_chars(bytes)) == bytes,
{
    decode_utf8_encode_utf8(bytes);
}

/// Zeros behind a text that does not end in one are cut off.
pub proof fn lemma_zeros_trimmed(s: Seq<char>, zeros: Seq<char>)
    requires
        s.len() > 0 ==> s.last() != '\0',
        forall|i: int| 0 <= i < zeros.len() ==> #[trigger] zeros[i] == '\0',
    ensures
        trim_zeros(s + zeros) == s,
    decreases zeros.len(),
{
    if zeros.len() == 0 {
        assert(s + zeros =~= s);
    } else {
        assert((s + zeros).last() == zeros[zeros.len() - 1]);
        assert((s + zeros).drop_last() =~= s + zeros.drop_last());
        lemma_zeros_trimmed(s, zeros.drop_last());
    }
}

/// A number in decimal: of one below ten its digit, and of another the digits of its tenth and then
/// the digit of the rest.
pub proof fn law_decimal(n: nat)
    ensures
        n < 10 ==> decimal_chars(n) == seq![(48 + n) as char],
        n >= 10 ==> decimal_chars(n) == decimal_chars(n / 10).push((48 + n % 10) as char),
{
}

/// The value of a hexadecimal digit.
pub open spec fn digit_value(c: char) -> int {
    if '0' <= c <= '9' {
        c as int - 48
    } else {
        c as int - 87
    }
}

/// Bytes in hexadecimal: two digits for each, the high one first.
pub proof fn law_hex_bytes(bytes: Seq<u8>)
    ensures
        hex_bytes_chars(bytes).len() == 2 * bytes.len(),
        forall|i: int|
            #![trigger bytes[i]]
            0 <= i < bytes.len() ==> digit_value(hex_bytes_chars(bytes)[2 * i]) * 16 + digit_value(
                hex_bytes_chars(bytes)[2 * i + 1],
            ) == bytes[i],
        forall|i: int|
            0 <= i < hex_bytes_chars(bytes).len() ==> '0' <= #[trigger] hex_bytes_chars(bytes)[i]
                <= '9' || 'a' <= hex_bytes_chars(bytes)[i] <= 'f',
    decreases bytes.len(),
{
    if bytes.len() > 0 {
        let head = bytes.drop_last();
        law_hex_bytes(head);
        assert forall|i: int| #![trigger bytes[i]] 0 <= i < bytes.len() implies digit_value(
            hex_bytes_chars(bytes)[2 * i],
        ) * 16 + digit_value(hex_bytes_chars(bytes)[2 * i + 1]) == bytes[i] by {
            if i < head.len() {
                assert(head[i] == bytes[i]);
                assert(hex_bytes_chars(bytes)[2 * i] == hex_bytes_chars(head)[2 * i]);
                assert(hex_bytes_chars(bytes)[2 * i + 1] == hex_bytes_chars(head)[2 * i + 1]);
            }
        }
        assert forall|i: int| 0 <= i < hex_bytes_chars(bytes).len() implies '0'
            <= #[trigger] hex_bytes_chars(bytes)[i] <= '9' || 'a' <= hex_bytes_chars(bytes)[i]
            <= 'f' by {
            if i < 2 * head.len() {
                assert(hex_bytes_chars(bytes)[i] == hex_bytes_chars(head)[i]);
            }
        }
    }
}

/// Different bytes are different in hexadecimal.
pub proof fn law_hex_bytes_differ(a: Seq<u8>, b: Seq<u8>)
    ensures
        hex_bytes_chars(a) == hex_bytes_chars(b) <==> a == b,
{
    law_hex_bytes(a);
    law_hex_bytes(b);
    if hex_bytes_chars(a) == hex_bytes_chars(b) {
        assert forall|i: int| 0 <= i < a.len() implies a[i] == b[i] by {}
        assert(a =~= b);
    }
}

proof fn lemma_first_at(s: Seq<char>, needle: Seq<char>, from: int, at: int)
    requires
        0 <= from <= at,
        at + needle.len() <= s.len(),
        s.subrange(at, at + needle.len()) == needle,
        forall|i: int| from <= i < at ==> #[trigger] s.subrange(i, i + needle.len())
            != needle,
    ensures
        first_at(s, needle, from) == Some(at),
    decreases at - from,
{
    if from < at {
        lemma_first_at(s, needle, from + 1, at);
    }
}

proof fn lemma_first_at_none(s: Seq<char>, needle: Seq<char>, from: int)
    requires
        0 <= from,
        forall|i: int| from <= i <= s.len() - needle.len() ==> #[trigger] s.subrange(i, i + needle.len())
            != needle,
    ensures
        first_at(s, needle, from) is None,
    decreases s.len() - from + 1,
{
    if from + needle.len() <= s.len() {
        lemma_first_at_none(s, needle, from + 1);
    }
}

/// The word behind a tag: if the tag stands first behind `head`, and `word`, which has no blank in
/// it, follows it up to the end or up to a blank, it is `word`; if the tag does not stand anywhere,
/// there is none.
pub proof fn law_tagged_word(head: Seq<char>, tag: Seq<char>, word: Seq<char>, tail: Seq<char>)
    requires
        word.len() > 0,
        forall|i: int| 0 <= i < word.len() ==> !is_white_space(#[trigger] word[i]),
        tail.len() > 0 ==> is_white_space(tail[0]),
        forall|i: int|
            0 <= i < head.len() ==> #[trigger] (head + tag + word + tail).subrange(
                i,
                i + tag.len(),
            ) != tag,
    ensures
        tagged_word(head + tag + word + tail, tag) == Some(word),
{
    let s = head + tag + word + tail;
    let at = head.len() as int;
    assert(s.subrange(at, at + tag.len()) =~= tag);
    lemma_first_at(s, tag, 0, at);
    let rest = s.skip(at + tag.len());
    assert(rest =~= word + tail);
    assert forall|i: int| 0 <= i < word.len() implies !is_white_space(#[trigger] rest[i]) by {
        assert(rest[i] == word[i]);
    }
    if tail.len() > 0 {
        assert(rest[word.len() as int] == tail[0]);
    }
    lemma_word_len(rest, word.len());
    assert(rest.take(word.len() as int) =~= word);
}

/// Without the tag there is no word behind it.
pub proof fn law_untagged(s: Seq<char>, tag: Seq<char>)
    requires
        forall|i: int| 0 <= i <= s.len() - tag.len() ==> #[trigger] s.subrange(i, i + tag.len()) != tag,
    ensures
        tagged_word(s, tag) is None,
{
    lemma_first_at_none(s, tag, 0);
}

/// Text with blanks behind it: it starts with the text, is as wide as asked for or as wide as the
/// text, and has nothing but blanks behind the text.
pub proof fn law_padded(s: Seq<char>, width: nat)
    ensures
        padded(s, width).len() == (if s.len() < width {
            width
        } else {
            s.len()
        }),
        padded(s, width).take(s.len() as int) == s,
        forall|i: int|
            s.len() <= i < padded(s, width).len() ==> #[trigger] padded(s, width)[i] == ' ',
{
    assert(padded(s, width).take(s.len() as int) =~= s);
}

/// A number in hexadecimal: `0x`, and of a number below sixteen its digit, and of another the digits
/// of its sixteenth and then the digit of the rest.
pub proof fn law_hex(n: nat)
    ensures
        hex_chars(n).subrange(0, 2) == seq!['0', 'x'],
        n < 10 ==> hex_chars(n) == seq!['0', 'x', (48 + n) as char],
        10 <= n < 16 ==> hex_chars(n) == seq!['0', 'x', (87 + n) as char],
        n >= 16 ==> hex_chars(n) == hex_chars(n / 16).push(
            if n % 16 < 10 {
                (48 + n % 16) as char
            } else {
                (87 + n % 16) as char
            },
        ),
{
    assert(hex_chars(n).subrange(0, 2) =~= seq!['0', 'x']);
    if n < 10 {
        assert(hex_chars(n) =~= seq!['0', 'x', (48 + n) as char]);
    } else if n < 16 {
        assert(hex_chars(n) =~= seq!['0', 'x', (87 + n) as char]);
    } else {
        assert(hex_chars(n) =~= hex_chars(n / 16).push(digit_char(n % 16)));
    }
}

/// A list of bytes: each in decimal, with commas between them and brackets around them.
pub proof fn law_list(bytes: Seq<u8>, last: u8)
    ensures
        list_chars(Seq::empty()) == "["@ + Seq::<char>::empty() + "]"@,
        list_chars(seq![last]) == "["@ + decimal_chars(last as nat) + "]"@,
        bytes.len() > 0 ==> comma_chars(bytes.push(last)) == comma_chars(bytes) + ", "@
            + decimal_chars(last as nat),
        list_chars(bytes) == "["@ + comma_chars(bytes) + "]"@,
{
    assert(bytes.push(last).drop_last() =~= bytes);
}

/// Text without the white space in front of it: the rest of the text from where it does not start
/// with white space, and before it white space only.
pub proof fn law_trimmed_front(s: Seq<char>)
    ensures
        trim_front(s).len() <= s.len(),
        trim_front(s) == s.subrange(s.len() - trim_front(s).len(), s.len() as int),
        trim_front(s).len() > 0 ==> !is_white_space(trim_front(s)[0]),
        forall|i: int|
            0 <= i < s.len() - trim_front(s).len() ==> is_white_space(#[trigger] s[i]),
    decreases s.len(),
{
    if s.len() > 0 && is_white_space(s[0]) {
        law_trimmed_front(s.skip(1));
        assert forall|i: int| 0 <= i < s.len() - trim_front(s).len() implies is_white_space(
            #[trigger] s[i],
        ) by {
            if i > 0 {
                assert(s.skip(1)[i - 1] == s[i]);
            }
        }
        let n = trim_front(s).len();
        assert(s.skip(1).subrange(s.len() - 1 - n, s.len() - 1) =~= s.subrange(
            s.len() - n,
            s.len() as int,
        ));
    } else {
        assert(s.subrange(0, s.len() as int) =~= s);
    }
}

/// Only ASCII capitals are made small, and each becomes the letter 32 places on.
pub proof fn law_lower(c: char)
    ensures
        65 <= c as int <= 90 ==> lower(c) as int == c as int + 32,
        !(65 <= c as int <= 90) ==> lower(c) == c,
{
}

/// A text stands in another if that is made of something, the text, and something.
pub proof fn law_contains(front: Seq<char>, needle: Seq<char>, back: Seq<char>, s: Seq<char>)
    ensures
        contains_text(front + needle + back, needle),
        s.len() < needle.len() ==> !contains_text(s, needle),
{
    let all = front + needle + back;
    let at = front.len() as int;
    assert(all.subrange(at, at + needle.len()) =~= needle);
}

/// White space, by the numbers of its characters.
pub proof fn law_white_space(c: char)
    ensures
        is_white_space(c) <==> {
            let n = c as int;
            9 <= n <= 13 || n == 32 || n == 133 || n == 160 || n == 5760 || 8192 <= n <= 8202 || n
                == 8232 || n == 8233 || n == 8239 || n == 8287 || n == 12288
        },
{
}

/// Text without the white space behind it: the front of the text up to where it does not end with
/// white space, and behind it white space only.
pub proof fn law_trimmed_back(s: Seq<char>)
    ensures
        trim_back(s).len() <= s.len(),
        trim_back(s) == s.subrange(0, trim_back(s).len() as int),
        trim_back(s).len() > 0 ==> !is_white_space(trim_back(s).last()),
        forall|i: int| trim_back(s).len() <= i < s.len() ==> is_white_space(#[trigger] s[i]),
    decreases s.len(),
{
    if s.len() > 0 && is_white_space(s.last()) {
        law_trimmed_back(s.drop_last());
        assert forall|i: int| trim_back(s).len() <= i < s.len() implies is_white_space(
            #[trigger] s[i],
        ) by {
            if i < s.len() - 1 {
                assert(s.drop_last()[i] == s[i]);
            }
        }
        assert(s.drop_last().subrange(0, trim_back(s).len() as int) =~= s.subrange(
            0,
            trim_back(s).len() as int,
        ));
    } else {
        assert(s.subrange(0, s.len() as int) =~= s);
    }
}

} // verus!
