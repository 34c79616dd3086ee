//! Hexadecimal text as the `hex` crate writes and reads it.
use crate::text::text_bytes;
use vstd::prelude::*;
use vstd::utf8::is_ascii_chars;

verus! {

/// The lowercase hexadecimal digit for `n` (`0 <= n < 16`).
pub open spec fn hex_char(n: int) -> char {
    if n < 10 {
        (48 + n) as char
    } else {
        (87 + n) as char
    }
}

/// Lowercase hexadecimal text of `b`: two digits per byte, high nibble first.
pub open spec fn hex_text(b: Seq<u8>) -> Seq<char> {
    Seq::new(
        2 * b.len(),
        |i: int|
            if i % 2 == 0 {
                hex_char(b[i / 2] as int / 16)
            } else {
                hex_char(b[i / 2] as int % 16)
            },
    )
}

/// Whether `c` is a hexadecimal digit of either case.
pub open spec fn is_hex_byte(c: u8) -> bool {
    (48 <= c <= 57) || (65 <= c <= 70) || (97 <= c <= 102)
}

/// The value of the hexadecimal digit `c` (meaningful when `is_hex_byte(c)`).
pub open spec fn hex_value(c: u8) -> int {
    if 48 <= c <= 57 {
        c - 48
    } else if 65 <= c <= 70 {
        c - 55
    } else {
        c - 87
    }
}

/// The bytes that hexadecimal text `t` stands for, or `None` where it has odd
/// length or a byte that is no hexadecimal digit.
pub open spec fn hex_bytes(t: Seq<u8>) -> Option<Seq<u8>> {
    if t.len() % 2 != 0 {
        None
    } else if exists|i: int| 0 <= i < t.len() && !is_hex_byte(#[trigger] t[i]) {
        None
    } else {
        Some(
            Seq::new(
                t.len() / 2,
                |i: int| (hex_value(t[2 * i]) * 16 + hex_value(t[2 * i + 1])) as u8,
            ),
        )
    }
}

/// Whether `c` is a lowercase hexadecimal digit.
pub open spec fn is_lower_hex_char(c: char) -> bool {
    ('0' <= c <= '9') || ('a' <= c <= 'f')
}

/// Whether `t` is lowercase hexadecimal text.
pub open spec fn is_lower_hex_text(t: Seq<char>) -> bool {
    forall|i: int| 0 <= i < t.len() ==> is_lower_hex_char(#[trigger] t[i])
}

/// Lowercase hexadecimal text is ASCII: its UTF-8 bytes are its characters.
pub proof fn lemma_lower_hex_bytes(t: Seq<char>)
    requires
        is_lower_hex_text(t),
    ensures
        is_ascii_chars(t),
        text_bytes(t).len() == t.len(),
        forall|i: int| 0 <= i < t.len() ==> #[trigger] text_bytes(t)[i] == t[i] as u8,
{
    assert forall|i: int| 0 <= i < t.len() implies '\0' <= #[trigger] t[i] <= '\u{7f}' by {
        assert(is_lower_hex_char(t[i]));
    }
    vstd::utf8::is_ascii_chars_encode_utf8(t);
}

/// The hexadecimal text of any bytes is lowercase hexadecimal text, twice as long.
pub proof fn lemma_hex_text_lower(b: Seq<u8>)
    ensures
        is_lower_hex_text(hex_text(b)),
        hex_text(b).len() == 2 * b.len(),
{
    assert forall|i: int| 0 <= i < hex_text(b).len() implies is_lower_hex_char(
        #[trigger] hex_text(b)[i],
    ) by {
        let n: int = if i % 2 == 0 {
            b[i / 2] as int / 16
        } else {
            b[i / 2] as int % 16
        };
        assert(0 <= n < 16);
        assert(hex_text(b)[i] == hex_char(n));
    }
}

/// Reading back the hexadecimal text of bytes gives those bytes.
pub proof fn law_hex_roundtrip(b: Seq<u8>)
    ensures
        hex_bytes(text_bytes(hex_text(b))) == Some(b),
{
    let t = hex_text(b);
    lemma_hex_text_lower(b);
    lemma_lower_hex_bytes(t);
    let tb = text_bytes(t);
    assert forall|i: int| 0 <= i < tb.len() implies is_hex_byte(#[trigger] tb[i]) by {
        assert(tb[i] == t[i] as u8);
        assert(is_lower_hex_char(t[i]));
    }
    let r = hex_bytes(tb).unwrap();
    assert(tb.len() % 2 == 0);
    assert forall|i: int| 0 <= i < b.len() implies #[trigger] r[i] == b[i] by {
        let hi = b[i] as int / 16;
        let lo = b[i] as int % 16;
        assert(t[2 * i] == hex_char(hi));
        assert(t[2 * i + 1] == hex_char(lo));
        assert(tb[2 * i] == t[2 * i] as u8);
        assert(tb[2 * i + 1] == t[2 * i + 1] as u8);
        assert(hex_value(tb[2 * i]) == hi);
        assert(hex_value(tb[2 * i + 1]) == lo);
    }
    assert(r =~= b);
}

/// The bytes of lowercase hexadecimal text of even length write that text
/// back out.
pub proof fn lemma_lower_hex_roundtrip(t: Seq<char>)
    requires
        is_lower_hex_text(t),
        t.len() % 2 == 0,
    ensures
        hex_bytes(text_bytes(t)) is Some,
        hex_text(hex_bytes(text_bytes(t)).unwrap()) == t,
        hex_bytes(text_bytes(t)).unwrap().len() == t.len() / 2,
{
    lemma_lower_hex_bytes(t);
    let tb = text_bytes(t);
    assert forall|i: int| 0 <= i < tb.len() implies is_hex_byte(#[trigger] tb[i]) by {
        assert(tb[i] == t[i] as u8);
        assert(is_lower_hex_char(t[i]));
    }
    let r = hex_bytes(tb).unwrap();
    let h = hex_text(r);
    assert forall|i: int| 0 <= i < t.len() implies #[trigger] h[i] == t[i] by {
        let j = i / 2;
        assert(r[j] == (hex_value(tb[2 * j]) * 16 + hex_value(tb[2 * j + 1])) as u8);
        assert(is_lower_hex_char(t[2 * j]));
        assert(is_lower_hex_char(t[2 * j + 1]));
        assert(tb[2 * j] == t[2 * j] as u8);
        assert(tb[2 * j + 1] == t[2 * j + 1] as u8);
        assert(0 <= hex_value(tb[2 * j]) < 16);
        assert(0 <= hex_value(tb[2 * j + 1]) < 16);
        assert(r[j] as int / 16 == hex_value(tb[2 * j]));
        assert(r[j] as int % 16 == hex_value(tb[2 * j + 1]));
    }
    assert(h =~= t);
}

/// `hex::encode`: lowercase hexadecimal text of `data`, two digits per byte,
/// high nibble first (the crate's table `0123456789abcdef`).
#[verifier::external_body]
pub(crate) fn hex_encode(data: &[u8]) -> (s: String)
    ensures
        s@ == hex_text(data@),
{
    hex::encode(data)
}

/// `hex::decode`: the bytes that `data` stands for; `None` on the crate's
/// `OddLength` or `InvalidHexCharacter` errors.
#[verifier::external_body]
pub(crate) fn hex_decode(data: &[u8]) -> (r: Option<Vec<u8>>)
    ensures
        match r {
            Some(v) => hex_bytes(data@) == Some(v@),
            None => hex_bytes(data@) is None,
        },
{
    hex::decode(data).ok()
}

} // verus!
