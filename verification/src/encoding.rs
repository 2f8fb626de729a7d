//! What hexadecimal and percent-encoded text stand for.

use vstd::prelude::*;
use vstd::utf8::*;

verus! {

/// The hexadecimal digit for `d`, a number below 16.
pub open spec fn hex_digit(d: int, upper: bool) -> u8 {
    if d < 10 {
        (48 + d) as u8
    } else if upper {
        (65 + d - 10) as u8
    } else {
        (97 + d - 10) as u8
    }
}

/// The number a hexadecimal digit of either case stands for.
pub open spec fn hex_value(b: u8) -> Option<int> {
    if 48 <= b <= 57 {
        Some(b - 48)
    } else if 65 <= b <= 70 {
        Some(b - 65 + 10)
    } else if 97 <= b <= 102 {
        Some(b - 97 + 10)
    } else {
        None
    }
}

/// Bytes read as the characters with the same numbers.
pub open spec fn bytes_as_text(bytes: Seq<u8>) -> Seq<char> {
    Seq::new(bytes.len(), |i: int| bytes[i] as char)
}

/// Two lower-case hexadecimal digits for each byte, the high half first.
pub open spec fn hex_lower(bytes: Seq<u8>) -> Seq<char> {
    Seq::new(
        2 * bytes.len(),
        |i: int|
            if i % 2 == 0 {
                hex_digit(bytes[i / 2] as int / 16, false) as char
            } else {
                hex_digit(bytes[i / 2] as int % 16, false) as char
            },
    )
}

/// The bytes percent-encoding leaves alone: ASCII letters and digits, `-`,
/// `.`, `_` and `~`.
pub open spec fn unreserved(b: u8) -> bool {
    ||| 48 <= b <= 57
    ||| 65 <= b <= 90
    ||| 97 <= b <= 122
    ||| b == 45
    ||| b == 46
    ||| b == 95
    ||| b == 126
}

/// `%` and two upper-case hexadecimal digits in place of every byte that is
/// not unreserved.
pub open spec fn escaped(bytes: Seq<u8>) -> Seq<u8>
    decreases bytes.len(),
{
    if bytes.len() == 0 {
        seq![]
    } else {
        let b = bytes[0];
        let head = if unreserved(b) {
            seq![b]
        } else {
            seq![37u8, hex_digit(b as int / 16, true), hex_digit(b as int % 16, true)]
        };
        head + escaped(bytes.drop_first())
    }
}

/// Every `%` that two hexadecimal digits follow is replaced, with them, by
/// the byte they stand for; all else stays.
pub open spec fn unescaped(bytes: Seq<u8>) -> Seq<u8>
    decreases bytes.len(),
{
    if bytes.len() == 0 {
        seq![]
    } else if bytes[0] == 37 && bytes.len() >= 3 && hex_value(bytes[1]) is Some && hex_value(
        bytes[2],
    ) is Some {
        seq![(16 * hex_value(bytes[1])->0 + hex_value(bytes[2])->0) as u8] + unescaped(
            bytes.skip(3),
        )
    } else {
        seq![bytes[0]] + unescaped(bytes.drop_first())
    }
}

/// The percent-encoding of a text, by its UTF-8 bytes.
pub open spec fn percent_encoded(s: Seq<char>) -> Seq<char> {
    bytes_as_text(escaped(encode_utf8(s)))
}

/// The text a percent-encoded one stands for, if that is UTF-8.
pub open spec fn percent_decoded(s: Seq<char>) -> Option<Seq<char>> {
    let bytes = unescaped(encode_utf8(s));
    if valid_utf8(bytes) {
        Some(decode_utf8(bytes))
    } else {
        None
    }
}

proof fn lemma_unescape_escaped(bytes: Seq<u8>)
    ensures
        unescaped(escaped(bytes)) == bytes,
        forall|i: int|
            0 <= i < escaped(bytes).len() ==> #[trigger] escaped(bytes)[i] < 128 && escaped(
                bytes,
            )[i] != 58,
    decreases bytes.len(),
{
    if bytes.len() > 0 {
        let b = bytes[0];
        let rest = escaped(bytes.drop_first());
        lemma_unescape_escaped(bytes.drop_first());
        let e = escaped(bytes);
        if unreserved(b) {
            assert(e == seq![b] + rest);
            assert(e.drop_first() == rest);
        } else {
            let h = hex_digit(b as int / 16, true);
            let l = hex_digit(b as int % 16, true);
            assert(e == seq![37u8, h, l] + rest);
            assert(e.skip(3) == rest);
            assert(hex_value(h) == Some(b as int / 16));
            assert(hex_value(l) == Some(b as int % 16));
        }
        assert(unescaped(e) == seq![b] + bytes.drop_first());
        assert(seq![b] + bytes.drop_first() == bytes);
    }
}

/// ASCII text is its own encoding.
pub proof fn lemma_ascii_text(bytes: Seq<u8>)
    requires
        forall|i: int| 0 <= i < bytes.len() ==> #[trigger] bytes[i] < 128,
    ensures
        encode_utf8(bytes_as_text(bytes)) == bytes,
{
    let t = bytes_as_text(bytes);
    assert(is_ascii_chars(t)) by {
        assert forall|i: int| 0 <= i < t.len() implies '\0' <= #[trigger] t[i] <= '\u{7f}' by {
            assert(bytes[i] < 128);
        }
    }
    is_ascii_chars_encode_utf8(t);
    assert forall|i: int| 0 <= i < bytes.len() implies #[trigger] encode_utf8(t)[i] == bytes[i] by {
        assert(t[i] == bytes[i] as char);
    }
}

/// Decoding what was percent-encoded gives the text back, and the encoded
/// form holds no colon.
pub proof fn percent_encoding_reads_back(s: Seq<char>)
    ensures
        percent_decoded(percent_encoded(s)) == Some(s),
        !percent_encoded(s).contains(':'),
{
    let bytes = encode_utf8(s);
    let e = escaped(bytes);
    lemma_unescape_escaped(bytes);
    let t = percent_encoded(s);
    lemma_ascii_text(e);
    encode_utf8_valid_utf8(s);
    encode_utf8_decode_utf8(s);
    assert forall|i: int| 0 <= i < t.len() implies t[i] != ':' by {
        assert(e[i] != 58);
    }
}

} // verus!
