//! Percent-encoding of bytes.

use vstd::prelude::*;

verus! {

/// The byte stands for itself: a letter, a digit, or one of `-`, `.`, `_` and `~`.
pub open spec fn is_plain(b: u8) -> bool {
    ||| 48 <= b <= 57
    ||| 65 <= b <= 90
    ||| 97 <= b <= 122
    ||| b == 45
    ||| b == 46
    ||| b == 95
    ||| b == 126
}

/// The upper-case hexadecimal digit of a number below 16.
pub open spec fn hex_digit(n: int) -> u8 {
    if n < 10 {
        (48 + n) as u8
    } else {
        (55 + n) as u8
    }
}

/// The number of a hexadecimal digit, in upper or lower case.
pub open spec fn hex_value(b: u8) -> Option<int> {
    if 48 <= b <= 57 {
        Some(b - 48)
    } else if 65 <= b <= 70 {
        Some(b - 55)
    } else if 97 <= b <= 102 {
        Some(b - 87)
    } else {
        None
    }
}

/// One byte, percent-encoded.
pub open spec fn byte_encoded(b: u8) -> Seq<u8> {
    if is_plain(b) {
        seq![b]
    } else {
        seq![37u8, hex_digit(b as int / 16), hex_digit(b as int % 16)]
    }
}

/// The bytes, each percent-encoded.
pub open spec fn percent_encoded(data: Seq<u8>) -> Seq<u8>
    decreases data.len(),
{
    if data.len() == 0 {
        Seq::empty()
    } else {
        byte_encoded(data[0]) + percent_encoded(data.skip(1))
    }
}

/// There is a percent sign and two hexadecimal digits at the front.
pub open spec fn starts_encoded(data: Seq<u8>) -> bool {
    &&& data.len() >= 3
    &&& data[0] == 37
    &&& hex_value(data[1]) is Some
    &&& hex_value(data[2]) is Some
}

/// The bytes with every percent sign and the two hexadecimal digits behind it replaced by the byte
/// that they stand for. A percent sign without the digits stands for itself.
pub open spec fn percent_decoded(data: Seq<u8>) -> Seq<u8>
    decreases data.len(),
{
    if data.len() == 0 {
        Seq::empty()
    } else if starts_encoded(data) {
        seq![(hex_value(data[1])->0 * 16 + hex_value(data[2])->0) as u8] + percent_decoded(
            data.skip(3),
        )
    } else {
        seq![data[0]] + percent_decoded(data.skip(1))
    }
}

/// The text with these ASCII characters.
pub open spec fn ascii_text(bytes: Seq<u8>) -> Seq<char> {
    Seq::new(bytes.len(), |i: int| bytes[i] as char)
}

/// Calls `urlencoding::encode_binary`, which percent-encodes every byte but letters, digits, `-`,
/// `.`, `_` and `~`.
#[verifier::external_body]
pub(crate) fn encode_binary(data: &[u8]) -> (r: String)
    ensures
        r@ == ascii_text(percent_encoded(data@)),
{
    urlencoding::encode_binary(data).into_owned()
}

/// Calls `urlencoding::decode_binary`, which undoes percent-encoding and leaves everything else as
/// it is.
#[verifier::external_body]
pub(crate) fn decode_binary(data: &[u8]) -> (r: Vec<u8>)
    ensures
        r@ == percent_decoded(data@),
{
    urlencoding::decode_binary(data).into_owned()
}

/// Decoding gives back what was encoded.
pub proof fn decoding_undoes_encoding(data: Seq<u8>)
    ensures
        percent_decoded(percent_encoded(data)) == data,
    decreases data.len(),
{
    if data.len() > 0 {
        let rest = data.skip(1);
        decoding_undoes_encoding(rest);
        let encoded = percent_encoded(data);
        let first = byte_encoded(data[0]);
        assert(encoded == first + percent_encoded(rest));
        assert(encoded.skip(first.len() as int) =~= percent_encoded(rest));
        if is_plain(data[0]) {
            assert(encoded[0] == data[0]);
            assert(!starts_encoded(encoded));
            assert(percent_decoded(encoded) =~= seq![data[0]] + percent_decoded(
                percent_encoded(rest),
            ));
        } else {
            let high = data[0] as int / 16;
            let low = data[0] as int % 16;
            assert(encoded[0] == 37);
            assert(encoded[1] == hex_digit(high));
            assert(encoded[2] == hex_digit(low));
            assert(hex_value(hex_digit(high)) == Some(high));
            assert(hex_value(hex_digit(low)) == Some(low));
            assert(high * 16 + low == data[0]);
            assert(starts_encoded(encoded));
        }
        assert(seq![data[0]] + rest =~= data);
    } else {
        assert(percent_encoded(data) =~= Seq::empty());
        assert(data =~= Seq::empty());
    }
}

/// Percent-encoded bytes hold only plain bytes, percent signs and digits, which are ASCII
/// characters.
pub proof fn encoding_is_plain(data: Seq<u8>)
    ensures
        forall|i: int|
            0 <= i < percent_encoded(data).len() ==> is_plain(#[trigger] percent_encoded(data)[i])
                || percent_encoded(data)[i] == 37,
    decreases data.len(),
{
    if data.len() > 0 {
        let first = byte_encoded(data[0]);
        let rest = percent_encoded(data.skip(1));
        encoding_is_plain(data.skip(1));
        assert forall|i: int| 0 <= i < percent_encoded(data).len() implies is_plain(
            #[trigger] percent_encoded(data)[i],
        ) || percent_encoded(data)[i] == 37 by {
            if i >= first.len() {
                assert(percent_encoded(data)[i] == rest[i - first.len()]);
            }
        }
    }
}

/// The UTF-8 form of a text of ASCII characters is the characters.
pub(crate) proof fn lemma_ascii_bytes(bytes: Seq<u8>)
    requires
        forall|i: int| 0 <= i < bytes.len() ==> #[trigger] bytes[i] < 128,
    ensures
        vstd::utf8::encode_utf8(ascii_text(bytes)) == bytes,
{
    let text = ascii_text(bytes);
    assert forall|i: int| 0 <= i < text.len() implies '\0' <= #[trigger] text[i] <= '\u{7f}' by {
        assert(bytes[i] < 128);
    }
    vstd::utf8::is_ascii_chars_encode_utf8(text);
    assert forall|i: int| 0 <= i < bytes.len() implies #[trigger] vstd::utf8::encode_utf8(text)[i]
        == bytes[i] by {
        assert(text[i] as u8 == vstd::utf8::encode_utf8(text)[i]);
    }
    assert(vstd::utf8::encode_utf8(text) =~= bytes);
}

/// Bytes without a percent sign stand for themselves.
pub proof fn plain_text_is_left_alone(data: Seq<u8>)
    requires
        !data.contains(37),
    ensures
        percent_decoded(data) == data,
    decreases data.len(),
{
    if data.len() > 0 {
        assert(data.contains(data[0]));
        let rest = data.skip(1);
        assert forall|i: int| 0 <= i < rest.len() implies rest[i] != 37 by {
            assert(data.contains(data[i + 1]));
        }
        plain_text_is_left_alone(rest);
        assert(seq![data[0]] + rest =~= data);
    } else {
        assert(percent_decoded(data) =~= data);
    }
}

} // verus!
