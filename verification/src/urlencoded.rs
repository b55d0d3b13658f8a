//! The `application/x-www-form-urlencoded` syntax, as far as a single token
//! needs it: the byte serializer, and the name of the first pair of a parsed
//! input.
use crate::text::{first_index, lemma_first_index_is};
use vstd::prelude::*;
use vstd::utf8::*;

verus! {

/// The bytes that the serializer writes as they are: `*`, `-`, `.`, `_`,
/// digits and ASCII letters.
pub open spec fn is_unchanged(b: u8) -> bool {
    b == 0x2a || b == 0x2d || b == 0x2e || b == 0x5f || (0x30 <= b <= 0x39) || (0x41 <= b <= 0x5a)
        || (0x61 <= b <= 0x7a)
}

/// The upper-case hexadecimal digit for a value below sixteen.
pub open spec fn hex_digit(n: int) -> u8 {
    if n < 10 {
        (0x30 + n) as u8
    } else {
        (0x41 + n - 10) as u8
    }
}

/// The value of a hexadecimal digit of either case.
pub open spec fn hex_value(b: u8) -> Option<int> {
    if 0x30 <= b <= 0x39 {
        Some(b - 0x30)
    } else if 0x41 <= b <= 0x46 {
        Some(b - 0x41 + 10)
    } else if 0x61 <= b <= 0x66 {
        Some(b - 0x61 + 10)
    } else {
        None
    }
}

/// What the serializer writes for one byte: the byte itself, `+` for a
/// space, or `%` and two upper-case hexadecimal digits.
pub open spec fn encoded_byte(b: u8) -> Seq<u8> {
    if is_unchanged(b) {
        seq![b]
    } else if b == 0x20 {
        seq![0x2bu8]
    } else {
        seq![0x25u8, hex_digit(b as int / 16), hex_digit(b as int % 16)]
    }
}

/// The serialization of a byte string.
pub open spec fn form_encoded(bytes: Seq<u8>) -> Seq<u8>
    decreases bytes.len(),
{
    if bytes.len() == 0 {
        Seq::empty()
    } else {
        encoded_byte(bytes[0]) + form_encoded(bytes.drop_first())
    }
}

/// The text whose characters are the given ASCII bytes.
pub open spec fn ascii_text(bytes: Seq<u8>) -> Seq<char> {
    Seq::new(bytes.len(), |i: int| bytes[i] as char)
}

/// The first piece between `&`s that is not empty, if there is one.
pub open spec fn first_sequence(input: Seq<u8>) -> Option<Seq<u8>>
    decreases input.len(),
{
    if input.len() == 0 {
        None
    } else if input[0] == 0x26 {
        first_sequence(input.drop_first())
    } else {
        Some(input.take(first_index(input, 0x26u8)))
    }
}

/// The part of a sequence before its first `=`.
pub open spec fn name_part(sequence: Seq<u8>) -> Seq<u8> {
    sequence.take(first_index(sequence, 0x3du8))
}

/// Every `+` turned into a space.
pub open spec fn plus_as_space(bytes: Seq<u8>) -> Seq<u8> {
    Seq::new(
        bytes.len(),
        |i: int|
            if bytes[i] == 0x2b {
                0x20u8
            } else {
                bytes[i]
            },
    )
}

/// Every `%` that two hexadecimal digits follow, replaced together with them
/// by the byte they denote; all else as it is.
pub open spec fn percent_decoded(bytes: Seq<u8>) -> Seq<u8>
    decreases bytes.len(),
{
    if bytes.len() == 0 {
        Seq::empty()
    } else if bytes[0] == 0x25 && bytes.len() >= 3 && hex_value(bytes[1]) is Some && hex_value(
        bytes[2],
    ) is Some {
        seq![(hex_value(bytes[1])->Some_0 * 16 + hex_value(bytes[2])->Some_0) as u8]
            + percent_decoded(bytes.skip(3))
    } else {
        seq![bytes[0]] + percent_decoded(bytes.drop_first())
    }
}

/// The decoded bytes of the name of the first pair of `input`.
pub open spec fn first_name_bytes(input: Seq<u8>) -> Option<Seq<u8>> {
    match first_sequence(input) {
        Some(sequence) => Some(percent_decoded(plus_as_space(name_part(sequence)))),
        None => None,
    }
}

/// The text that `String::from_utf8_lossy` makes of bytes that are not
/// UTF-8, with a replacement character for each malformed stretch.
pub uninterp spec fn lossy_text(bytes: Seq<u8>) -> Seq<char>;

/// The text that decoded bytes stand for.
pub open spec fn text_of(bytes: Seq<u8>) -> Seq<char> {
    if valid_utf8(bytes) {
        decode_utf8(bytes)
    } else {
        lossy_text(bytes)
    }
}

/// The name of the first pair of the form-encoded text `token`.
pub open spec fn first_name(token: Seq<char>) -> Option<Seq<char>> {
    match first_name_bytes(encode_utf8(token)) {
        Some(bytes) => Some(text_of(bytes)),
        None => None,
    }
}

/// Collects what `url::form_urlencoded::byte_serialize` yields for `input`.
/// The iterator goes through the bytes once: a run of bytes that stay as
/// they are is yielded as it stands, a space as `+`, and any other byte as
/// `%` with its two upper-case hexadecimal digits. All of it is ASCII.
#[verifier::external_body]
pub(crate) fn byte_serialized(input: &[u8]) -> (text: String)
    ensures
        text@ == ascii_text(form_encoded(input@)),
{
    url::form_urlencoded::byte_serialize(input).collect()
}

/// Takes the first pair that `url::form_urlencoded::parse` yields for
/// `input` and keeps its name. The parser cuts the input at each `&`, skips
/// empty pieces, and cuts a piece at its first `=`; the name is what stands
/// before. It then turns each `+` into a space, undoes the percent-encoding
/// and reads the bytes as UTF-8, lossily where they are malformed.
#[verifier::external_body]
pub(crate) fn first_pair_name(input: &[u8]) -> (name: Option<String>)
    ensures
        name is Some <==> first_name_bytes(input@) is Some,
        name is Some && valid_utf8(first_name_bytes(input@)->Some_0) ==> name->Some_0@
            == decode_utf8(first_name_bytes(input@)->Some_0),
        name is Some && !valid_utf8(first_name_bytes(input@)->Some_0) ==> name->Some_0@
            == lossy_text(first_name_bytes(input@)->Some_0),
{
    url::form_urlencoded::parse(input).next().map(|pair| pair.0.into_owned())
}

/// The bytes that can stand in a serialization.
pub open spec fn is_token_byte(b: u8) -> bool {
    is_unchanged(b) || b == 0x2b || b == 0x25
}

/// A serialization holds nothing but unchanged bytes, `+` and `%`, and it is
/// empty only for the empty input.
pub proof fn lemma_form_encoded_bytes(bytes: Seq<u8>)
    ensures
        forall|i: int|
            0 <= i < form_encoded(bytes).len() ==> is_token_byte(#[trigger] form_encoded(bytes)[i]),
        bytes.len() > 0 ==> form_encoded(bytes).len() > 0,
    decreases bytes.len(),
{
    if bytes.len() > 0 {
        let head = encoded_byte(bytes[0]);
        let tail = form_encoded(bytes.drop_first());
        lemma_form_encoded_bytes(bytes.drop_first());
        assert forall|i: int| 0 <= i < (head + tail).len() implies is_token_byte(
            #[trigger] (head + tail)[i],
        ) by {
            if i >= head.len() {
                assert((head + tail)[i] == tail[i - head.len()]);
            }
        }
    }
}

pub proof fn lemma_plus_as_space_concat(a: Seq<u8>, b: Seq<u8>)
    ensures
        plus_as_space(a + b) == plus_as_space(a) + plus_as_space(b),
{
    assert(plus_as_space(a + b) =~= plus_as_space(a) + plus_as_space(b));
}

/// Decoding a serialization gives the serialized bytes back.
pub proof fn lemma_decode_encoded(bytes: Seq<u8>)
    ensures
        percent_decoded(plus_as_space(form_encoded(bytes))) == bytes,
    decreases bytes.len(),
{
    if bytes.len() > 0 {
        let b = bytes[0];
        let head = plus_as_space(encoded_byte(b));
        let tail = plus_as_space(form_encoded(bytes.drop_first()));
        lemma_plus_as_space_concat(encoded_byte(b), form_encoded(bytes.drop_first()));
        lemma_decode_encoded(bytes.drop_first());
        let all = head + tail;
        assert(all == plus_as_space(form_encoded(bytes)));
        if is_unchanged(b) {
            assert(head =~= seq![b]);
            assert(all[0] == b);
            assert(all.drop_first() =~= tail);
        } else if b == 0x20 {
            assert(head =~= seq![0x20u8]);
            assert(all[0] == 0x20);
            assert(all.drop_first() =~= tail);
        } else {
            let hi = hex_digit(b as int / 16);
            let lo = hex_digit(b as int % 16);
            assert(head =~= seq![0x25u8, hi, lo]);
            assert(all[0] == 0x25 && all[1] == hi && all[2] == lo);
            assert(hex_value(hi) == Some(b as int / 16));
            assert(hex_value(lo) == Some(b as int % 16));
            assert(all.skip(3) =~= tail);
        }
        assert(seq![b] + bytes.drop_first() =~= bytes);
    } else {
        assert(plus_as_space(form_encoded(bytes)) =~= Seq::<u8>::empty());
    }
}

/// A serialization of bytes that are not empty parses as one pair whose
/// name is those bytes.
pub proof fn lemma_first_name_of_encoded(bytes: Seq<u8>)
    requires
        bytes.len() > 0,
    ensures
        first_name_bytes(form_encoded(bytes)) == Some(bytes),
{
    let enc = form_encoded(bytes);
    lemma_form_encoded_bytes(bytes);
    lemma_decode_encoded(bytes);
    assert forall|j: int| 0 <= j < enc.len() implies enc[j] != 0x26 && enc[j] != 0x3d by {
        assert(is_token_byte(enc[j]));
    }
    lemma_first_index_is(enc, 0x26u8, enc.len() as int);
    lemma_first_index_is(enc, 0x3du8, enc.len() as int);
    assert(enc.take(enc.len() as int) =~= enc);
}

/// A serialization, read as text, encodes in UTF-8 to itself.
pub proof fn lemma_ascii_text_bytes(bytes: Seq<u8>)
    requires
        forall|i: int| 0 <= i < bytes.len() ==> bytes[i] < 0x80,
    ensures
        encode_utf8(ascii_text(bytes)) == bytes,
{
    let chars = ascii_text(bytes);
    assert(is_ascii_chars(chars));
    is_ascii_chars_encode_utf8(chars);
    assert forall|i: int| 0 <= i < bytes.len() implies encode_utf8(chars)[i] == bytes[i] by {
        assert(chars[i] as u8 == encode_utf8(chars)[i]);
    }
    assert(encode_utf8(chars) =~= bytes);
}

/// The serialization of a text that is not empty parses as one pair whose
/// name is that text.
pub proof fn lemma_first_name_round_trip(text: Seq<char>)
    requires
        text.len() > 0,
    ensures
        first_name(ascii_text(form_encoded(encode_utf8(text)))) == Some(text),
{
    let bytes = encode_utf8(text);
    let enc = form_encoded(bytes);
    assert(bytes.len() > 0) by {
        assert(encode_scalar(text[0] as u32).len() > 0);
    }
    lemma_form_encoded_bytes(bytes);
    assert forall|i: int| 0 <= i < enc.len() implies enc[i] < 0x80 by {
        assert(is_token_byte(enc[i]));
    }
    lemma_ascii_text_bytes(enc);
    lemma_first_name_of_encoded(bytes);
    encode_utf8_valid_utf8(text);
    encode_utf8_decode_utf8(text);
}

} // verus!
