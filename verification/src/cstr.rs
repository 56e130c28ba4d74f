//! NUL-terminated byte strings, as the sensor board's firmware writes them.
use vstd::prelude::*;
use vstd::string::*;
use vstd::utf8::*;

verus! {

/// The number of bytes before the first NUL byte, or the whole length when
/// there is none.
pub open spec fn c_string_len(bytes: Seq<u8>) -> nat
    decreases bytes.len(),
{
    if bytes.len() == 0 || bytes[0] == 0 {
        0
    } else {
        1 + c_string_len(bytes.drop_first())
    }
}

/// The bytes of a C string up to (not including) its terminator.
pub open spec fn c_string_body(bytes: Seq<u8>) -> Seq<u8> {
    bytes.take(c_string_len(bytes) as int)
}

/// The text a C string holds: its body decoded as UTF-8, or the empty text
/// when the body is not valid UTF-8.
pub open spec fn c_string_text(bytes: Seq<u8>) -> Seq<char> {
    let body = c_string_body(bytes);
    if valid_utf8(body) {
        decode_utf8(body)
    } else {
        Seq::empty()
    }
}

/// `n` is the position of the first NUL byte in `bytes`, or its length when
/// there is none.
pub open spec fn is_first_nul(bytes: Seq<u8>, n: int) -> bool {
    &&& 0 <= n <= bytes.len()
    &&& forall|j: int| 0 <= j < n ==> bytes[j] != 0
    &&& n < bytes.len() ==> bytes[n] == 0
}

/// `c_string_len` is the position of the first NUL byte.
pub proof fn lemma_c_string_len_is_first_nul(bytes: Seq<u8>, n: int)
    ensures
        is_first_nul(bytes, c_string_len(bytes) as int),
        is_first_nul(bytes, n) ==> n == c_string_len(bytes),
    decreases bytes.len(),
{
    if bytes.len() > 0 && bytes[0] != 0 {
        let rest = bytes.drop_first();
        lemma_c_string_len_is_first_nul(rest, n - 1);
        assert forall|j: int| 0 <= j < c_string_len(bytes) implies bytes[j] != 0 by {
            if j > 0 {
                assert(bytes[j] == rest[j - 1]);
            }
        }
        if is_first_nul(bytes, n) {
            assert(n > 0);
            assert forall|j: int| 0 <= j < n - 1 implies rest[j] != 0 by {
                assert(bytes[j + 1] == rest[j]);
            }
            assert(is_first_nul(rest, n - 1));
        }
    }
}

/// Finds the first NUL byte of `bytes`: its index, or the length of `bytes`
/// when it holds none.
pub fn c_string_length(bytes: &[u8]) -> (n: usize)
    ensures
        n == c_string_len(bytes@),
        is_first_nul(bytes@, n as int),
{
    let mut i: usize = 0;
    while i < bytes.len() && bytes[i] != 0
        invariant
            0 <= i <= bytes.len(),
            forall|j: int| 0 <= j < i ==> bytes@[j] != 0,
        decreases bytes.len() - i,
    {
        i = i + 1;
    }
    proof {
        lemma_c_string_len_is_first_nul(bytes@, i as int);
    }
    i
}

/// Calls `std::str::from_utf8`. Its documentation promises that it succeeds
/// exactly when `bytes` is valid UTF-8, and that the string it then returns
/// is made of those very bytes. The error value is not kept.
#[verifier::external_body]
fn str_from_utf8(bytes: &[u8]) -> (res: Option<&str>)
    ensures
        res is Some <==> valid_utf8(bytes@),
        res matches Some(s) ==> s.spec_bytes() == bytes@,
{
    std::str::from_utf8(bytes).ok()
}

/// The text of a UTF-8 decoding: the decoded string when there is one, the
/// empty string otherwise.
pub fn decoded_or_empty(decoded: Option<&str>) -> (s: &str)
    ensures
        s@ == match decoded {
            Some(d) => d@,
            None => Seq::<char>::empty(),
        },
{
    match decoded {
        Some(d) => d,
        None => {
            proof {
                reveal_strlit("");
            }
            ""
        },
    }
}

/// Reads the text of a NUL-terminated byte string: the bytes before the first
/// NUL (all of them when there is none), decoded as UTF-8. Bytes that are not
/// valid UTF-8 read as the empty string.
pub fn cstr_to_str(bytes: &[u8]) -> (s: &str)
    ensures
        s@ == c_string_text(bytes@),
{
    broadcast use group_utf8_lib;

    let len = c_string_length(bytes);
    let body = vstd::slice::slice_subrange(bytes, 0, len);
    assert(body@ == c_string_body(bytes@));
    let decoded = str_from_utf8(body);
    proof {
        if let Some(d) = decoded {
            assert(decode_utf8(encode_utf8(d@)) == d@);
        }
    }
    decoded_or_empty(decoded)
}

/// The bytes of a C `char` array, each `char` read as the byte it holds.
pub open spec fn chars_as_bytes(field: Seq<i8>) -> Seq<u8> {
    field.map_values(|c: i8| c as u8)
}

/// Reads the text of a NUL-terminated C `char` array: each `char` is taken as
/// the byte it holds, and the bytes are read as by [`cstr_to_str`].
pub fn str_from_chars(field: &[i8]) -> (s: String)
    ensures
        s@ == c_string_text(chars_as_bytes(field@)),
{
    let mut bytes: Vec<u8> = Vec::with_capacity(field.len());
    let mut i: usize = 0;
    while i < field.len()
        invariant
            0 <= i <= field.len(),
            bytes@ == chars_as_bytes(field@.take(i as int)),
        decreases field.len() - i,
    {
        bytes.push(field[i] as u8);
        i = i + 1;
        assert(bytes@ == chars_as_bytes(field@.take(i as int)));
    }
    assert(field@.take(i as int) == field@);
    let text = cstr_to_str(bytes.as_slice());
    text.to_owned()
}

/// The address of a WebSocket endpoint of the board at `host`: `ws://`, the
/// host, a slash, and the text of the NUL-terminated endpoint path `uri`.
pub fn endpoint_url(host: &str, uri: &[u8]) -> (url: String)
    ensures
        url@ == "ws://"@ + host@ + "/"@ + c_string_text(uri@),
{
    let mut url = String::from_str("ws://");
    url.append(host);
    url.append("/");
    url.append(cstr_to_str(uri));
    url
}

/// No byte of `bytes` is NUL.
pub open spec fn has_no_nul_byte(bytes: Seq<u8>) -> bool {
    forall|k: int| 0 <= k < bytes.len() ==> bytes[k] != 0
}

/// No character of `text` is NUL.
pub open spec fn has_no_nul_char(text: Seq<char>) -> bool {
    forall|k: int| 0 <= k < text.len() ==> text[k] != '\0'
}

/// The UTF-8 encoding of a character holds a NUL byte exactly when the
/// character is NUL.
proof fn lemma_encode_scalar_nul(c: char)
    ensures
        has_no_nul_byte(encode_scalar(c as u32)) <==> c != '\0',
{
    let v = c as u32;
    char_is_scalar(c);
    if has_width_1_encoding(v) {
        assert(v <= 0x7f ==> (leading_byte_width_1(v) == 0 <==> v == 0)) by (bit_vector);
        assert(encode_scalar(v)[0] == leading_byte_width_1(v));
    } else if has_width_2_encoding(v) {
        assert(leading_byte_width_2(v) != 0) by (bit_vector);
        assert(last_continuation_byte(v) != 0) by (bit_vector);
    } else if has_width_3_encoding(v) {
        assert(leading_byte_width_3(v) != 0) by (bit_vector);
        assert(second_last_continuation_byte(v) != 0) by (bit_vector);
        assert(last_continuation_byte(v) != 0) by (bit_vector);
    } else {
        assert(leading_byte_width_4(v) != 0) by (bit_vector);
        assert(third_last_continuation_byte(v) != 0) by (bit_vector);
        assert(second_last_continuation_byte(v) != 0) by (bit_vector);
        assert(last_continuation_byte(v) != 0) by (bit_vector);
    }
}

/// The UTF-8 encoding of a text holds a NUL byte exactly when the text holds
/// a NUL character.
pub proof fn lemma_encode_utf8_nul(text: Seq<char>)
    ensures
        has_no_nul_byte(encode_utf8(text)) <==> has_no_nul_char(text),
    decreases text.len(),
{
    if text.len() > 0 {
        let head = encode_scalar(text[0] as u32);
        let rest = text.drop_first();
        lemma_encode_scalar_nul(text[0]);
        lemma_encode_utf8_nul(rest);
        let bytes = encode_utf8(text);
        assert(bytes == head + encode_utf8(rest));
        if has_no_nul_char(text) {
            assert forall|k: int| 0 <= k < rest.len() implies rest[k] != '\0' by {
                assert(rest[k] == text[k + 1]);
            }
            assert forall|k: int| 0 <= k < bytes.len() implies bytes[k] != 0 by {
                if k >= head.len() {
                    assert(bytes[k] == encode_utf8(rest)[k - head.len()]);
                } else {
                    assert(bytes[k] == head[k]);
                }
            }
        }
        if has_no_nul_byte(bytes) {
            assert forall|k: int| 0 <= k < head.len() implies head[k] != 0 by {
                assert(bytes[k] == head[k]);
            }
            assert forall|k: int| 0 <= k < encode_utf8(rest).len() implies encode_utf8(rest)[k]
                != 0 by {
                assert(bytes[k + head.len()] == encode_utf8(rest)[k]);
            }
            assert forall|k: int| 0 <= k < text.len() implies text[k] != '\0' by {
                if k > 0 {
                    assert(text[k] == rest[k - 1]);
                }
            }
        }
    }
}

/// The text read from a NUL-terminated byte string never holds a NUL
/// character: reading stops at the first NUL byte.
pub proof fn lemma_c_string_text_has_no_nul(bytes: Seq<u8>)
    ensures
        has_no_nul_char(c_string_text(bytes)),
{
    broadcast use group_utf8_lib;

    let body = c_string_body(bytes);
    lemma_c_string_len_is_first_nul(bytes, 0);
    assert(has_no_nul_byte(body));
    if valid_utf8(body) {
        let text = decode_utf8(body);
        assert(encode_utf8(text) == body);
        lemma_encode_utf8_nul(text);
    }
}

/// Writing a text without NUL characters as UTF-8, followed by a NUL
/// terminator and any trailing bytes, and reading it back as a C string gives
/// the text back.
pub proof fn lemma_c_string_text_round_trip(text: Seq<char>, trailing: Seq<u8>)
    requires
        has_no_nul_char(text),
    ensures
        c_string_text(encode_utf8(text) + seq![0u8] + trailing) == text,
{
    broadcast use group_utf8_lib;

    let encoded = encode_utf8(text);
    let bytes = encoded + seq![0u8] + trailing;
    lemma_encode_utf8_nul(text);
    assert forall|j: int| 0 <= j < encoded.len() implies bytes[j] != 0 by {
        assert(bytes[j] == encoded[j]);
    }
    assert(bytes[encoded.len() as int] == 0);
    assert(is_first_nul(bytes, encoded.len() as int));
    lemma_c_string_len_is_first_nul(bytes, encoded.len() as int);
    assert(c_string_body(bytes) == encoded);
}

/// Bytes that start with the UTF-8 encoding of a text without NUL
/// characters, and then either end or continue with a NUL byte, read as that
/// text: terminated or not, and whatever their length.
pub proof fn lemma_c_string_text_of_encoded_prefix(text: Seq<char>, bytes: Seq<u8>)
    requires
        has_no_nul_char(text),
        encode_utf8(text).len() <= bytes.len(),
        forall|k: int| 0 <= k < encode_utf8(text).len() ==> bytes[k] == encode_utf8(text)[k],
        encode_utf8(text).len() < bytes.len() ==> bytes[encode_utf8(text).len() as int] == 0,
    ensures
        c_string_text(bytes) == text,
{
    broadcast use group_utf8_lib;

    let encoded = encode_utf8(text);
    lemma_encode_utf8_nul(text);
    assert forall|j: int| 0 <= j < encoded.len() implies bytes[j] != 0 by {
        assert(bytes[j] == encoded[j]);
    }
    assert(is_first_nul(bytes, encoded.len() as int));
    lemma_c_string_len_is_first_nul(bytes, encoded.len() as int);
    assert(c_string_body(bytes) =~= encoded);
}

/// An unterminated string reads completely: the UTF-8 encoding of a text
/// without NUL characters, with no terminator, reads as the whole text.
pub proof fn lemma_c_string_text_unterminated(text: Seq<char>)
    requires
        has_no_nul_char(text),
    ensures
        c_string_text(encode_utf8(text)) == text,
{
    lemma_c_string_text_of_encoded_prefix(text, encode_utf8(text));
}

/// Bytes without any NUL that are valid UTF-8 read as the decoding of all of
/// them; in general, a valid body reads as its decoding, terminated or not.
pub proof fn lemma_c_string_text_of_valid_body(bytes: Seq<u8>)
    ensures
        valid_utf8(c_string_body(bytes)) ==> c_string_text(bytes) == decode_utf8(
            c_string_body(bytes),
        ),
        has_no_nul_byte(bytes) && valid_utf8(bytes) ==> c_string_text(bytes) == decode_utf8(bytes),
{
    lemma_c_string_len_is_first_nul(bytes, bytes.len() as int);
    if has_no_nul_byte(bytes) {
        assert(is_first_nul(bytes, bytes.len() as int));
        assert(c_string_body(bytes) =~= bytes);
    }
}

/// A C `char` array is read byte for byte: each `char` becomes the byte with
/// the same bits, and no `char` is dropped or added.
pub proof fn lemma_chars_as_bytes_reinterprets(field: Seq<i8>)
    ensures
        chars_as_bytes(field).len() == field.len(),
        forall|k: int| 0 <= k < field.len() ==> #[trigger] chars_as_bytes(field)[k] == field[k] as u8,
{
}

/// A C `char` array holding the UTF-8 encoding of a text without NUL
/// characters (each byte as a `char` with the same bits), then either ending
/// or going on with a NUL `char`, reads back as the text.
pub proof fn lemma_chars_round_trip(text: Seq<char>, field: Seq<i8>)
    requires
        has_no_nul_char(text),
        encode_utf8(text).len() <= field.len(),
        forall|k: int| 0 <= k < encode_utf8(text).len() ==> field[k] as u8 == encode_utf8(text)[k],
        encode_utf8(text).len() < field.len() ==> field[encode_utf8(text).len() as int] == 0,
    ensures
        c_string_text(chars_as_bytes(field)) == text,
{
    let bytes = chars_as_bytes(field);
    let n = encode_utf8(text).len() as int;
    assert(bytes.len() == field.len());
    assert forall|k: int| 0 <= k < n implies bytes[k] == encode_utf8(text)[k] by {
        assert(bytes[k] == field[k] as u8);
    }
    if n < field.len() {
        assert(bytes[n] == field[n] as u8);
    }
    lemma_c_string_text_of_encoded_prefix(text, bytes);
}

} // verus!
