//! Answers to the browser's requests for the embedded web client: which asset
//! a request path names, and the response that serves it.
use vstd::prelude::*;
use vstd::string::*;
use vstd::utf8::*;

verus! {

/// The asset a request path names: `index.html` for the root `/`, and
/// otherwise the path without its first character.
pub open spec fn asset_path(request_path: Seq<char>) -> Seq<char> {
    if request_path == seq!['/'] {
        "index.html"@
    } else {
        request_path.drop_first()
    }
}

/// The root `/` names `index.html`; every other request path names itself
/// without its first character, which put back in front gives the request
/// path again.
pub proof fn lemma_asset_path_strips_first_char(request_path: Seq<char>)
    ensures
        request_path == seq!['/'] ==> asset_path(request_path) == "index.html"@,
        request_path.len() > 0 && request_path != seq!['/'] ==> {
            &&& asset_path(request_path) == request_path.drop_first()
            &&& asset_path(request_path).len() + 1 == request_path.len()
            &&& seq![request_path[0]] + asset_path(request_path) == request_path
        },
{
    if request_path.len() > 0 && request_path != seq!['/'] {
        assert(seq![request_path[0]] + request_path.drop_first() =~= request_path);
    }
}

/// The UTF-8 encoding of a text that starts with an ASCII character: that
/// character's byte, then the encoding of the rest.
proof fn lemma_encode_ascii_head(text: Seq<char>)
    requires
        text.len() > 0,
        '\0' <= text[0] <= '\u{7f}',
    ensures
        encode_utf8(text) == seq![text[0] as u32 as u8] + encode_utf8(text.drop_first()),
        encode_utf8(text.drop_first()).len() == 0 <==> text.len() == 1,
{
    let v = text[0] as u32;
    char_is_scalar(text[0]);
    assert(v < 0x80 ==> leading_byte_width_1(v) == v as u8) by (bit_vector);
    assert(has_width_1_encoding(v));
    assert(encode_scalar(v) == seq![leading_byte_width_1(v)]);
    let rest = text.drop_first();
    assert(encode_utf8(text) == encode_scalar(v) + encode_utf8(rest));
    if rest.len() > 0 {
        char_is_scalar(rest[0]);
        assert(encode_utf8(rest) == encode_scalar(rest[0] as u32) + encode_utf8(rest.drop_first()));
    }
}

/// Maps a request path onto the embedded asset it asks for: the root `/`
/// names `index.html`; any other path names itself without its leading
/// character (the slash).
pub fn request_file_path(path: &str) -> (file_path: &str)
    requires
        path@.len() > 0,
        is_ascii_chars(path@.take(1)),
    ensures
        file_path@ == asset_path(path@),
{
    broadcast use group_utf8_lib;

    let bytes = path.as_bytes();
    proof {
        assert(path@.take(1)[0] == path@[0]);
        lemma_encode_ascii_head(path@);
        assert(bytes@ == encode_utf8(path@));
        let v = path@[0] as u32;
        assert(v < 0x80 ==> (v as u8 == 0x2f <==> v == 0x2f)) by (bit_vector);
        assert(('/' as u32) == 0x2f);
        if bytes@.len() == 1 && bytes@[0] == 0x2f {
            char_u32_cast(path@[0], v);
            assert(path@[0] == '/');
            assert(path@ =~= seq!['/']);
        }
    }
    if bytes.len() == 1 && bytes[0] == 0x2f {
        "index.html"
    } else {
        proof {
            let b = encode_utf8(path@);
            assert(valid_first_scalar(b));
            assert(length_of_first_scalar(b) == 1);
            reveal_with_fuel(is_char_boundary, 2);
            assert(is_char_boundary(b, 1));
        }
        let (_, rest) = path.split_at(1);
        proof {
            assert(rest.spec_bytes() == encode_utf8(path@.drop_first()));
            assert(decode_utf8(encode_utf8(rest@)) == rest@);
        }
        rest
    }
}

/// The MIME type that `mime_guess` guesses for a path, as text. The guess is
/// read off the path's extension in a fixed table.
pub uninterp spec fn guessed_mime_type(path: Seq<char>) -> Seq<char>;

/// Calls `mime_guess::MimeGuess::from_path` on `path`, then
/// `first_or_octet_stream` on the guess, and returns the text of that type.
/// The result is a function of the path alone, named `guessed_mime_type`.
/// The crate's documentation adds that a path without an extension is
/// guessed as `application/octet-stream`; a path without any `.` has none.
/// Which type a given extension gets is left unsaid.
#[verifier::external_body]
fn guess_mime_type(path: &str) -> (mime: String)
    ensures
        mime@ == guessed_mime_type(path@),
        !path@.contains('.') ==> mime@ == "application/octet-stream"@,
{
    let mime = mime_guess::MimeGuess::from_path(path).first_or_octet_stream();
    AsRef::<str>::as_ref(&mime).to_string()
}

/// An HTTP response for an embedded asset, before it is handed to the web
/// framework.
pub struct EmbeddedResponse {
    /// The HTTP status code.
    pub status: u16,
    /// The value of the `Content-Type` header.
    pub content_type: String,
    /// The response body.
    pub body: Vec<u8>,
}

/// The status of a response that serves an asset.
pub const STATUS_OK: u16 = 200;

/// The status of a response for a path that names no asset.
pub const STATUS_NOT_FOUND: u16 = 404;

/// The response that serves an asset's `contents` as `content_type`.
pub fn found_response(contents: Vec<u8>, content_type: String) -> (r: EmbeddedResponse)
    ensures
        r.status == STATUS_OK,
        r.content_type@ == content_type@,
        r.body@ == contents@,
{
    EmbeddedResponse { status: STATUS_OK, content_type, body: contents }
}

/// The body of the response for a path that names no asset: the text `404`.
pub open spec fn not_found_body() -> Seq<u8> {
    seq![0x34u8, 0x30u8, 0x34u8]
}

/// The response for a path that names no asset: status 404, plain UTF-8 text,
/// and the body `404`.
pub fn not_found_response() -> (r: EmbeddedResponse)
    ensures
        r.status == STATUS_NOT_FOUND,
        r.content_type@ == "text/plain; charset=utf-8"@,
        r.body@ == not_found_body(),
{
    let body: Vec<u8> = vec![0x34u8, 0x30u8, 0x34u8];
    assert(body@ == not_found_body());
    EmbeddedResponse {
        status: STATUS_NOT_FOUND,
        content_type: "text/plain; charset=utf-8".to_owned(),
        body,
    }
}

/// Answers a request for the asset `file_path`, given what the lookup of the
/// asset found: its contents, served with the MIME type guessed from the
/// path, or the not-found response when there is no such asset.
pub fn embedded_response(file_path: &str, contents: Option<Vec<u8>>) -> (r: EmbeddedResponse)
    ensures
        match contents {
            Some(c) => {
                &&& r.status == STATUS_OK
                &&& r.content_type@ == guessed_mime_type(file_path@)
                &&& r.body@ == c@
            },
            None => {
                &&& r.status == STATUS_NOT_FOUND
                &&& r.content_type@ == "text/plain; charset=utf-8"@
                &&& r.body@ == not_found_body()
            },
        },
{
    match contents {
        Some(c) => {
            let mime = guess_mime_type(file_path);
            found_response(c, mime)
        },
        None => not_found_response(),
    }
}

} // verus!
