//! Encodings in which GitHub and external programs hand over text: Base64,
//! UTF-8 and JSON.

use crate::error::{outcome, OrchestratorError, OrchestratorErrorView};
use crate::text;
use crate::text::without_white_space;
use base64::Engine;
use vstd::prelude::*;
use vstd::utf8::{
    decode_utf8, decode_utf8_encode_utf8, encode_utf8, encode_utf8_decode_utf8,
    encode_utf8_valid_utf8, valid_utf8,
};

verus! {

// ── Base64 ─────────────────────────────────────────────────────────────────

/// What the standard Base64 decoder makes of a text: the bytes, or the text of
/// its error.
pub uninterp spec fn base64_decoded(text: Seq<char>) -> Result<Seq<u8>, Seq<char>>;

/// What the standard Base64 encoder writes for some bytes.
pub uninterp spec fn base64_encoded(bytes: Seq<u8>) -> Seq<char>;

/// The text decodes to the bytes.
pub open spec fn decodes_to(text: Seq<char>, bytes: Seq<u8>) -> bool {
    base64_decoded(text) == Ok::<Seq<u8>, Seq<char>>(bytes)
}

/// A result of bytes, by what it holds.
pub open spec fn bytes_outcome(r: Result<Vec<u8>, String>) -> Result<Seq<u8>, Seq<char>> {
    match r {
        Ok(b) => Ok(b@),
        Err(e) => Err(e@),
    }
}

/// `base64::Engine::decode` of the standard engine: the bytes, or the text of
/// the error, are determined by the input.
#[verifier::external_body]
pub(crate) fn base64_decode(text: &str) -> (r: Result<Vec<u8>, String>)
    ensures
        bytes_outcome(r) == base64_decoded(text@),
{
    base64::engine::general_purpose::STANDARD.decode(text).map_err(|e| e.to_string())
}

/// So many bytes can be encoded: four characters for every three bytes begun,
/// and no more of them than one allocation can hold.
pub open spec fn can_encode(len: nat) -> bool {
    (len + 2) / 3 * 4 <= isize::MAX
}

/// Whether so many bytes can be encoded.
pub fn is_encodable(len: usize) -> (yes: bool)
    ensures
        yes == can_encode(len as nat),
{
    let begun: usize = if len % 3 == 0 {
        len / 3
    } else {
        len / 3 + 1
    };
    begun <= (isize::MAX / 4) as usize
}

/// `base64::Engine::encode` of the standard engine: the text is determined by
/// the input, holds no white space, and decodes to the input. The encoder
/// panics where the text would outgrow what can be allocated at once.
#[verifier::external_body]
pub(crate) fn base64_encode(bytes: &[u8]) -> (text: String)
    requires
        can_encode(bytes@.len()),
    ensures
        text@ == base64_encoded(bytes@),
        decodes_to(text@, bytes@),
        without_white_space(text@) == text@,
{
    base64::engine::general_purpose::STANDARD.encode(bytes)
}

// ── UTF-8 ──────────────────────────────────────────────────────────────────

/// What `String::from_utf8` says of bytes that are not UTF-8.
pub uninterp spec fn utf8_error_text(bytes: Seq<u8>) -> Seq<char>;

/// `String::from_utf8`: the decoded text if the bytes are UTF-8, otherwise the
/// text of the error, which is determined by the bytes.
#[verifier::external_body]
pub(crate) fn utf8_text(bytes: Vec<u8>) -> (r: Result<String, String>)
    ensures
        match r {
            Ok(t) => valid_utf8(bytes@) && t@ == decode_utf8(bytes@),
            Err(m) => !valid_utf8(bytes@) && m@ == utf8_error_text(bytes@),
        },
{
    String::from_utf8(bytes).map_err(|e| e.to_string())
}

/// What `String::from_utf8_lossy` makes of some bytes.
pub uninterp spec fn lossy_text(bytes: Seq<u8>) -> Seq<char>;

/// `String::from_utf8_lossy`: the text is determined by the bytes, and is their
/// decoding where they are UTF-8.
#[verifier::external_body]
pub(crate) fn utf8_lossy(bytes: &[u8]) -> (t: String)
    ensures
        t@ == lossy_text(bytes@),
        valid_utf8(bytes@) ==> t@ == decode_utf8(bytes@),
{
    String::from_utf8_lossy(bytes).to_string()
}

/// The text that `{:?}` writes for a string: quoted, with escapes.
pub uninterp spec fn debug_quoted(text: Seq<char>) -> Seq<char>;

/// `std::fmt::Debug` for `str`: the quoted text is determined by the string.
#[verifier::external_body]
pub(crate) fn debug_quote(text: &str) -> (quoted: String)
    ensures
        quoted@ == debug_quoted(text@),
{
    format!("{:?}", text)
}

// ── JSON ───────────────────────────────────────────────────────────────────

/// What a JSON document holds under a key of its top-level object: the text, if
/// there is a string there; the text of the parser's error, if the bytes are
/// not JSON.
pub uninterp spec fn json_member(bytes: Seq<u8>, key: Seq<char>) -> Result<
    Option<Seq<char>>,
    Seq<char>,
>;

/// A result of optional text, by what it holds.
pub open spec fn member_outcome(r: Result<Option<String>, String>) -> Result<
    Option<Seq<char>>,
    Seq<char>,
> {
    match r {
        Ok(t) => Ok(t.deep_view()),
        Err(e) => Err(e@),
    }
}

/// `serde_json::from_slice` to a `Value`, indexed by a key and read with
/// `as_str`: determined by the bytes and the key.
#[verifier::external_body]
pub(crate) fn json_text_member(bytes: &[u8], key: &str) -> (r: Result<Option<String>, String>)
    ensures
        member_outcome(r) == json_member(bytes@, key@),
{
    serde_json::from_slice::<serde_json::Value>(bytes).map(
        |v| v[key].as_str().map(|s| s.to_string()),
    ).map_err(|e| e.to_string())
}

// ── File contents ──────────────────────────────────────────────────────────

/// The bytes of a file as GitHub hands them over: Base64 with line breaks.
pub open spec fn content_bytes(content: Seq<char>) -> Result<Seq<u8>, OrchestratorErrorView> {
    match base64_decoded(without_white_space(content)) {
        Ok(bytes) => Ok(bytes),
        Err(m) => Err(OrchestratorErrorView::Base64Decode(m)),
    }
}

/// The text that some bytes of a file spell.
pub open spec fn bytes_text(bytes: Seq<u8>) -> Result<Seq<char>, OrchestratorErrorView> {
    if valid_utf8(bytes) {
        Ok(decode_utf8(bytes))
    } else {
        Err(OrchestratorErrorView::FromUtf8(utf8_error_text(bytes)))
    }
}

/// The text of a file as GitHub hands it over.
pub open spec fn content_text(content: Seq<char>) -> Result<Seq<char>, OrchestratorErrorView> {
    match content_bytes(content) {
        Ok(bytes) => bytes_text(bytes),
        Err(e) => Err(e),
    }
}

/// The bytes of a file as GitHub hands them over.
pub fn decode_content(content: &str) -> (r: Result<Vec<u8>, OrchestratorError>)
    ensures
        match r {
            Ok(b) => content_bytes(content@) == Ok::<Seq<u8>, OrchestratorErrorView>(b@),
            Err(e) => content_bytes(content@) == Err::<Seq<u8>, OrchestratorErrorView>(e@),
        },
{
    let cleaned = text::drop_white_space(content);
    match base64_decode(&cleaned) {
        Ok(bytes) => Ok(bytes),
        Err(m) => Err(OrchestratorError::Base64Decode(m)),
    }
}

/// The text that some bytes of a file spell.
pub fn decode_text(bytes: Vec<u8>) -> (r: Result<String, OrchestratorError>)
    ensures
        outcome(r) == bytes_text(bytes@),
{
    match utf8_text(bytes) {
        Ok(t) => Ok(t),
        Err(m) => Err(OrchestratorError::FromUtf8(m)),
    }
}

/// The text of a file as GitHub hands it over.
pub fn decode_content_text(content: &str) -> (r: Result<String, OrchestratorError>)
    ensures
        outcome(r) == content_text(content@),
{
    match decode_content(content) {
        Ok(bytes) => decode_text(bytes),
        Err(e) => Err(e),
    }
}

/// The contents under which a text is stored; `None` if the text is too long to
/// be encoded.
pub fn encode_content(t: &str) -> (content: Option<String>)
    ensures
        match content {
            Some(c) => {
                &&& can_encode(encode_utf8(t@).len())
                &&& c@ == base64_encoded(encode_utf8(t@))
                &&& content_text(c@) == Ok::<Seq<char>, OrchestratorErrorView>(t@)
            },
            None => !can_encode(encode_utf8(t@).len()),
        },
{
    let bytes = t.as_bytes();
    if !is_encodable(bytes.len()) {
        return None;
    }
    proof {
        encode_utf8_valid_utf8(t@);
        encode_utf8_decode_utf8(t@);
    }
    Some(base64_encode(bytes))
}

// ── Laws ───────────────────────────────────────────────────────────────────

/// The line breaks that GitHub puts into the contents of a file, wherever they stand,
/// do not change what is read; what cannot be decoded is an error.
pub proof fn line_breaks_do_not_matter(a: Seq<char>, space: char, b: Seq<char>)
    requires
        text::is_white_space(space),
    ensures
        content_bytes(a + seq![space] + b) == content_bytes(a + b),
        content_text(a + seq![space] + b) == content_text(a + b),
        content_bytes(a) matches Ok(bytes) ==> content_text(a) == bytes_text(bytes),
        content_bytes(a) matches Err(e) ==> e is Base64Decode && content_text(a) == Err::<
            Seq<char>,
            OrchestratorErrorView,
        >(e),
{
    text::white_space_is_dropped(a, space, b);
}

/// Text reads back from the bytes that spell it; bytes that spell none are an error.
pub proof fn text_reads_back_from_its_bytes(t: Seq<char>, bytes: Seq<u8>)
    ensures
        bytes_text(encode_utf8(t)) == Ok::<Seq<char>, OrchestratorErrorView>(t),
        bytes_text(bytes) is Ok <==> valid_utf8(bytes),
        bytes_text(bytes) matches Err(e) ==> e is FromUtf8,
        bytes_text(bytes) matches Ok(shown) ==> encode_utf8(shown) == bytes,
{
    encode_utf8_valid_utf8(t);
    encode_utf8_decode_utf8(t);
    if valid_utf8(bytes) {
        decode_utf8_encode_utf8(bytes);
    }
}

} // verus!
