//! What the library takes from other crates, and from the standard library. Every
//! item here states what a function from there does; nothing of it is proved.

use base64::Engine;
use sha2::Digest;
use vstd::prelude::*;

use crate::text;

verus! {

/// What `base64`'s `STANDARD` engine writes for bytes.
pub uninterp spec fn base64_text(bytes: Seq<u8>) -> Seq<char>;

/// What `base64`'s `STANDARD` engine reads out of a text: the bytes, or how it
/// words that the text is no base64.
pub uninterp spec fn base64_bytes(text: Seq<char>) -> Result<Seq<u8>, Seq<char>>;

/// `base64::Engine::encode` of the `STANDARD` engine. It panics where the text
/// would not fit into memory. What it writes, `decode` reads back.
#[verifier::external_body]
pub(crate) fn base64_encode(bytes: &Vec<u8>) -> (text: String)
    requires
        4 * bytes.len() <= usize::MAX,
    ensures
        text@ == base64_text(bytes@),
        base64_bytes(text@) is Ok && base64_bytes(text@)->Ok_0 == bytes@,
{
    base64::engine::general_purpose::STANDARD.encode(bytes)
}

/// `base64::Engine::decode` of the `STANDARD` engine, with its error put into words
/// by its `Display`.
#[verifier::external_body]
pub(crate) fn base64_decode(text: &str) -> (r: Result<Vec<u8>, String>)
    ensures
        match r {
            Ok(bytes) => base64_bytes(text@) matches Ok(b) && b == bytes@,
            Err(words) => base64_bytes(text@) matches Err(w) && w == words@,
        },
{
    match base64::engine::general_purpose::STANDARD.decode(text.as_bytes()) {
        Ok(bytes) => Ok(bytes),
        Err(e) => Err(e.to_string()),
    }
}

/// The SHA-256 digest that `sha2` computes.
pub uninterp spec fn sha256_digest(bytes: Seq<u8>) -> Seq<u8>;

/// `sha2::Sha256`, fed with all bytes at once. A digest has 32 bytes.
#[verifier::external_body]
pub(crate) fn sha256(bytes: &Vec<u8>) -> (digest: Vec<u8>)
    ensures
        digest@ == sha256_digest(bytes@),
        digest@.len() == 32,
{
    let mut hasher = sha2::Sha256::new();
    hasher.update(bytes);
    hasher.finalize().to_vec()
}

/// Whether a text has the hyphenated form of a UUID of version 7.
pub open spec fn is_uuid_v7(id: Seq<char>) -> bool {
    &&& id.len() == 36
    &&& id[14] == '7'
    &&& id[19] == '8' || id[19] == '9' || id[19] == 'a' || id[19] == 'b'
    &&& forall|i: int|
        0 <= i < 36 ==> if i == 8 || i == 13 || i == 18 || i == 23 {
            #[trigger] id[i] == '-'
        } else {
            ('0' <= id[i] <= '9') || ('a' <= id[i] <= 'f')
        }
}

/// `uuid::Uuid::now_v7`, put into words by its `Display`: the hyphenated form in
/// lower case. Which identifier comes depends on the clock and on chance; a clock
/// that stands before 1970 makes it panic.
#[verifier::external_body]
pub(crate) fn fresh_uuid() -> (id: String)
    ensures
        is_uuid_v7(id@),
{
    uuid::Uuid::now_v7().to_string()
}

/// Whether a text has the form of a grain identifier.
pub open spec fn is_grain(id: Seq<char>) -> bool {
    &&& id.len() == 7
    &&& forall|i: int|
        0 <= i < 7 ==> (('0' <= #[trigger] id[i] <= '9') || ('a' <= id[i] <= 'z' && id[i] != 'i'
            && id[i] != 'l' && id[i] != 'o' && id[i] != 'u'))
}

/// `grain_id::GrainId::random`, put into words by its `Display`: seven digits and
/// lower case letters, without those that are easily misread. Which identifier
/// comes is up to chance.
#[verifier::external_body]
pub(crate) fn fresh_grain() -> (id: String)
    ensures
        is_grain(id@),
{
    grain_id::GrainId::random().to_string()
}

/// Whether the second path is the first with some text in place of its tilde.
pub open spec fn tilde_replaced(path: Seq<char>, r: Seq<char>) -> bool {
    &&& path.len() > 0
    &&& path[0] == '~'
    &&& exists|home: Seq<char>| r == #[trigger] (home + path.skip(1))
}

/// `shellexpand::tilde`. A path is changed only where it is a tilde or starts with
/// one and a separator. There a text stands in place of the tilde, and the rest of
/// the path is kept; which text that is depends on the machine, and where the
/// machine has none the path is kept whole.
#[verifier::external_body]
pub(crate) fn expand_tilde(path: &str) -> (r: String)
    ensures
        path@.len() == 0 || path@[0] != '~' ==> r@ == path@,
        path@.len() >= 2 && path@[1] != '/' && path@[1] != '\\' ==> r@ == path@,
        r@ == path@ || tilde_replaced(path@, r@),
{
    shellexpand::tilde(path).into_owned()
}

/// Whether a path reads so with its tilde resolved: a text in place of it, where the
/// path is a tilde or starts with one and a separator, and there is such a text. Not
/// every machine takes a backslash for a separator.
pub open spec fn tilde_resolved(path: Seq<char>, home: Option<Seq<char>>, r: Seq<char>) -> bool {
    match home {
        Some(h) if path.len() > 0 && path[0] == '~' => if path.len() == 1 || path[1] == '/' {
            r == h + path.skip(1)
        } else if path[1] == '\\' {
            r == path || r == h + path.skip(1)
        } else {
            r == path
        },
        _ => r == path,
    }
}

/// `shellexpand::tilde_with_context`, with a context that gives `home`: it stands in
/// place of a tilde that is the whole path or has a separator after it, and every
/// other path is kept. Whether a backslash is a separator depends on the machine, and
/// is left open.
#[verifier::external_body]
pub(crate) fn resolve_tilde(path: &str, home: Option<&str>) -> (r: String)
    ensures
        tilde_resolved(path@, text::opt(home), r@),
{
    shellexpand::tilde_with_context(path, || home).into_owned()
}

/// Whether a path is spelled with slashes alone: without a backslash or a colon, and
/// without two slashes at its start.
pub open spec fn plain_path(path: Seq<char>) -> bool {
    &&& !path.contains('\\')
    &&& !path.contains(':')
    &&& !(path.len() >= 2 && path[0] == '/' && path[1] == '/')
}

/// What stands after the last slash of a path.
pub open spec fn after_slash(path: Seq<char>) -> Seq<char>
    decreases path.len(),
{
    if path.len() == 0 || path.last() == '/' {
        Seq::empty()
    } else {
        after_slash(path.drop_last()).push(path.last())
    }
}

/// The last component of a path that is spelled with slashes. Slashes at its end and
/// components that are a dot do not count, and two dots name nothing.
pub open spec fn last_component(path: Seq<char>) -> Option<Seq<char>>
    decreases path.len(),
{
    if path.len() == 0 {
        None
    } else if path.last() == '/' || after_slash(path) == seq!['.'] {
        last_component(path.drop_last())
    } else if after_slash(path) == seq!['.'].push('.') {
        None
    } else {
        Some(after_slash(path))
    }
}

/// `std::path::Path::file_name`: the final component of a path, and nothing where it
/// ends in two dots or has none. What separates components beside the slash, and what
/// may stand before the first, depends on the machine; of a path that may hold such
/// signs only this is said, that its final component is a piece of it.
#[verifier::external_body]
pub(crate) fn file_name(path: &str) -> (r: Option<String>)
    ensures
        plain_path(path@) ==> r.deep_view() == last_component(path@),
        r is Some ==> piece_of(path@, r.unwrap()@),
{
    match std::path::Path::new(path).file_name() {
        Some(name) => match name.to_str() {
            Some(name) => Some(name.to_owned()),
            None => None,
        },
        None => None,
    }
}

/// Whether a text is a piece of another, and not empty.
pub open spec fn piece_of(whole: Seq<char>, piece: Seq<char>) -> bool {
    &&& piece.len() > 0
    &&& exists|i: int|
        0 <= i <= whole.len() - piece.len() && piece == #[trigger] whole.subrange(
            i,
            i + piece.len(),
        )
}

/// How `chrono` words a time in UTC after RFC 3339, from its seconds and
/// nanoseconds since the epoch; nothing where that is outside its range.
pub uninterp spec fn rfc3339_text(secs: int, nanos: int) -> Option<Seq<char>>;

/// `chrono::DateTime::<Utc>::from_timestamp` and `to_rfc3339`.
#[verifier::external_body]
pub(crate) fn rfc3339(secs: i64, nanos: u32) -> (text: Option<String>)
    ensures
        text.deep_view() == rfc3339_text(secs as int, nanos as int),
{
    match chrono::DateTime::<chrono::Utc>::from_timestamp(secs, nanos) {
        Some(time) => Some(time.to_rfc3339()),
        None => None,
    }
}

/// How `serde_json` reads a text as one JSON value: it does, or it does not, and
/// then whether that is because the text ended too early.
pub uninterp spec fn json_reading(text: Seq<char>) -> Result<(), bool>;

/// `serde_json::from_str` into a `serde_json::Value`, and `is_eof` of its error.
#[verifier::external_body]
pub(crate) fn read_json(text: &str) -> (r: Result<(), bool>)
    ensures
        r == json_reading(text@),
{
    match serde_json::from_str::<serde_json::Value>(text) {
        Ok(_) => Ok(()),
        Err(e) => Err(e.is_eof()),
    }
}

/// `axum::http::HeaderMap`: the headers of a request.
#[verifier::external_type_specification]
#[verifier::external_body]
#[verifier::reject_recursive_types(T)]
pub struct ExHeaderMap<T>(axum::http::HeaderMap<T>);

/// `axum::http::HeaderValue`: the value of a header.
#[verifier::external_type_specification]
#[verifier::external_body]
pub struct ExHeaderValue(axum::http::HeaderValue);

/// The headers whose first value is visible ASCII, by every spelling of their names
/// under which they are found.
pub uninterp spec fn header_texts(
    headers: axum::http::HeaderMap<axum::http::HeaderValue>,
) -> Map<Seq<char>, Seq<char>>;

/// `HeaderMap::get`, and `HeaderValue::to_str` of what it finds: the first value
/// under a name, where there is one and it is visible ASCII.
#[verifier::external_body]
pub(crate) fn header_text<'a>(
    headers: &'a axum::http::HeaderMap<axum::http::HeaderValue>,
    name: &str,
) -> (r: Option<&'a str>)
    ensures
        match r {
            Some(text) => header_texts(*headers).contains_key(name@) && header_texts(
                *headers,
            )[name@] == text@,
            None => !header_texts(*headers).contains_key(name@),
        },
{
    match headers.get(name) {
        Some(value) => value.to_str().ok(),
        None => None,
    }
}

} // verus!
