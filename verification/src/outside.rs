//! What the library has from other crates and from parts of std that carry no
//! specification. Everything stated here is believed, not proved: each item
//! says what it takes on trust, and the rest of the library is proved from it.

use base64::Engine;
use sha2::Digest;
use vstd::prelude::*;
use vstd::utf8::{decode_utf8, is_ascii_chars, valid_utf8};

use crate::text::{ascii_lowered, ascii_raised, json_string};

verus! {

// ---------------------------------------------------------------------------
// std
// ---------------------------------------------------------------------------

/// `String::push` appends one character to the end of a string.
pub assume_specification[ String::push ](s: &mut String, ch: char)
    ensures
        final(s)@ == old(s)@.push(ch),
;

/// `String::from_utf8` turns bytes into the string that they encode if they
/// are valid UTF-8, and fails if they are not.
#[verifier::external_body]
pub(crate) fn string_from_utf8(bytes: Vec<u8>) -> (r: Option<String>)
    ensures
        match r {
            Some(s) => valid_utf8(bytes@) && s@ == decode_utf8(bytes@),
            None => !valid_utf8(bytes@),
        },
{
    String::from_utf8(bytes).ok()
}

/// What `String::from_utf8_lossy` makes of bytes.
pub uninterp spec fn utf8_lossy(bytes: Seq<u8>) -> Seq<char>;

/// `String::from_utf8_lossy` decodes UTF-8, with a replacement character in
/// place of what is not valid; valid bytes are decoded as they are.
#[verifier::external_body]
pub(crate) fn utf8_lossy_string(bytes: &[u8]) -> (r: String)
    ensures
        r@ == utf8_lossy(bytes@),
        valid_utf8(bytes@) ==> r@ == decode_utf8(bytes@),
{
    String::from_utf8_lossy(bytes).into_owned()
}

/// What `str::to_lowercase` makes of a string.
pub uninterp spec fn lowercase(s: Seq<char>) -> Seq<char>;

/// `str::to_lowercase` gives the Unicode lower case of a string, which for
/// ASCII strings changes the letters from A to Z only.
#[verifier::external_body]
pub(crate) fn lowercase_string(s: &str) -> (r: String)
    ensures
        r@ == lowercase(s@),
        is_ascii_chars(s@) ==> r@ == ascii_lowered(s@),
{
    s.to_lowercase()
}

/// What `str::to_uppercase` makes of a string.
pub uninterp spec fn uppercase(s: Seq<char>) -> Seq<char>;

/// `str::to_uppercase` gives the Unicode upper case of a string, which for
/// ASCII strings changes the letters from a to z only.
#[verifier::external_body]
pub(crate) fn uppercase_string(s: &str) -> (r: String)
    ensures
        r@ == uppercase(s@),
        is_ascii_chars(s@) ==> r@ == ascii_raised(s@),
{
    s.to_uppercase()
}

// ---------------------------------------------------------------------------
// sha2
// ---------------------------------------------------------------------------

/// The SHA-256 digest of bytes, as `sha2` computes it.
pub uninterp spec fn sha256(data: Seq<u8>) -> Seq<u8>;

/// `Sha256::digest` gives the SHA-256 digest of bytes.
#[verifier::external_body]
pub(crate) fn sha256_digest(data: &[u8]) -> (r: Vec<u8>)
    ensures
        r@ == sha256(data@),
{
    sha2::Sha256::digest(data).to_vec()
}

// ---------------------------------------------------------------------------
// base64
// ---------------------------------------------------------------------------

/// The character of the standard base64 alphabet that stands for six bits.
pub open spec fn base64_char(bits: int) -> char {
    if bits < 26 {
        ('A' as int + bits) as char
    } else if bits < 52 {
        ('a' as int + bits - 26) as char
    } else if bits < 62 {
        ('0' as int + bits - 52) as char
    } else if bits == 62 {
        '+'
    } else {
        '/'
    }
}

/// The standard base64 encoding of bytes: four characters for every three
/// bytes, of six bits each, with padding in place of what the last ones lack.
pub open spec fn base64_text(data: Seq<u8>) -> Seq<char>
    decreases data.len(),
{
    let b0 = data[0] as int;
    let b1 = data[1] as int;
    let b2 = data[2] as int;
    let c0 = base64_char(b0 / 4);
    if data.len() == 0 {
        Seq::empty()
    } else if data.len() == 1 {
        seq![c0, base64_char(b0 % 4 * 16), '=', '=']
    } else if data.len() == 2 {
        seq![c0, base64_char(b0 % 4 * 16 + b1 / 16), base64_char(b1 % 16 * 4), '=']
    } else {
        seq![
            c0,
            base64_char(b0 % 4 * 16 + b1 / 16),
            base64_char(b1 % 16 * 4 + b2 / 64),
            base64_char(b2 % 64),
        ] + base64_text(data.skip(3))
    }
}

/// `Engine::encode` of the `STANDARD` engine gives the standard base64
/// encoding, with padding. Input whose encoding, four characters for every
/// three bytes begun, would not fit in memory makes it panic and is left out.
#[verifier::external_body]
pub(crate) fn base64_string(data: &[u8]) -> (r: String)
    requires
        data@.len() / 3 * 4 + 4 <= isize::MAX,
    ensures
        r@ == base64_text(data@),
{
    base64::engine::general_purpose::STANDARD.encode(data)
}

// ---------------------------------------------------------------------------
// serde_json
// ---------------------------------------------------------------------------

/// `serde_json::to_string` of a string gives its JSON notation: in quotes,
/// with quotes, backslashes and control characters escaped and every other
/// character as it is. It does not fail on a string.
#[verifier::external_body]
pub(crate) fn json_quoted(s: &str) -> (r: String)
    ensures
        r@ == json_string(s@),
{
    serde_json::to_string(s).unwrap()
}

/// The compact form of the JSON value that a text holds, as `serde_json`
/// parses and prints it; nothing if it does not parse.
pub uninterp spec fn json_reprinted(text: Seq<char>) -> Option<Seq<char>>;

/// `serde_json::from_str` reads a JSON value, or fails; the value is handed
/// out as the compact text that its `to_string` gives.
#[verifier::external_body]
pub(crate) fn json_compact(text: &str) -> (r: Option<String>)
    ensures
        match r {
            Some(t) => json_reprinted(text@) == Some(t@),
            None => json_reprinted(text@) is None,
        },
{
    serde_json::from_str::<serde_json::Value>(text).ok().map(|v| v.to_string())
}

// ---------------------------------------------------------------------------
// serde_yaml
// ---------------------------------------------------------------------------

/// A YAML value, which is opaque here but for what stands at its paths.
#[verifier::external_type_specification]
#[verifier::external_body]
pub struct ExYamlValue(serde_yaml::Value);

/// The strings in a YAML value, by the path of mapping keys that leads to them.
pub uninterp spec fn yaml_texts(value: serde_yaml::Value) -> Map<Seq<Seq<char>>, Seq<char>>;

/// The unsigned numbers in a YAML value, by the path of mapping keys that
/// leads to them.
pub uninterp spec fn yaml_numbers(value: serde_yaml::Value) -> Map<Seq<Seq<char>>, u64>;

/// The strings and the unsigned numbers in the YAML document that a text
/// holds, by their paths; or what is wrong with it.
pub uninterp spec fn yaml_parsed(text: Seq<char>) -> Result<
    (Map<Seq<Seq<char>>, Seq<char>>, Map<Seq<Seq<char>>, u64>),
    Seq<char>,
>;

/// `serde_yaml::from_str` reads a YAML document, or says what is wrong with it.
#[verifier::external_body]
pub(crate) fn yaml_document(text: &str) -> (r: Result<serde_yaml::Value, String>)
    ensures
        match r {
            Ok(v) => yaml_parsed(text@) == Ok::<
                (Map<Seq<Seq<char>>, Seq<char>>, Map<Seq<Seq<char>>, u64>),
                Seq<char>,
            >((yaml_texts(v), yaml_numbers(v))),
            Err(e) => yaml_parsed(text@) == Err::<
                (Map<Seq<Seq<char>>, Seq<char>>, Map<Seq<Seq<char>>, u64>),
                Seq<char>,
            >(e@),
        },
{
    serde_yaml::from_str(text).map_err(|e| e.to_string())
}

/// Indexing a YAML value by a string gives what stands under that mapping key,
/// and a null, with nothing in it, if there is no such key or no mapping.
#[verifier::external_body]
pub(crate) fn yaml_entry<'a>(value: &'a serde_yaml::Value, key: &str) -> (r: &'a serde_yaml::Value)
    ensures
        forall|path: Seq<Seq<char>>| #[trigger]
            yaml_texts(*r).contains_key(path) == yaml_texts(*value).contains_key(seq![key@] + path),
        forall|path: Seq<Seq<char>>|
            yaml_texts(*r).contains_key(path) ==> #[trigger] yaml_texts(*r)[path] == yaml_texts(
                *value,
            )[seq![key@] + path],
        forall|path: Seq<Seq<char>>| #[trigger]
            yaml_numbers(*r).contains_key(path) == yaml_numbers(*value).contains_key(
                seq![key@] + path,
            ),
        forall|path: Seq<Seq<char>>|
            yaml_numbers(*r).contains_key(path) ==> #[trigger] yaml_numbers(*r)[path] == yaml_numbers(
                *value,
            )[seq![key@] + path],
{
    &value[key]
}

/// `Value::as_str` gives the string that a YAML value is, if it is one.
#[verifier::external_body]
pub(crate) fn yaml_text(value: &serde_yaml::Value) -> (r: Option<String>)
    ensures
        match r {
            Some(s) => yaml_texts(*value).contains_key(Seq::empty()) && yaml_texts(*value)[Seq::empty()]
                == s@,
            None => !yaml_texts(*value).contains_key(Seq::empty()),
        },
{
    value.as_str().map(|s| s.to_string())
}

/// `Value::as_u64` gives the number that a YAML value is, if it is an unsigned
/// integer.
#[verifier::external_body]
pub(crate) fn yaml_number(value: &serde_yaml::Value) -> (r: Option<u64>)
    ensures
        match r {
            Some(n) => yaml_numbers(*value).contains_key(Seq::empty()) && yaml_numbers(
                *value,
            )[Seq::empty()] == n,
            None => !yaml_numbers(*value).contains_key(Seq::empty()),
        },
{
    value.as_u64()
}

// ---------------------------------------------------------------------------
// chrono
// ---------------------------------------------------------------------------

/// The format of times in log lines: date, time with microseconds, and offset.
pub const TIME_FORMAT: &'static str = "%Y-%m-%dT%H:%M:%S%.6f%:z";

/// The characters that times in log lines are made of.
pub open spec fn is_time_char(c: char) -> bool {
    '0' <= c <= '9' || c == '-' || c == ':' || c == 'T' || c == '.' || c == '+'
}

/// Whether the character that many places from the end of a time is no digit.
pub open spec fn is_time_mark(from_end: int) -> bool {
    from_end == 28 || from_end == 25 || from_end == 22 || from_end == 19 || from_end == 16
        || from_end == 13 || from_end == 6 || from_end == 3
}

/// A time in the format of log lines. It begins with the four digits of the
/// year, or with a sign and more digits if the year needs them.
pub open spec fn is_time(s: Seq<char>) -> bool {
    let n = s.len() as int;
    &&& n >= 32
    &&& s[n - 28] == '-' && s[n - 25] == '-'
    &&& s[n - 22] == 'T'
    &&& s[n - 19] == ':' && s[n - 16] == ':'
    &&& s[n - 13] == '.'
    &&& s[n - 6] == '+' || s[n - 6] == '-'
    &&& s[n - 3] == ':'
    &&& forall|i: int|
        n - 32 <= i < n && !is_time_mark(n - i) ==> '0' <= #[trigger] s[i] <= '9'
    &&& forall|i: int| 0 <= i < n ==> is_time_char(#[trigger] s[i])
}

/// A time ends with the offset of UTC.
pub open spec fn is_utc(s: Seq<char>) -> bool {
    s.skip(s.len() - 6) == "+00:00"@
}

/// `Utc::now`, formatted: a time in the given format with the offset of UTC.
/// Which time it is, is left unsaid.
#[verifier::external_body]
pub(crate) fn utc_now(format: &str) -> (r: String)
    requires
        format@ == TIME_FORMAT@,
    ensures
        is_time(r@),
        is_utc(r@),
{
    chrono::Utc::now().format(format).to_string()
}

/// `Local::now`, formatted: a time in the given format. Which time it is, and
/// what the offset of the machine's zone is, is left unsaid.
#[verifier::external_body]
pub(crate) fn local_now(format: &str) -> (r: String)
    requires
        format@ == TIME_FORMAT@,
    ensures
        is_time(r@),
{
    chrono::Local::now().format(format).to_string()
}

} // verus!
