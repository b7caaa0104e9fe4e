//! Calls into outside crates and the parts of std that have no contract of
//! their own. Every contract in this file is believed, not proved.

use base64::Engine;
use rand::RngExt;
use vstd::prelude::*;
use vstd::utf8::{decode_utf8, valid_utf8};

verus! {

/// `c` is a lower-case hexadecimal digit.
pub open spec fn is_lower_hex(c: char) -> bool {
    ('0' <= c <= '9') || ('a' <= c <= 'f')
}

/// `s` has the hyphenated shape of a UUID, hexadecimal digits in groups of 8, 4,
/// 4, 4 and 12, with the digit of its version and one of the standard variant.
pub open spec fn is_uuid_text(s: Seq<char>, version: char) -> bool {
    &&& s.len() == 36
    &&& s[14] == version
    &&& s[19] == '8' || s[19] == '9' || s[19] == 'a' || s[19] == 'b'
    &&& forall|i: int|
        0 <= i < 36 ==> if i == 8 || i == 13 || i == 18 || i == 23 {
            #[trigger] s[i] == '-'
        } else {
            is_lower_hex(s[i])
        }
}

/// `Uuid::new_v4`, written out: some random UUID of version 4.
#[verifier::external_body]
pub(crate) fn uuid_v4_text() -> (r: String)
    ensures
        is_uuid_text(r@, '4'),
{
    uuid::Uuid::new_v4().to_string()
}

/// `Uuid::now_v7`, written out: some UUID of version 7, made of the time and
/// chance.
#[verifier::external_body]
pub(crate) fn uuid_v7_text() -> (r: String)
    ensures
        is_uuid_text(r@, '7'),
{
    uuid::Uuid::now_v7().to_string()
}

/// The base64 digit for six bits.
pub open spec fn base64_digit(v: int) -> char {
    if v < 26 {
        ((65 + v) as u32) as char
    } else if v < 52 {
        ((71 + v) as u32) as char
    } else if v < 62 {
        ((v - 4) as u32) as char
    } else if v == 62 {
        '+'
    } else {
        '/'
    }
}

/// `b` in padded base64 with the standard alphabet.
pub open spec fn base64_text(b: Seq<u8>) -> Seq<char>
    decreases b.len(),
{
    if b.len() == 0 {
        Seq::empty()
    } else if b.len() == 1 {
        let n = b[0] as int * 16;
        seq![base64_digit(n / 64), base64_digit(n % 64), '=', '=']
    } else if b.len() == 2 {
        let n = (b[0] as int * 256 + b[1] as int) * 4;
        seq![
            base64_digit(n / 4096),
            base64_digit(n / 64 % 64),
            base64_digit(n % 64),
            '=',
        ]
    } else {
        let n = b[0] as int * 65536 + b[1] as int * 256 + b[2] as int;
        seq![
            base64_digit(n / 262144),
            base64_digit(n / 4096 % 64),
            base64_digit(n / 64 % 64),
            base64_digit(n % 64),
        ] + base64_text(b.skip(3))
    }
}

/// `Engine::encode` of the `base64` crate's `STANDARD` engine: padded base64
/// with the standard alphabet. It fails only where the text would not fit the
/// address space.
#[verifier::external_body]
pub(crate) fn base64_encode(bytes: &Vec<u8>) -> (r: String)
    requires
        bytes@.len() / 3 * 4 + 4 <= usize::MAX,
    ensures
        r@ == base64_text(bytes@),
{
    base64::engine::general_purpose::STANDARD.encode(bytes)
}

/// `std::str::from_utf8`: the text that the bytes spell, if they are UTF-8.
#[verifier::external_body]
pub(crate) fn utf8_text(bytes: &Vec<u8>) -> (r: Option<&str>)
    ensures
        match r {
            Some(s) => valid_utf8(bytes@) && s@ == decode_utf8(bytes@),
            None => !valid_utf8(bytes@),
        },
{
    std::str::from_utf8(bytes).ok()
}

/// `rand::rng().random_range` over the nonnegative 64-bit numbers below the
/// greatest: some such number.
#[verifier::external_body]
pub(crate) fn random_room() -> (r: i64)
    ensures
        0 <= r < i64::MAX,
{
    rand::rng().random_range(0..i64::MAX)
}

/// `rand::rng().random_range` over the nonnegative 32-bit numbers below the
/// greatest: some such number.
#[verifier::external_body]
pub(crate) fn random_room_32() -> (r: i32)
    ensures
        0 <= r < i32::MAX,
{
    rand::rng().random_range(0..i32::MAX)
}

/// The hexadecimal digit for four bits.
pub open spec fn hex_digit(v: int) -> char {
    if v < 10 {
        ((48 + v) as u32) as char
    } else {
        ((87 + v) as u32) as char
    }
}

/// How a character stands in a JSON string.
pub open spec fn json_escaped(c: char) -> Seq<char> {
    if c == '"' || c == '\\' {
        seq!['\\', c]
    } else if c as u32 == 8 {
        seq!['\\', 'b']
    } else if c as u32 == 9 {
        seq!['\\', 't']
    } else if c as u32 == 10 {
        seq!['\\', 'n']
    } else if c as u32 == 12 {
        seq!['\\', 'f']
    } else if c as u32 == 13 {
        seq!['\\', 'r']
    } else if (c as u32) < 32 {
        seq!['\\', 'u', '0', '0', hex_digit(c as int / 16), hex_digit(c as int % 16)]
    } else {
        seq![c]
    }
}

/// The characters of `s` as they stand in a JSON string.
pub open spec fn json_body(s: Seq<char>) -> Seq<char>
    decreases s.len(),
{
    if s.len() == 0 {
        Seq::empty()
    } else {
        json_body(s.drop_last()) + json_escaped(s.last())
    }
}

/// `s` as a JSON string.
pub open spec fn json_text(s: Seq<char>) -> Seq<char> {
    seq!['"'] + json_body(s) + seq!['"']
}

/// `Display` of `serde_json::Value::String`: the text in quotes, with quotes,
/// backslashes and control characters escaped.
#[verifier::external_body]
pub(crate) fn json_string(s: &str) -> (r: String)
    ensures
        r@ == json_text(s@),
{
    serde_json::Value::String(s.to_owned()).to_string()
}

/// What `serde_json` finds in some bytes: two members of the value they spell,
/// one looked for as a string and one as a boolean; or why they spell none.
pub uninterp spec fn json_fields(
    bytes: Seq<u8>,
    text_key: Seq<char>,
    flag_key: Seq<char>,
) -> Result<(Option<Seq<char>>, Option<bool>), Seq<char>>;

/// What [`json_fields`] says of a result.
pub open spec fn fields_text(r: Result<(Option<String>, Option<bool>), String>) -> Result<
    (Option<Seq<char>>, Option<bool>),
    Seq<char>,
> {
    match r {
        Ok((Some(s), flag)) => Ok((Some(s@), flag)),
        Ok((None, flag)) => Ok((None, flag)),
        Err(e) => Err(e@),
    }
}

/// `serde_json::from_slice` into a `Value`, then `Value::get` with `as_str` and
/// `as_bool`: a member that is missing or of another type counts as none. The
/// error is what its `Display` says.
#[verifier::external_body]
pub(crate) fn json_read(bytes: &Vec<u8>, text_key: &str, flag_key: &str) -> (r: Result<
    (Option<String>, Option<bool>),
    String,
>)
    ensures
        fields_text(r) == json_fields(bytes@, text_key@, flag_key@),
{
    let value: serde_json::Value = serde_json::from_slice(bytes).map_err(|e| e.to_string())?;
    let text = value.get(text_key).and_then(|v| v.as_str()).map(|s| s.to_owned());
    let flag = value.get(flag_key).and_then(|v| v.as_bool());
    Ok((text, flag))
}

/// A member of the JSON value that some bytes spell, as `serde_json` writes it
/// out; the outer option is none where they spell no value, the inner one where
/// the value has no such member.
pub uninterp spec fn json_member(bytes: Seq<u8>, key: Seq<char>) -> Option<Option<Seq<char>>>;

/// `serde_json::from_slice` into a `Value`, then `Value::get`, and the member's
/// `Display`.
#[verifier::external_body]
pub(crate) fn json_read_member(bytes: &Vec<u8>, key: &str) -> (r: Option<Option<String>>)
    ensures
        json_member(bytes@, key@) == match r {
            Some(Some(s)) => Some(Some(s@)),
            Some(None) => Some(None::<Seq<char>>),
            None => None,
        },
{
    let value: serde_json::Value = serde_json::from_slice(bytes).ok()?;
    Some(value.get(key).map(|v| v.to_string()))
}

/// The BLAKE3 digest of some bytes.
pub uninterp spec fn blake3_digest(bytes: Seq<u8>) -> Seq<u8>;

/// `blake3::Hasher`, fed with the bytes and finalized: the digest, which has
/// 32 bytes.
#[verifier::external_body]
pub(crate) fn blake3_hash(bytes: &Vec<u8>) -> (r: Vec<u8>)
    ensures
        r@ == blake3_digest(bytes@),
        r@.len() == 32,
{
    blake3::Hasher::new().update(bytes).finalize().as_bytes().to_vec()
}

} // verus!
