//! The trusted boundary of the library: the HTTP exchange through `reqwest`,
//! and two character-level conversions of std that vstd gives no
//! specification for. Everything else in the crate is verified.

use vstd::prelude::*;

verus! {

/// `reqwest`'s error type, carried through opaquely; verified code only maps
/// it to the library's own `ClientError`.
#[verifier::external_type_specification]
#[verifier::external_body]
pub struct ExReqwestError(reqwest::Error);

/// Relies on `str::chars` and `Iterator::collect`: the characters of `s`,
/// in order, as a vector.
#[verifier::external_body]
pub(crate) fn chars_vec(s: &str) -> (v: Vec<char>)
    ensures
        v@ == s@,
{
    s.chars().collect()
}

/// Relies on `String: FromIterator<char>`: the string whose characters are
/// exactly those of `v`, in order.
#[verifier::external_body]
pub(crate) fn string_of(v: Vec<char>) -> (s: String)
    ensures
        s@ == v@,
{
    v.into_iter().collect()
}

/// Relies on `char::from_u32`, which vstd gives no specification: the
/// Unicode scalar with value `n` when `n` is one (not a surrogate and at
/// most U+10FFFF), and nothing otherwise.
#[verifier::external_body]
pub(crate) fn char_of_u32(n: u32) -> (r: Option<char>)
    ensures
        r == (if n < 0xD800 || (0xE000 <= n && n <= 0x10FFFF) {
            Some(n as char)
        } else {
            None::<char>
        }),
{
    char::from_u32(n)
}

/// Relies on `reqwest::blocking`: one HTTP POST of `body` to `url` with the
/// given `Content-Type` header value, returning the reply body as text. The
/// HTTP status is not inspected: whatever body came back is handed on, and
/// what comes back depends on the network, so nothing is promised of it.
#[verifier::external_body]
pub(crate) fn http_post(url: &str, content_type: &str, body: &Vec<char>) -> Result<String, reqwest::Error>
{
    let client = reqwest::blocking::Client::builder().build()?;
    let payload: String = body.iter().collect();
    let reply = client
        .post(url)
        .header(reqwest::header::CONTENT_TYPE, content_type)
        .body(payload)
        .send()?;
    reply.text()
}

} // verus!
