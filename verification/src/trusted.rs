//! Everything the library takes on trust: calls into other crates and into
//! the parts of std that vstd does not specify. Nothing outside this file is
//! believed without proof.

use crate::encoding::{bytes_as_text, hex_lower, percent_decoded, percent_encoded};
use vstd::prelude::*;

verus! {

/// `String::push`: appends the given character to the end of the string.
pub assume_specification[ String::push ](s: &mut String, c: char)
    ensures
        final(s)@ == old(s)@.push(c),
;

/// The HMAC-SHA256 of a message under a key, as the `hmac` and `sha2` crates
/// compute it.
pub uninterp spec fn hmac_sha256_of(key: Seq<u8>, message: Seq<u8>) -> Seq<u8>;

/// `hmac::Hmac<sha2::Sha256>`: keyed with `key` (a key of any length is
/// taken), fed `message` and finalised. The code is a function of the two, and
/// as long as a SHA-256 digest: 32 bytes.
#[verifier::external_body]
pub(crate) fn hmac_sha256(key: &[u8], message: &[u8]) -> (res: Vec<u8>)
    ensures
        res@ == hmac_sha256_of(key@, message@),
        res@.len() == 32,
{
    let mut mac = <hmac::Hmac<sha2::Sha256> as hmac::Mac>::new_from_slice(key).expect(
        "HMAC can take key of any size",
    );
    hmac::Mac::update(&mut mac, message);
    hmac::Mac::finalize(mac).into_bytes().to_vec()
}

/// `hex::encode`: two lower-case hexadecimal digits for each byte.
#[verifier::external_body]
pub(crate) fn hex_encode(bytes: &[u8]) -> (res: String)
    ensures
        res@ == hex_lower(bytes@),
{
    hex::encode(bytes)
}

/// `urlencoding::encode`: percent-encodes every byte of the UTF-8 text but
/// ASCII letters and digits, `-`, `_`, `.` and `~`.
#[verifier::external_body]
pub(crate) fn url_encode(s: &str) -> (res: String)
    ensures
        res@ == percent_encoded(s@),
{
    urlencoding::encode(s).into_owned()
}

/// `urlencoding::decode`: replaces each `%` that two hexadecimal digits
/// follow by the byte they stand for, keeps all else, and fails (here:
/// `None`) where the bytes that come out are not UTF-8.
#[verifier::external_body]
pub(crate) fn url_decode(s: &str) -> (res: Option<String>)
    ensures
        match percent_decoded(s@) {
            Some(t) => res is Some && res->0@ == t,
            None => res is None,
        },
{
    match urlencoding::decode(s) {
        Ok(text) => Some(text.into_owned()),
        Err(_) => None,
    }
}

/// The readings `chrono` can give of the clock, in whole seconds since 1970:
/// from the epoch to the last second of its calendar.
pub open spec fn clock_reading(now: i64) -> bool {
    0 <= now <= 8_210_266_876_799
}

/// `chrono::Utc::now` and `DateTime::timestamp`: the current time in whole
/// seconds since 1970. Which reading it is, the machine decides. `now`
/// itself panics where the machine's clock stands before 1970 or past the end
/// of chrono's calendar.
#[verifier::external_body]
pub(crate) fn unix_time() -> (res: i64)
    ensures
        clock_reading(res),
{
    chrono::Utc::now().timestamp()
}

/// The same range in whole microseconds.
pub open spec fn clock_reading_micros(now: i64) -> bool {
    0 <= now <= 8_210_266_876_799_999_999
}

/// `chrono::Utc::now` and `DateTime::timestamp_micros`: the current time in
/// whole microseconds since 1970, of which the same is to be said as of
/// [`unix_time`].
#[verifier::external_body]
pub(crate) fn unix_time_micros() -> (res: i64)
    ensures
        clock_reading_micros(res),
{
    chrono::Utc::now().timestamp_micros()
}

/// An ASCII letter or digit.
pub open spec fn ascii_alphanumeric(c: char) -> bool {
    'a' <= c <= 'z' || 'A' <= c <= 'Z' || '0' <= c <= '9'
}

/// `rand::Rng::sample_iter` over `rand::distributions::Alphanumeric`, from
/// the thread's generator: `len` ASCII letters and digits. Which ones, chance
/// decides.
#[verifier::external_body]
pub(crate) fn random_alphanumeric(len: u8) -> (res: String)
    ensures
        res@.len() == len,
        forall|i: int| 0 <= i < res@.len() ==> ascii_alphanumeric(#[trigger] res@[i]),
{
    rand::Rng::sample_iter(rand::thread_rng(), &rand::distributions::Alphanumeric)
        .take(len as usize)
        .map(char::from)
        .collect()
}

/// The bytes `HeaderValue::to_str` takes for text: visible ASCII, the space
/// and the tab.
pub open spec fn header_text_byte(b: u8) -> bool {
    32 <= b < 127 || b == 9
}

/// `axum::http::HeaderValue::from_bytes` and `HeaderValue::to_str`: the text
/// of a header value that holds visible ASCII (with space and tab) alone;
/// none where another byte stands in it.
#[verifier::external_body]
pub(crate) fn header_text(bytes: &[u8]) -> (res: Option<String>)
    ensures
        res is Some <==> (forall|i: int|
            0 <= i < bytes@.len() ==> header_text_byte(#[trigger] bytes@[i])),
        res is Some ==> res->0@ == bytes_as_text(bytes@),
{
    match axum::http::HeaderValue::from_bytes(bytes) {
        Ok(value) => match value.to_str() {
            Ok(text) => Some(text.to_string()),
            Err(_) => None,
        },
        Err(_) => None,
    }
}

} // verus!
