//! The shared session cookie: `discord_id:encoded_name:expiry:signature`.
//!
//! Cookies are self-contained: the signature is an HMAC of the first three
//! fields under the session secret, so a cookie is checked without a lookup.

use crate::encoding::{hex_lower, percent_decoded, percent_encoded, percent_encoding_reads_back};
use crate::text::{
    decimal, decimal_reads_back, decimal_text, parse_i64, parsed_i64, same_text, sub_text, to_chars,
};
use crate::trusted::{
    clock_reading, hex_encode, hmac_sha256, hmac_sha256_of, unix_time, url_decode, url_encode,
};
use vstd::prelude::*;
use vstd::string::*;
use vstd::utf8::*;

verus! {

/// Session lifetime, 30 days: the only ways to end a session earlier are to
/// rotate the secret or to wait for the expiry.
pub const SESSION_TTL_SECS: i64 = 30 * 24 * 3600;

/// Refresh threshold for sliding sessions, half of the lifetime: a verified
/// cookie with less than this much life left is due for a new one.
pub const SESSION_REFRESH_THRESHOLD_SECS: i64 = 15 * 24 * 3600;

/// The length of a signature: two digits for each byte of the code.
pub const SIGNATURE_LEN: usize = 64;

// ---------------------------------------------------------------------
// The cookie's grammar
// ---------------------------------------------------------------------

/// The four fields of a cookie value.
pub struct CookieFields {
    pub discord_id: Seq<char>,
    pub encoded_name: Seq<char>,
    pub expires: Seq<char>,
    pub signature: Seq<char>,
}

/// What stands before the first colon, and what stands after it.
pub open spec fn cut(s: Seq<char>) -> Option<(Seq<char>, Seq<char>)> {
    match s.index_of_first(':') {
        Some(i) => Some((s.take(i), s.skip(i + 1))),
        None => None,
    }
}

/// The fields of a cookie value; none where it holds fewer than three
/// colons. The last field takes all that follows the third colon.
pub open spec fn cookie_fields(value: Seq<char>) -> Option<CookieFields> {
    match cut(value) {
        None => None,
        Some((discord_id, rest)) => match cut(rest) {
            None => None,
            Some((encoded_name, rest)) => match cut(rest) {
                None => None,
                Some((expires, signature)) => Some(
                    CookieFields { discord_id, encoded_name, expires, signature },
                ),
            },
        },
    }
}

/// The signed part of a cookie value.
pub open spec fn payload(
    discord_id: Seq<char>,
    encoded_name: Seq<char>,
    expires: Seq<char>,
) -> Seq<char> {
    discord_id + seq![':'] + encoded_name + seq![':'] + expires
}

/// The signature of a payload: the hexadecimal HMAC-SHA256 under the secret.
pub open spec fn signature_of(signed: Seq<char>, secret: Seq<char>) -> Seq<char> {
    hex_lower(hmac_sha256_of(encode_utf8(secret), encode_utf8(signed)))
}

/// The cookie value for a user, good until `expires`.
pub open spec fn session_value(
    discord_id: Seq<char>,
    display_name: Seq<char>,
    secret: Seq<char>,
    expires: int,
) -> Seq<char> {
    let signed = payload(discord_id, percent_encoded(display_name), decimal(expires));
    signed + seq![':'] + signature_of(signed, secret)
}

/// Whom a cookie value stands for at the time `now`: the Discord ID and the
/// display name, if the cookie is well formed, not expired and signed under
/// the secret.
pub open spec fn session_user(
    value: Seq<char>,
    secret: Seq<char>,
    now: int,
) -> Option<(Seq<char>, Seq<char>)> {
    match cookie_fields(value) {
        None => None,
        Some(f) => match parsed_i64(f.expires) {
            None => None,
            Some(expires) => if now > expires || f.signature != signature_of(
                payload(f.discord_id, f.encoded_name, f.expires),
                secret,
            ) {
                None
            } else {
                match percent_decoded(f.encoded_name) {
                    None => None,
                    Some(name) => Some((f.discord_id, name)),
                }
            },
        },
    }
}

/// When a well-formed cookie value expires.
pub open spec fn session_expiry(value: Seq<char>) -> Option<i64> {
    match cookie_fields(value) {
        None => None,
        Some(f) => parsed_i64(f.expires),
    }
}

/// The cookie value to issue anew at the time `now`, if one is due: the
/// cookie stands for a user, has life left, and less than the threshold.
pub open spec fn refreshed_value(
    value: Seq<char>,
    secret: Seq<char>,
    now: int,
) -> Option<Seq<char>> {
    match (session_user(value, secret, now), session_expiry(value)) {
        (Some((id, name)), Some(expires)) => if now < expires < now
            + SESSION_REFRESH_THRESHOLD_SECS {
            Some(session_value(id, name, secret, now + SESSION_TTL_SECS))
        } else {
            None
        },
        _ => None,
    }
}

// ---------------------------------------------------------------------
// Reading and writing cookies
// ---------------------------------------------------------------------

/// The fields of a cookie value, as text.
struct Fields {
    discord_id: String,
    encoded_name: String,
    expires: String,
    signature: String,
}

impl Fields {
    spec fn model(self) -> CookieFields {
        CookieFields {
            discord_id: self.discord_id@,
            encoded_name: self.encoded_name@,
            expires: self.expires@,
            signature: self.signature@,
        }
    }
}

/// The place of the first colon at or after `from`.
fn find_colon(chars: &Vec<char>, from: usize) -> (res: Option<usize>)
    requires
        from <= chars@.len(),
    ensures
        match chars@.skip(from as int).index_of_first(':') {
            Some(i) => res is Some && res->0 == from + i && from <= res->0 < chars@.len(),
            None => res is None,
        },
{
    let ghost s = chars@.skip(from as int);
    proof {
        s.index_of_first_ensures(':');
    }
    let mut i: usize = from;
    while i < chars.len()
        invariant
            from <= i <= chars@.len(),
            s == chars@.skip(from as int),
            forall|j: int| 0 <= j < i - from ==> s[j] != ':',
        decreases chars@.len() - i,
    {
        assert(chars@[i as int] == s[i - from]);
        if chars[i] == ':' {
            proof {
                s.index_of_first_ensures(':');
            }
            return Some(i);
        }
        i = i + 1;
    }
    None
}

fn split_fields(value: &str) -> (res: Option<Fields>)
    ensures
        match cookie_fields(value@) {
            Some(f) => res is Some && res->0.model() == f,
            None => res is None,
        },
{
    let chars: Vec<char> = to_chars(value);
    let n: usize = chars.len();
    assert(chars@.skip(0) == value@);
    let a: usize = match find_colon(&chars, 0) {
        None => {
            return None;
        },
        Some(i) => i,
    };
    let ghost rest = value@.skip(a + 1);
    assert(chars@.skip(a + 1) == rest);
    let b: usize = match find_colon(&chars, a + 1) {
        None => {
            return None;
        },
        Some(i) => i,
    };
    let ghost last = rest.skip(b - a);
    assert(chars@.skip(b + 1) == last);
    let c: usize = match find_colon(&chars, b + 1) {
        None => {
            return None;
        },
        Some(i) => i,
    };
    let fields = Fields {
        discord_id: sub_text(&chars, 0, a),
        encoded_name: sub_text(&chars, a + 1, b),
        expires: sub_text(&chars, b + 1, c),
        signature: sub_text(&chars, c + 1, n),
    };
    proof {
        assert(fields.discord_id@ == value@.take(a as int));
        assert(fields.encoded_name@ == rest.take(b - a - 1));
        assert(fields.expires@ == last.take(c - b - 1));
        assert(fields.signature@ == last.skip(c - b));
    }
    Some(fields)
}

fn make_payload(discord_id: &str, encoded_name: &str, expires: &str) -> (res: String)
    ensures
        res@ == payload(discord_id@, encoded_name@, expires@),
{
    let mut out = discord_id.to_string();
    out.push(':');
    out.append(encoded_name);
    out.push(':');
    out.append(expires);
    assert(out@ == payload(discord_id@, encoded_name@, expires@));
    out
}

fn sign(signed: &str, secret: &str) -> (res: String)
    ensures
        res@ == signature_of(signed@, secret@),
        res@ == hex_lower(hmac_sha256_of(encode_utf8(secret@), encode_utf8(signed@))),
        res@.len() == SIGNATURE_LEN,
        res@.len() == 64,
{
    let code: Vec<u8> = hmac_sha256(secret.as_bytes(), signed.as_bytes());
    hex_encode(code.as_slice())
}

/// The session cookie value for a user who signed in at the time `now`.
pub fn sign_session_at(discord_id: &str, display_name: &str, secret: &str, now: i64) -> (res:
    String)
    requires
        now + SESSION_TTL_SECS <= i64::MAX,
    ensures
        res@ == session_value(discord_id@, display_name@, secret@, now + SESSION_TTL_SECS),
        ({
            let signed = discord_id@ + seq![':'] + percent_encoded(display_name@) + seq![':']
                + decimal(now + 2_592_000);
            res@ == signed + seq![':'] + hex_lower(
                hmac_sha256_of(encode_utf8(secret@), encode_utf8(signed)),
            )
        }),
        res@.len() == payload(
            discord_id@,
            percent_encoded(display_name@),
            decimal(now + SESSION_TTL_SECS),
        ).len() + 1 + SIGNATURE_LEN,
{
    let expires: i64 = now + SESSION_TTL_SECS;
    let encoded_name: String = url_encode(display_name);
    let expires_text: String = decimal_text(expires);
    let mut out: String = make_payload(discord_id, encoded_name.as_str(), expires_text.as_str());
    let signature: String = sign(out.as_str(), secret);
    out.push(':');
    out.append(signature.as_str());
    assert(out@ == session_value(discord_id@, display_name@, secret@, expires as int));
    out
}

/// The session cookie value for a user who signs in now.
pub fn sign_session(discord_id: &str, display_name: &str, secret: &str) -> (res: String)
    ensures
        exists|now: i64| #[trigger]
            clock_reading(now) && ({
                let signed = discord_id@ + seq![':'] + percent_encoded(display_name@) + seq![':']
                    + decimal(now + 2_592_000);
                res@ == signed + seq![':'] + hex_lower(
                    hmac_sha256_of(encode_utf8(secret@), encode_utf8(signed)),
                )
            }) && res@ == session_value(
                discord_id@,
                display_name@,
                secret@,
                now + SESSION_TTL_SECS,
            ) && res@.len() == payload(
                discord_id@,
                percent_encoded(display_name@),
                decimal(now + SESSION_TTL_SECS),
            ).len() + 1 + SIGNATURE_LEN,
{
    let now: i64 = unix_time();
    sign_session_at(discord_id, display_name, secret, now)
}

/// Whom a session cookie stands for at the time `now`.
pub fn verify_session_at(cookie_value: &str, secret: &str, now: i64) -> (res: Option<
    (String, String),
>)
    ensures
        match session_user(cookie_value@, secret@, now as int) {
            Some((id, name)) => res is Some && (res->0).0@ == id && (res->0).1@ == name,
            None => res is None,
        },
        res is Some ==> cookie_fields(cookie_value@)->0.signature.len() == SIGNATURE_LEN,
        res is Some ==> exists|encoded: Seq<char>, expires: Seq<char>|
            #![trigger percent_decoded(encoded), parsed_i64(expires)]
            !(res->0).0@.contains(':') && !encoded.contains(':') && !expires.contains(':')
                && cookie_value@ == (res->0).0@ + seq![':'] + encoded + seq![':'] + expires
                + seq![':'] + hex_lower(
                hmac_sha256_of(
                    encode_utf8(secret@),
                    encode_utf8((res->0).0@ + seq![':'] + encoded + seq![':'] + expires),
                ),
            ) && parsed_i64(expires) is Some && now <= parsed_i64(expires)->0 && percent_decoded(
                encoded,
            ) == Some((res->0).1@),
        forall|id: Seq<char>, encoded: Seq<char>, expires: Seq<char>|
            #![trigger id.contains(':'), percent_decoded(encoded), parsed_i64(expires)]
            !id.contains(':') && !encoded.contains(':') && !expires.contains(':')
                && cookie_value@ == id + seq![':'] + encoded + seq![':'] + expires + seq![':']
                + hex_lower(
                hmac_sha256_of(
                    encode_utf8(secret@),
                    encode_utf8(id + seq![':'] + encoded + seq![':'] + expires),
                ),
            ) && parsed_i64(expires) is Some && now <= parsed_i64(expires)->0 && percent_decoded(
                encoded,
            ) is Some ==> res is Some && (res->0).0@ == id && (res->0).1@ == percent_decoded(
                encoded,
            )->0,
{
    proof {
        if session_user(cookie_value@, secret@, now as int) is Some {
            accepted_session_is_signed(cookie_value@, secret@, now as int);
        }
        assert forall|id: Seq<char>, encoded: Seq<char>, expires: Seq<char>|
            #![trigger id.contains(':'), percent_decoded(encoded), parsed_i64(expires)]
            !id.contains(':') && !encoded.contains(':') && !expires.contains(':')
                && cookie_value@ == id + seq![':'] + encoded + seq![':'] + expires + seq![':']
                + hex_lower(
                hmac_sha256_of(
                    encode_utf8(secret@),
                    encode_utf8(id + seq![':'] + encoded + seq![':'] + expires),
                ),
            ) && parsed_i64(expires) is Some && now <= parsed_i64(expires)->0 && percent_decoded(
                encoded,
            ) is Some implies session_user(cookie_value@, secret@, now as int) == Some(
            (id, percent_decoded(encoded)->0),
        ) by {
            well_signed_session_is_accepted(
                id,
                encoded,
                expires,
                parsed_i64(expires)->0,
                percent_decoded(encoded)->0,
                secret@,
                now as int,
            );
        }
    }
    let fields: Fields = match split_fields(cookie_value) {
        None => {
            return None;
        },
        Some(f) => f,
    };
    let expires: i64 = match parse_i64(fields.expires.as_str()) {
        None => {
            return None;
        },
        Some(e) => e,
    };
    if now > expires {
        return None;
    }
    let signed: String = make_payload(
        fields.discord_id.as_str(),
        fields.encoded_name.as_str(),
        fields.expires.as_str(),
    );
    let expected: String = sign(signed.as_str(), secret);
    if !same_text(fields.signature.as_str(), expected.as_str()) {
        return None;
    }
    match url_decode(fields.encoded_name.as_str()) {
        None => None,
        Some(name) => Some((fields.discord_id, name)),
    }
}

/// Verifies a session cookie now, and extracts the Discord ID and the
/// display name.
pub fn verify_session(cookie_value: &str, secret: &str) -> (res: Option<(String, String)>)
    ensures
        exists|now: i64| #[trigger]
            clock_reading(now) && match session_user(cookie_value@, secret@, now as int) {
                Some((id, name)) => res is Some && (res->0).0@ == id && (res->0).1@ == name,
                None => res is None,
            },
        res is Some ==> cookie_fields(cookie_value@)->0.signature.len() == SIGNATURE_LEN,
{
    let now: i64 = unix_time();
    verify_session_at(cookie_value, secret, now)
}

/// A freshly signed cookie value, if the cookie stands for a user at the
/// time `now` and is past its refresh threshold.
pub fn refresh_if_due_at(cookie_value: &str, secret: &str, now: i64) -> (res: Option<String>)
    requires
        now + SESSION_TTL_SECS <= i64::MAX,
    ensures
        match refreshed_value(cookie_value@, secret@, now as int) {
            Some(value) => res is Some && res->0@ == value,
            None => res is None,
        },
        res is Some ==> cookie_fields(cookie_value@)->0.signature.len() == SIGNATURE_LEN,
        res is Some ==> exists|id: Seq<char>, encoded: Seq<char>, expires: Seq<char>|
            #![trigger id.contains(':'), percent_decoded(encoded), parsed_i64(expires)]
            !id.contains(':') && cookie_value@ == id + seq![':'] + encoded + seq![':'] + expires
                + seq![':'] + hex_lower(
                hmac_sha256_of(
                    encode_utf8(secret@),
                    encode_utf8(id + seq![':'] + encoded + seq![':'] + expires),
                ),
            ) && parsed_i64(expires) is Some && now < parsed_i64(expires)->0 < now + 1_296_000
                && percent_decoded(encoded) is Some && res->0@ == ({
                let signed = id + seq![':'] + percent_encoded(percent_decoded(encoded)->0) + seq![
                    ':',
                ] + decimal(now + 2_592_000);
                signed + seq![':'] + hex_lower(
                    hmac_sha256_of(encode_utf8(secret@), encode_utf8(signed)),
                )
            }),
{
    proof {
        if refreshed_value(cookie_value@, secret@, now as int) is Some {
            accepted_session_is_signed(cookie_value@, secret@, now as int);
            let (id, name) = session_user(cookie_value@, secret@, now as int)->0;
            let (encoded, expires) = choose|encoded: Seq<char>, expires: Seq<char>|
                #![trigger percent_decoded(encoded), parsed_i64(expires)]
                !id.contains(':') && !encoded.contains(':') && !expires.contains(':')
                    && cookie_value@ == id + seq![':'] + encoded + seq![':'] + expires + seq![':']
                    + hex_lower(
                    hmac_sha256_of(
                        encode_utf8(secret@),
                        encode_utf8(id + seq![':'] + encoded + seq![':'] + expires),
                    ),
                ) && parsed_i64(expires) is Some && now <= parsed_i64(expires)->0
                    && percent_decoded(encoded) == Some(name);
            well_signed_session_is_accepted(
                id,
                encoded,
                expires,
                parsed_i64(expires)->0,
                name,
                secret@,
                now as int,
            );
            assert(!id.contains(':'));
        }
    }
    let (discord_id, display_name) = match verify_session_at(cookie_value, secret, now) {
        None => {
            return None;
        },
        Some(user) => user,
    };
    let fields: Fields = match split_fields(cookie_value) {
        None => {
            return None;
        },
        Some(f) => f,
    };
    let expires: i64 = match parse_i64(fields.expires.as_str()) {
        None => {
            return None;
        },
        Some(e) => e,
    };
    if expires <= now || expires >= now + SESSION_REFRESH_THRESHOLD_SECS {
        return None;
    }
    Some(sign_session_at(discord_id.as_str(), display_name.as_str(), secret, now))
}

/// A freshly signed cookie value to issue now, if the cookie is still valid
/// but past its refresh threshold; `None` if it is invalid, expired, or not
/// yet due.
pub fn refresh_if_due(cookie_value: &str, secret: &str) -> (res: Option<String>)
    ensures
        exists|now: i64| #[trigger]
            clock_reading(now) && match refreshed_value(cookie_value@, secret@, now as int) {
                Some(value) => res is Some && res->0@ == value,
                None => res is None,
            },
        res is Some ==> cookie_fields(cookie_value@)->0.signature.len() == SIGNATURE_LEN,
{
    let now: i64 = unix_time();
    refresh_if_due_at(cookie_value, secret, now)
}

// ---------------------------------------------------------------------
// Laws
// ---------------------------------------------------------------------

proof fn lemma_cut_joined(a: Seq<char>, b: Seq<char>)
    requires
        !a.contains(':'),
    ensures
        cut(a + seq![':'] + b) == Some((a, b)),
{
    let s = a + seq![':'] + b;
    assert(s[a.len() as int] == ':');
    s.index_of_first_ensures(':');
    let i = s.index_of_first(':')->0;
    if i < a.len() {
        assert(a[i] == ':');
    }
    assert(i == a.len());
    assert(s.take(i) == a);
    assert(s.skip(i + 1) == b);
}

proof fn lemma_cut_parts(s: Seq<char>)
    requires
        cut(s) is Some,
    ensures
        s == (cut(s)->0).0 + seq![':'] + (cut(s)->0).1,
        !(cut(s)->0).0.contains(':'),
{
    let (a, b) = cut(s)->0;
    s.index_of_first_ensures(':');
    assert(s =~= a + seq![':'] + b);
    assert forall|j: int| 0 <= j < a.len() implies a[j] != ':' by {
        assert(a[j] == s[j]);
    }
}

proof fn lemma_session_value_fields(
    id: Seq<char>,
    name: Seq<char>,
    secret: Seq<char>,
    expires: i64,
)
    requires
        !id.contains(':'),
    ensures
        ({
            let encoded = percent_encoded(name);
            let text = decimal(expires as int);
            cookie_fields(session_value(id, name, secret, expires as int)) == Some(
                CookieFields {
                    discord_id: id,
                    encoded_name: encoded,
                    expires: text,
                    signature: signature_of(payload(id, encoded, text), secret),
                },
            )
        }),
{
    let encoded = percent_encoded(name);
    let text = decimal(expires as int);
    let signed = payload(id, encoded, text);
    let sig = signature_of(signed, secret);
    percent_encoding_reads_back(name);
    decimal_reads_back(expires);
    let r2 = text + seq![':'] + sig;
    let r1 = encoded + seq![':'] + r2;
    assert(session_value(id, name, secret, expires as int) == id + seq![':'] + r1);
    lemma_cut_joined(id, r1);
    lemma_cut_joined(encoded, r2);
    lemma_cut_joined(text, sig);
}

/// A cookie that was signed for a user stands for that user, name and all,
/// until it expires, and for nobody after that. (A Discord ID is a row of
/// digits; one that held a colon could not be told from the next field.)
pub proof fn signed_session_verifies(
    id: Seq<char>,
    name: Seq<char>,
    secret: Seq<char>,
    expires: i64,
    now: int,
)
    requires
        !id.contains(':'),
    ensures
        session_user(session_value(id, name, secret, expires as int), secret, now) == (if now
            <= expires {
            Some((id, name))
        } else {
            None
        }),
        session_expiry(session_value(id, name, secret, expires as int)) == Some(expires),
{
    lemma_session_value_fields(id, name, secret, expires);
    percent_encoding_reads_back(name);
    decimal_reads_back(expires);
}

/// A cookie counts only with the signature that the secret gives its other
/// three fields, and not past its expiry.
pub proof fn accepted_session_is_signed(value: Seq<char>, secret: Seq<char>, now: int)
    requires
        session_user(value, secret, now) is Some,
    ensures
        ({
            let f = cookie_fields(value)->0;
            let signed = payload(f.discord_id, f.encoded_name, f.expires);
            &&& cookie_fields(value) is Some
            &&& value == signed + seq![':'] + signature_of(signed, secret)
            &&& now <= parsed_i64(f.expires)->0
        }),
        ({
            let (id, name) = session_user(value, secret, now)->0;
            exists|encoded: Seq<char>, expires: Seq<char>|
                #![trigger percent_decoded(encoded), parsed_i64(expires)]
                !id.contains(':') && !encoded.contains(':') && !expires.contains(':') && value == id
                    + seq![':'] + encoded + seq![':'] + expires + seq![':'] + hex_lower(
                    hmac_sha256_of(
                        encode_utf8(secret),
                        encode_utf8(id + seq![':'] + encoded + seq![':'] + expires),
                    ),
                ) && parsed_i64(expires) is Some && now <= parsed_i64(expires)->0
                    && percent_decoded(encoded) == Some(name)
        }),
{
    let (id, r1) = cut(value)->0;
    let (encoded, r2) = cut(r1)->0;
    let (expires, sig) = cut(r2)->0;
    lemma_cut_parts(value);
    lemma_cut_parts(r1);
    lemma_cut_parts(r2);
    assert(value =~= payload(id, encoded, expires) + seq![':'] + sig);
    assert(percent_decoded(encoded) is Some && parsed_i64(expires) is Some);
}

/// A cookie value is three fields joined by colons, the Discord ID, the
/// percent-encoded name and the expiry in seconds, and after another colon the
/// HMAC-SHA256 of just these characters under the secret, in hexadecimal: for
/// every secret, so that all who share it agree.
pub proof fn session_value_spelt_out(
    id: Seq<char>,
    name: Seq<char>,
    secret: Seq<char>,
    expires: int,
)
    ensures
        ({
            let signed = id + seq![':'] + percent_encoded(name) + seq![':'] + decimal(expires);
            session_value(id, name, secret, expires) == signed + seq![':'] + hex_lower(
                hmac_sha256_of(encode_utf8(secret), encode_utf8(signed)),
            )
        }),
{
}

/// Whoever knows the secret can sign a cookie: three fields without a colon,
/// of which the last is a number, and the HMAC of the three. Until the expiry
/// it stands for the user in its first field, and is due for a new one once
/// less than fifteen days are left; then for nobody. The new one is good for
/// thirty days more.
pub proof fn well_signed_session_is_accepted(
    id: Seq<char>,
    encoded: Seq<char>,
    expires: Seq<char>,
    at: i64,
    name: Seq<char>,
    secret: Seq<char>,
    now: int,
)
    requires
        !id.contains(':'),
        !encoded.contains(':'),
        !expires.contains(':'),
        parsed_i64(expires) == Some(at),
        percent_decoded(encoded) == Some(name),
    ensures
        ({
            let signed = id + seq![':'] + encoded + seq![':'] + expires;
            let value = signed + seq![':'] + hex_lower(
                hmac_sha256_of(encode_utf8(secret), encode_utf8(signed)),
            );
            &&& session_user(value, secret, now) == (if now <= at {
                Some((id, name))
            } else {
                None
            })
            &&& refreshed_value(value, secret, now) == (if now < at < now + 1_296_000 {
                Some(session_value(id, name, secret, now + 2_592_000))
            } else {
                None
            })
        }),
{
    let signed = id + seq![':'] + encoded + seq![':'] + expires;
    let code = hex_lower(hmac_sha256_of(encode_utf8(secret), encode_utf8(signed)));
    let value = signed + seq![':'] + code;
    let r2 = expires + seq![':'] + code;
    let r1 = encoded + seq![':'] + r2;
    assert(value =~= id + seq![':'] + r1);
    lemma_cut_joined(id, r1);
    lemma_cut_joined(encoded, r2);
    lemma_cut_joined(expires, code);
}

/// A cookie with any other code than that HMAC stands for nobody, at any time,
/// and gets no new one.
pub proof fn wrong_code_is_refused(
    id: Seq<char>,
    encoded: Seq<char>,
    expires: Seq<char>,
    code: Seq<char>,
    secret: Seq<char>,
    now: int,
)
    requires
        !id.contains(':'),
        !encoded.contains(':'),
        !expires.contains(':'),
        code != hex_lower(
            hmac_sha256_of(
                encode_utf8(secret),
                encode_utf8(id + seq![':'] + encoded + seq![':'] + expires),
            ),
        ),
    ensures
        ({
            let value = id + seq![':'] + encoded + seq![':'] + expires + seq![':'] + code;
            session_user(value, secret, now) is None && refreshed_value(value, secret, now) is None
        }),
{
    let value = id + seq![':'] + encoded + seq![':'] + expires + seq![':'] + code;
    let r2 = expires + seq![':'] + code;
    let r1 = encoded + seq![':'] + r2;
    assert(value =~= id + seq![':'] + r1);
    lemma_cut_joined(id, r1);
    lemma_cut_joined(encoded, r2);
    lemma_cut_joined(expires, code);
}

/// Verification is antitone in time: a cookie that counts at one moment
/// counted, for the same user, at every earlier one.
pub proof fn session_lives_until_expiry(
    value: Seq<char>,
    secret: Seq<char>,
    earlier: int,
    later: int,
)
    requires
        earlier <= later,
        session_user(value, secret, later) is Some,
    ensures
        session_user(value, secret, earlier) == session_user(value, secret, later),
{
}

/// Sliding sessions: a new cookie is issued only to someone whose cookie
/// still counts; it stands for the same user, and for a full lifetime from
/// now, which is longer than what the old one had left.
pub proof fn refresh_slides_the_session(value: Seq<char>, secret: Seq<char>, now: i64)
    requires
        now + SESSION_TTL_SECS <= i64::MAX,
        refreshed_value(value, secret, now as int) is Some,
    ensures
        ({
            let fresh = refreshed_value(value, secret, now as int)->0;
            &&& session_user(value, secret, now as int) is Some
            &&& session_user(fresh, secret, now + SESSION_TTL_SECS) == session_user(
                value,
                secret,
                now as int,
            )
            &&& session_expiry(fresh) == Some((now + SESSION_TTL_SECS) as i64)
            &&& session_expiry(value)->0 < now + SESSION_TTL_SECS
        }),
{
    let (id, name) = session_user(value, secret, now as int)->0;
    lemma_cut_parts(value);
    signed_session_verifies(
        id,
        name,
        secret,
        (now + SESSION_TTL_SECS) as i64,
        now + SESSION_TTL_SECS,
    );
}

/// An active user never hits the hard cap: a cookie past the middle of its
/// life, and not yet at its end, is always replaced; one not past the middle
/// never is.
pub proof fn refresh_is_due_in_the_second_half(
    id: Seq<char>,
    name: Seq<char>,
    secret: Seq<char>,
    issued: i64,
    now: int,
)
    requires
        !id.contains(':'),
        issued + SESSION_TTL_SECS <= i64::MAX,
    ensures
        ({
            let value = session_value(id, name, secret, issued + SESSION_TTL_SECS);
            refreshed_value(value, secret, now) is Some <==> issued
                + SESSION_REFRESH_THRESHOLD_SECS < now < issued + SESSION_TTL_SECS
        }),
        ({
            let value = session_value(id, name, secret, issued + 2_592_000);
            refreshed_value(value, secret, now) is Some <==> issued + 1_296_000 < now < issued
                + 2_592_000
        }),
{
    signed_session_verifies(id, name, secret, (issued + SESSION_TTL_SECS) as i64, now);
}

} // verus!
