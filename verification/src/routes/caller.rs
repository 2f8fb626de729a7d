//! Who is calling: the session cookie of a request.

use crate::error::AppError;
use crate::services::session::{cookie_fields, session_user, verify_session_at, SIGNATURE_LEN};
use crate::trusted::{clock_reading, unix_time};
use vstd::prelude::*;

verus! {

/// The name of the session cookie, shared by all plugins on the domain.
pub const SESSION_COOKIE: &'static str = "rl_session";

/// The Discord ID of the caller, from the value of the session cookie, if
/// there is one and it stands for a user at the time `now`.
pub open spec fn caller_at(cookie: Option<&str>, secret: Seq<char>, now: int) -> Option<Seq<char>> {
    match cookie {
        None => None,
        Some(value) => match session_user(value@, secret, now) {
            None => None,
            Some((discord_id, _)) => Some(discord_id),
        },
    }
}

/// Whether `caller` is what the cookie says of the caller at the time `now`.
pub open spec fn identifies(
    cookie: Option<&str>,
    secret: Seq<char>,
    now: int,
    caller: Result<String, AppError>,
) -> bool {
    match caller_at(cookie, secret, now) {
        Some(id) => caller is Ok && caller->Ok_0@ == id,
        None => caller == Err::<String, AppError>(AppError::Unauthorized),
    }
}

/// The Discord ID of the caller at the time `now`.
pub fn caller_discord_id_at(cookie: Option<&str>, secret: &str, now: i64) -> (res: Result<
    String,
    AppError,
>)
    ensures
        identifies(cookie, secret@, now as int, res),
        res is Err ==> res->Err_0 is Unauthorized,
        res is Ok <==> cookie is Some && session_user(cookie->0@, secret@, now as int) is Some,
        res is Ok ==> res->Ok_0@ == (session_user(cookie->0@, secret@, now as int)->0).0,
        res is Ok ==> cookie is Some && cookie_fields(cookie->0@)->0.signature.len()
            == SIGNATURE_LEN,
{
    match cookie {
        None => Err(AppError::Unauthorized),
        Some(value) => match verify_session_at(value, secret, now) {
            None => Err(AppError::Unauthorized),
            Some((discord_id, _)) => Ok(discord_id),
        },
    }
}

/// The Discord ID of the caller.
pub fn caller_discord_id(cookie: Option<&str>, secret: &str) -> (res: Result<String, AppError>)
    ensures
        exists|now: i64| #[trigger]
            clock_reading(now) && identifies(cookie, secret@, now as int, res),
        res is Ok ==> cookie is Some && cookie_fields(cookie->0@)->0.signature.len()
            == SIGNATURE_LEN,
{
    let now: i64 = unix_time();
    caller_discord_id_at(cookie, secret, now)
}

/// The caller is whom the session cookie stands for, and nobody without one;
/// the name in it plays no part.
pub proof fn caller_is_the_cookies_user(value: &str, secret: Seq<char>, now: int)
    ensures
        caller_at(None, secret, now) is None,
        caller_at(Some(value), secret, now) is Some <==> session_user(value@, secret, now) is Some,
        session_user(value@, secret, now) is Some ==> caller_at(Some(value), secret, now) == Some(
            (session_user(value@, secret, now)->0).0,
        ),
{
}

} // verus!
