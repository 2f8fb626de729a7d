//! The session cookie.

use auth_gateway::services::session::{
    refresh_if_due, refresh_if_due_at, sign_session, sign_session_at, verify_session,
    verify_session_at, SESSION_REFRESH_THRESHOLD_SECS, SESSION_TTL_SECS,
};

const ID: &str = "123456789012345678";
const SECRET: &str = "test-secret";
const NOW: i64 = 1_700_000_000;

#[test]
fn cookie_has_four_signed_fields() {
    assert_eq!(
        sign_session_at(ID, "Zoë: x/y~", SECRET, NOW),
        "123456789012345678:Zo%C3%AB%3A%20x%2Fy~:1702592000:\
         f62aacb27868a7ae373bb631dc0033a5175da35ac848ef90ab02cb761eb99c34"
    );
    assert_eq!(
        sign_session_at("42", "", "k", 0),
        "42::2592000:03f8e4f4b290d8187186ab3a1aee7f338a55df75d1e553ce1b93cb9297204af2"
    );
}

#[test]
fn signed_cookie_verifies_until_it_expires() {
    for name in ["Zoë: x/y~", "", "plain", "100% \u{1F600}", "a:b:c"] {
        let value = sign_session_at(ID, name, SECRET, NOW);
        assert_eq!(value.rsplit(':').next().map(|s| s.len()), Some(64));
        let user = Some((ID.to_string(), name.to_string()));
        assert_eq!(verify_session_at(&value, SECRET, NOW), user);
        assert_eq!(verify_session_at(&value, SECRET, NOW - 1_000), user);
        assert_eq!(verify_session_at(&value, SECRET, NOW + SESSION_TTL_SECS), user);
        assert_eq!(verify_session_at(&value, SECRET, NOW + SESSION_TTL_SECS + 1), None);
    }
}

#[test]
fn altered_cookie_is_refused() {
    let value = sign_session_at(ID, "Ann", SECRET, NOW);
    assert_eq!(verify_session_at(&value, "other-secret", NOW), None);
    assert_eq!(verify_session_at(&value.replace("Ann", "Bob"), SECRET, NOW), None);
    assert_eq!(verify_session_at(&value.replace("1702592000", "1802592000"), SECRET, NOW), None);
    assert_eq!(verify_session_at(&value.replacen('1', "2", 1), SECRET, NOW), None);
    assert_eq!(verify_session_at(&value[..value.len() - 1], SECRET, NOW), None);
    assert_eq!(verify_session_at(&value.to_uppercase(), SECRET, NOW), None);
}

#[test]
fn malformed_cookie_is_refused() {
    for value in ["", "a", "a:b", "a:b:c", "a:b:c:d", "1:n:99999999999999999999:x", ":::", "1:n::x"]
    {
        assert_eq!(verify_session_at(value, SECRET, NOW), None);
        assert_eq!(refresh_if_due_at(value, SECRET, NOW), None);
    }
}

#[test]
fn refresh_is_due_in_the_second_half_of_the_lifetime() {
    let value = sign_session_at(ID, "Ann", SECRET, NOW);
    let due = NOW + SESSION_TTL_SECS - SESSION_REFRESH_THRESHOLD_SECS;
    assert_eq!(SESSION_REFRESH_THRESHOLD_SECS * 2, SESSION_TTL_SECS);
    assert_eq!(refresh_if_due_at(&value, SECRET, NOW), None);
    assert_eq!(refresh_if_due_at(&value, SECRET, due - 1), None);
    assert_eq!(refresh_if_due_at(&value, SECRET, due), None);
    assert_eq!(
        refresh_if_due_at(&value, SECRET, due + 1),
        Some(sign_session_at(ID, "Ann", SECRET, due + 1))
    );
    let last = NOW + SESSION_TTL_SECS - 1;
    assert_eq!(
        refresh_if_due_at(&value, SECRET, last),
        Some(sign_session_at(ID, "Ann", SECRET, last))
    );
    assert_eq!(refresh_if_due_at(&value, SECRET, last + 1), None);
    assert_eq!(refresh_if_due_at(&value, SECRET, last + 2), None);
}

#[test]
fn refresh_takes_no_forged_cookie() {
    let value = sign_session_at(ID, "Ann", SECRET, NOW);
    let due = NOW + SESSION_TTL_SECS - 1;
    assert_eq!(refresh_if_due_at(&value, "other-secret", due), None);
    assert_eq!(refresh_if_due_at(&value.replace("Ann", "Bob"), SECRET, due), None);
}

#[test]
fn cookie_signed_now_verifies_now() {
    let value = sign_session("42", "Ann & Bob", SECRET);
    assert_eq!(
        verify_session(&value, SECRET),
        Some(("42".to_string(), "Ann & Bob".to_string()))
    );
    assert_eq!(verify_session(&value, "other-secret"), None);
    assert_eq!(refresh_if_due(&value, SECRET), None);
    let expired = sign_session_at("42", "Ann", SECRET, 0);
    assert_eq!(verify_session(&expired, SECRET), None);
    assert_eq!(refresh_if_due(&expired, SECRET), None);
}

#[test]
fn sessions_slide_with_the_clock() {
    // A cookie signed twenty days ago is due; the new one is good for thirty
    // days from now.
    let signed_now = sign_session("7", "x", SECRET);
    let expires: i64 = signed_now.split(':').nth(2).unwrap().parse().unwrap();
    let now = expires - SESSION_TTL_SECS;
    let old = sign_session_at("7", "x", SECRET, now - 20 * 24 * 3600);
    let renewed = refresh_if_due(&old, SECRET).unwrap();
    let renewed_expires: i64 = renewed.split(':').nth(2).unwrap().parse().unwrap();
    assert!(renewed_expires >= expires && renewed_expires <= expires + 60);
    assert_eq!(verify_session(&renewed, SECRET), Some(("7".to_string(), "x".to_string())));
}

#[test]
fn shortened_signature_is_refused() {
    let value = sign_session(ID, "Ann", SECRET);
    assert!(verify_session(&value, SECRET).is_some());
    let due = sign_session_at(ID, "Ann", SECRET, NOW);
    let late = NOW + SESSION_TTL_SECS - 1;
    assert!(refresh_if_due_at(&due, SECRET, late).is_some());
    for cut in [1, 2, 63, 64] {
        assert_eq!(verify_session(&value[..value.len() - cut], SECRET), None);
        assert_eq!(refresh_if_due(&value[..value.len() - cut], SECRET), None);
        assert_eq!(refresh_if_due_at(&due[..due.len() - cut], SECRET, late), None);
    }
}
