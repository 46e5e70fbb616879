use motorsport_calendar_website::web::resolve_request_session;
use motorsport_calendar_website::session::{Session, SessionStore};
use motorsport_calendar_website::user::UserWithPlaintextPassword;
use motorsport_calendar_website::web::{get_sesssion_from_cookies, resolve_request_session_at, RequestSession};

const NANOS_PER_SEC: i128 = 1_000_000_000;
const HOUR: i128 = 3_600 * NANOS_PER_SEC;

fn now() -> i128 {
    chrono::Utc::now().timestamp_nanos_opt().unwrap() as i128
}

fn user() -> UserWithPlaintextPassword {
    UserWithPlaintextPassword { username: "user".to_string(), password: "pass".to_string() }
}

#[test]
fn session_ids_are_64_alphanumerics() {
    let a = Session::generate_session_id();
    let b = Session::generate_session_id();
    assert_eq!(a.len(), 64);
    assert!(a.chars().all(|c| c.is_ascii_alphanumeric()));
    assert_ne!(a, b);
}

#[test]
fn new_session_lasts_an_hour() {
    let before = now();
    let s = Session::new_with_user(user());
    let after = now();
    assert_eq!(s.get_user(), &user());
    assert_eq!(s.get_id().len(), 64);
    assert!(*s.get_expires() >= before + HOUR);
    assert!(*s.get_expires() <= after + HOUR);
}

#[test]
fn session_renew_keeps_user() {
    let s = Session::new("abc".to_string(), user(), 0);
    let r = s.clone().renew_at("def".to_string(), 100);
    assert_eq!(r.get_id(), "def");
    assert_eq!(*r.get_expires(), HOUR + 100);
    let r2 = s.renew();
    assert_eq!(r2.get_user(), &user());
    assert_ne!(r2.get_id(), "abc");
}

#[test]
fn expires_date_string_and_cookie() {
    // Sun, 15 Jul 2012 00:00:01 GMT
    let s = Session::new("abc".to_string(), user(), 1_342_310_401 * NANOS_PER_SEC);
    assert_eq!(s.get_expires_date_string(), "Sun, 15 Jul 2012 00:00:01 GMT");
    assert_eq!(
        s.generate_cookie_string(),
        "session_id=abc; HttpOnly; Secure; Expires=Sun, 15 Jul 2012 00:00:01 GMT; path=/"
    );
}

#[test]
fn expires_date_string_drops_the_fraction_of_a_second() {
    let s = Session::new("abc".to_string(), user(), 1_342_310_401 * NANOS_PER_SEC + 999_999_999);
    assert_eq!(s.get_expires_date_string(), "Sun, 15 Jul 2012 00:00:01 GMT");
    // an instant before 1970 is formatted from the second it falls in
    let t = Session::new("abc".to_string(), user(), -1);
    assert_eq!(t.get_expires_date_string(), "Wed, 31 Dec 1969 23:59:59 GMT");
}

#[test]
fn session_from_cookie_value() {
    let s = Session::new("abc".to_string(), user(), 10);
    let mut store = SessionStore::new();
    store.add(s.clone());
    assert_eq!(Session::get_sesssion_from_cookies(Some("abc"), &store), Some(s.clone()));
    assert_eq!(Session::get_sesssion_from_cookies(Some("abd"), &store), None);
    assert_eq!(Session::get_sesssion_from_cookies(None, &store), None);
    assert_eq!(get_sesssion_from_cookies(Some("abc"), &store), Some(s));
}

#[test]
fn request_session_resolution() {
    let s = Session::new("abc".to_string(), user(), 10_000 * NANOS_PER_SEC);
    let mut store = SessionStore::new();
    store.add(s.clone());
    // far from expiry: kept as it is
    assert_eq!(resolve_request_session_at(&mut store, Some("abc"), 0, "new".to_string()), RequestSession::Current(s.clone()));
    // unknown cookie or none: forwarded
    assert_eq!(resolve_request_session_at(&mut store, Some("zzz"), 0, "new".to_string()), RequestSession::Forward);
    assert_eq!(resolve_request_session_at(&mut store, None, 0, "new".to_string()), RequestSession::Forward);
    // within the renewal period: renewed, the old id is gone
    match resolve_request_session_at(&mut store, Some("abc"), 9_000 * NANOS_PER_SEC, "new".to_string()) {
        RequestSession::Renewed(r) => {
            assert_eq!(r.get_id(), "new");
            assert_eq!(*r.get_expires(), 9_000 * NANOS_PER_SEC + HOUR);
            assert_eq!(store.get("new"), Some(&r));
            assert_eq!(store.get("abc"), None);
        }
        other => panic!("expected a renewal, got {:?}", other),
    }
}

#[test]
fn new_session_at_given_time() {
    let s = Session::new_with_user_at(user(), "abc".to_string(), 1000);
    assert_eq!(s.get_id(), "abc");
    assert_eq!(s.get_user(), &user());
    assert_eq!(*s.get_expires(), 1000 + HOUR);
}

#[test]
fn request_session_resolution_now() {
    let soon = now() + 60 * NANOS_PER_SEC;
    let later = now() + 3_000 * NANOS_PER_SEC;
    let mut store = SessionStore::new();
    store.add(Session::new("soon".to_string(), user(), soon));
    store.add(Session::new("later".to_string(), user(), later));
    match resolve_request_session(&mut store, Some("soon")) {
        RequestSession::Renewed(r) => {
            assert_eq!(r.get_id().len(), 64);
            assert_eq!(store.get("soon"), None);
            assert_eq!(store.get(r.get_id()), Some(&r));
        }
        other => panic!("expected a renewal, got {:?}", other),
    }
    match resolve_request_session(&mut store, Some("later")) {
        RequestSession::Current(s) => assert_eq!(s.get_id(), "later"),
        other => panic!("expected the current session, got {:?}", other),
    }
    assert_eq!(resolve_request_session(&mut store, Some("gone")), RequestSession::Forward);
}
