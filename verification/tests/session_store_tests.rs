use chrono::Utc;
use motorsport_calendar_website::session::{Session, SessionStore};
use motorsport_calendar_website::user::UserWithPlaintextPassword;

const NANOS_PER_MILLI: i128 = 1_000_000;
const NANOS_PER_SEC: i128 = 1_000_000_000;

fn now() -> i128 {
    Utc::now().timestamp_nanos_opt().unwrap() as i128
}

fn user() -> UserWithPlaintextPassword {
    UserWithPlaintextPassword { username: "user".to_string(), password: "pass".to_string() }
}

#[test]
fn can_add_get_and_remove_session() {
    let u = user();
    let s = Session::new("abc".to_string(), u, now());

    let mut session_store = SessionStore::new();
    session_store.add(s.clone());

    assert_eq!(session_store.get("abc"), Some(&s));
    session_store.remove("abc");
    assert_eq!(session_store.get("abc"), None);
}

#[test]
fn can_clean_expired_sessions() {
    let u = user();
    let start = now();
    let s = Session::new("abc".to_string(), u, start + 2 * NANOS_PER_SEC);
    let mut session_store = SessionStore::new();
    session_store.add(s.clone());
    assert_eq!(session_store.get("abc"), Some(&s));
    session_store.clean();
    // Check session hasn't been cleaned yet
    assert_eq!(session_store.get("abc"), Some(&s));

    // 2 seconds later the session has expired
    session_store.clean_at(start + 2 * NANOS_PER_SEC + 1);

    // Should be gone now
    assert_eq!(session_store.get("abc"), None);
}

#[test]
fn renews_when_close_to_expiry() {
    let u = user();
    let start = now();
    // Session renewal period is 30 minutes. Make session that expires in 30:05
    let s = Session::new("abc".to_string(), u, start + (60 * 30 + 5) * NANOS_PER_SEC);
    let mut session_store = SessionStore::new();

    // Shouldn't renew yet
    assert_eq!(session_store.renew_if_close_to_expiry(&s), None);
    // 6 seconds later it should
    assert!(session_store.renew_if_close_to_expiry_at(&s, "def".to_string(), start + 6 * NANOS_PER_SEC).is_some());
}

#[test]
fn doesnt_renew_expired_session() {
    let u = user();
    let start = now();
    let s = Session::new("abc".to_string(), u, start);
    let mut session_store = SessionStore::new();

    // 2 seconds later the session has expired
    assert!(session_store.renew_if_close_to_expiry_at(&s, "def".to_string(), start + 2 * NANOS_PER_SEC).is_none());
}

#[test]
fn clean_keeps_a_session_expiring_exactly_now() {
    let s = Session::new("abc".to_string(), user(), 5000);
    let mut store = SessionStore::new();
    store.add(s.clone());
    store.clean_at(5000);
    assert_eq!(store.get("abc"), Some(&s));
    store.clean_at(5001);
    assert_eq!(store.get("abc"), None);
}

#[test]
fn clean_twice_is_clean_once() {
    let mut store = SessionStore::new();
    store.add(Session::new("a".to_string(), user(), 10));
    store.add(Session::new("b".to_string(), user(), 20));
    store.add(Session::new("c".to_string(), user(), 30));
    store.clean_at(20);
    store.clean_at(20);
    assert!(store.get("a").is_none());
    assert!(store.get("b").is_some());
    assert!(store.get("c").is_some());
}

#[test]
fn add_replaces_session_with_same_id() {
    let mut store = SessionStore::new();
    store.add(Session::new("a".to_string(), user(), 10));
    let newer = Session::new("a".to_string(), user(), 99);
    store.add(newer.clone());
    assert_eq!(store.get("a"), Some(&newer));
    store.remove("a");
    assert_eq!(store.get("a"), None);
}

#[test]
fn add_keeps_other_sessions() {
    let mut store = SessionStore::new();
    let a = Session::new("a".to_string(), user(), 10);
    let b = Session::new("b".to_string(), user(), 20);
    store.add(a.clone());
    store.add(b.clone());
    store.remove("a");
    assert_eq!(store.get("a"), None);
    assert_eq!(store.get("b"), Some(&b));
    store.remove("zzz");
    assert_eq!(store.get("b"), Some(&b));
}

#[test]
fn renew_at_moves_the_user_to_a_new_id() {
    let mut store = SessionStore::new();
    let s = Session::new("old".to_string(), user(), 1000);
    store.add(s.clone());
    let renewed = store.renew_at(s, "new".to_string(), 500);
    assert_eq!(renewed.get_id(), "new");
    assert_eq!(renewed.get_user(), &user());
    assert_eq!(*renewed.get_expires(), 500 + 3_600 * NANOS_PER_SEC);
    assert_eq!(store.get("old"), None);
    assert_eq!(store.get("new"), Some(&renewed));
}

#[test]
fn renewal_window_edges() {
    let s = Session::new("abc".to_string(), user(), 1_800 * NANOS_PER_SEC);
    let mut store = SessionStore::new();
    store.add(s.clone());
    // exactly the renewal period before expiry: renewed
    assert!(store.renew_if_close_to_expiry_at(&s, "x".to_string(), 0).is_some());
    let mut store = SessionStore::new();
    store.add(s.clone());
    // one nanosecond earlier: not renewed, store unchanged
    assert!(store.renew_if_close_to_expiry_at(&s, "x".to_string(), -1).is_none());
    assert_eq!(store.get("abc"), Some(&s));
    // at the very expiry: renewed
    assert!(store.renew_if_close_to_expiry_at(&s, "x".to_string(), 1_800 * NANOS_PER_SEC).is_some());
}

#[test]
fn renew_with_random_id() {
    let mut store = SessionStore::new();
    let s = Session::new("old".to_string(), user(), now() + 60_000 * NANOS_PER_MILLI);
    store.add(s.clone());
    let renewed = store.renew_if_close_to_expiry(&s).expect("due for renewal");
    assert_eq!(renewed.get_id().len(), 64);
    assert!(renewed.get_id().chars().all(|c| c.is_ascii_alphanumeric()));
    assert_eq!(store.get("old"), None);
    assert_eq!(store.get(renewed.get_id()), Some(&renewed));
}
