use motorsport_calendar_website::session::SessionStore;
use motorsport_calendar_website::user::UserWithPlaintextPassword;
use motorsport_calendar_website::web::{logout_user, start_session, start_session_at};
use motorsport_calendar_website::web::{update_sessions_step, UpdateStep};
use motorsport_calendar_website::client::Error;
use motorsport_calendar_website::config::Config;
use motorsport_calendar_website::web::{
    create_event, create_session, delete_event, delete_session, get_events_query, get_sport_info,
    login_user, login_user_at, update_event, update_sessions, Event, FlashKind, WebConfig,
};

fn event(sport: &str, sessions: usize) -> Event {
    Event { sport: sport.to_string(), session_count: sessions }
}

#[test]
fn web_config_from_config() {
    let c = Config {
        api_server_host: "http://localhost".to_string(),
        api_server_port: 8000,
        content_root: "content".to_string(),
        css_root: "css".to_string(),
        js_root: "js".to_string(),
        cookie_cleaner_interval_seconds: 60,
    };
    let w = WebConfig::from(&c);
    assert_eq!(w.api_url(), "http://localhost:8000");
    assert_eq!(w.content_root(), "content");
    assert_eq!(w.css_root(), "css");
    assert_eq!(w.js_root(), "js");
    assert_eq!(w.cookie_cleaner_interval_seconds(), 60);
}

#[test]
fn sport_summary() {
    let events = vec![event("F1", 5), event("MotoGP", 4), event("F1", 3), event("WEC", 0)];
    let mut info = get_sport_info(&events);
    info.sort_by(|a, b| a.name.cmp(&b.name));
    assert_eq!(info.len(), 3);
    assert_eq!((info[0].name.as_str(), info[0].event_count, info[0].session_count), ("F1", 2, 8));
    assert_eq!((info[1].name.as_str(), info[1].event_count, info[1].session_count), ("MotoGP", 1, 4));
    assert_eq!((info[2].name.as_str(), info[2].event_count, info[2].session_count), ("WEC", 1, 0));
    assert!(get_sport_info(&Vec::new()).is_empty());
    let events_total: i32 = info.iter().map(|i| i.event_count).sum();
    let sessions_total: i32 = info.iter().map(|i| i.session_count).sum();
    assert_eq!((events_total, sessions_total), (4, 12));
}

#[test]
fn events_query() {
    let events = vec![event("F1", 5), event("MotoGP", 4), event("F1", 3)];
    assert_eq!(get_events_query(&events, Some("F1")), vec![0, 2]);
    assert_eq!(get_events_query(&events, Some("WEC")), Vec::<usize>::new());
    assert_eq!(get_events_query(&events, None), vec![0, 1, 2]);
}

#[test]
fn form_outcomes() {
    let ok: Result<(), Error> = Ok(());
    let err: Result<(), Error> = Err(Error::AuthError);
    let r = create_event(&ok);
    assert_eq!((r.kind, r.target.as_str(), r.message.as_str()), (FlashKind::Success, "/events", "Event successfully created!"));
    let r = create_event(&err);
    assert_eq!((r.kind, r.target.as_str(), r.message.as_str()), (FlashKind::Error, "/500_error.html", "Error updating event!\nFailed to authenticate"));
    let r = create_session(7, &ok);
    assert_eq!((r.target.as_str(), r.message.as_str()), ("/events/7", "Session successfully created!"));
    let r = update_event(7, &ok);
    assert_eq!((r.target.as_str(), r.message.as_str()), ("/events/7", "Event successfully updated!"));
    let r = update_sessions(7, &ok);
    assert_eq!((r.target.as_str(), r.message.as_str()), ("/events/7", "Sessions successfully updated!"));
    let r = delete_event(&err);
    assert_eq!((r.kind, r.message.as_str()), (FlashKind::Error, "Error deleting event!\nFailed to authenticate"));
    let r = delete_session(7, &ok);
    assert_eq!((r.target.as_str(), r.message.as_str()), ("/events/7", "Event successfully deleted!"));
}

fn login_user_data() -> UserWithPlaintextPassword {
    UserWithPlaintextPassword { username: "user".to_string(), password: "pass".to_string() }
}

#[test]
fn login_outcome() {
    let mut store = SessionStore::new();
    let (session, target) = login_user(&mut store, login_user_data(), &Ok(())).unwrap();
    assert_eq!(target, "/dashboard");
    assert_eq!(session.get_user(), &login_user_data());
    assert_eq!(session.get_id().len(), 64);
    assert_eq!(store.get(session.get_id()), Some(&session));
    let mut store = SessionStore::new();
    let f = login_user(&mut store, login_user_data(), &Err(Error::AuthError)).unwrap_err();
    assert_eq!((f.kind, f.target.as_str(), f.message.as_str()), (FlashKind::Error, "/", "Invalid username or password"));
    assert_eq!(store.get("abc"), None);
}

#[test]
fn login_at_given_time_stores_the_session() {
    let mut store = SessionStore::new();
    let (session, target) =
        login_user_at(&mut store, login_user_data(), &Ok(()), "abc".to_string(), 5000).unwrap();
    assert_eq!(target, "/dashboard");
    assert_eq!(session.get_id(), "abc");
    assert_eq!(*session.get_expires(), 5000 + 3_600_000_000_000);
    assert_eq!(store.get("abc"), Some(&session));
    let mut store = SessionStore::new();
    assert!(login_user_at(&mut store, login_user_data(), &Err(Error::AuthError), "abc".to_string(), 5000).is_err());
    assert_eq!(store.get("abc"), None);
}

#[test]
fn login_and_logout_sessions() {
    let user = UserWithPlaintextPassword { username: "user".to_string(), password: "pass".to_string() };
    let mut store = SessionStore::new();
    let s = start_session_at(&mut store, user.clone(), "abc".to_string(), 5000);
    assert_eq!(*s.get_expires(), 5000 + 3_600_000_000_000);
    assert_eq!(store.get("abc"), Some(&s));
    let t = start_session(&mut store, user.clone());
    assert_eq!(t.get_id().len(), 64);
    assert_eq!(store.get(t.get_id()), Some(&t));
    let (removed, flash) = logout_user(&mut store, Some("abc"));
    assert!(removed);
    assert_eq!((flash.kind, flash.target.as_str(), flash.message.as_str()), (FlashKind::Success, "/", "Successfully logged out."));
    assert_eq!(store.get("abc"), None);
    assert_eq!(store.get(t.get_id()), Some(&t));
    let (removed, _) = logout_user(&mut store, Some("abc"));
    assert!(!removed);
    let (removed, _) = logout_user(&mut store, None);
    assert!(!removed);
}

#[test]
fn session_update_steps() {
    assert_eq!(update_sessions_step(0, 0, Ok(())), UpdateStep::Finished(Ok(())));
    assert_eq!(update_sessions_step(2, 0, Ok(())), UpdateStep::Send(0));
    assert_eq!(update_sessions_step(2, 1, Ok(())), UpdateStep::Send(1));
    assert_eq!(update_sessions_step(2, 2, Ok(())), UpdateStep::Finished(Ok(())));
    assert_eq!(update_sessions_step(2, 1, Err(Error::AuthError)), UpdateStep::Finished(Err(Error::AuthError)));
}

#[test]
fn sport_summary_ignores_order() {
    let events = vec![event("F1", 5), event("MotoGP", 4), event("F1", 3)];
    let reordered = vec![event("F1", 3), event("F1", 5), event("MotoGP", 4)];
    let mut a = get_sport_info(&events);
    let mut b = get_sport_info(&reordered);
    a.sort_by(|x, y| x.name.cmp(&y.name));
    b.sort_by(|x, y| x.name.cmp(&y.name));
    assert_eq!(a, b);
}

#[test]
fn sport_summary_event_count_is_exact_with_many_empty_events() {
    let events: Vec<Event> = (0..1000).map(|k| event(if k % 2 == 0 { "F1" } else { "WEC" }, k % 3)).collect();
    let mut info = get_sport_info(&events);
    info.sort_by(|a, b| a.name.cmp(&b.name));
    assert_eq!((info[0].event_count, info[1].event_count), (500, 500));
    let f1: i32 = (0..1000).filter(|k| k % 2 == 0).map(|k| (k % 3) as i32).sum();
    assert_eq!(info[0].session_count, f1);
}
