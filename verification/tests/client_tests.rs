use motorsport_calendar_website::client::{ApiSessionUpdate, Client, Error, Method};
use motorsport_calendar_website::model::{DtWrapper, SessionUpdate};
use motorsport_calendar_website::user::UserWithPlaintextPassword;

fn user() -> UserWithPlaintextPassword {
    UserWithPlaintextPassword { username: "user".to_string(), password: "pass".to_string() }
}

fn client() -> Client {
    Client::new("http://api:8000".to_string(), user())
}

#[test]
fn read_requests_carry_no_credentials() {
    let c = client();
    let r = c.get_events_request();
    assert_eq!(r.method, Method::Get);
    assert_eq!(r.url, "http://api:8000/events");
    assert_eq!(r.basic_auth, None);
    assert!(r.json);
    assert_eq!(c.get_event_request(-3).url, "http://api:8000/events/-3");
    assert_eq!(c.get_session_request(4, 17).url, "http://api:8000/events/4/sessions/17");
}

#[test]
fn authentication() {
    let c = client();
    let r = c.authenticate_request();
    assert_eq!(r.method, Method::Post);
    assert_eq!(r.url, "http://api:8000/authenticate");
    assert_eq!(r.basic_auth, Some(user()));
    assert!(!r.json);
    assert_eq!(Client::authentication_result(200), Ok(()));
    assert_eq!(Client::authentication_result(401), Err(Error::AuthError));
    assert_eq!(Client::authentication_result(500), Err(Error::AuthError));
}

#[test]
fn write_requests_carry_credentials() {
    let c = client();
    let r = c.update_event_request(12);
    assert_eq!((r.method, r.url.as_str(), r.json), (Method::Put, "http://api:8000/events/12", true));
    assert_eq!(r.basic_auth, Some(user()));
    let r = c.create_event_request();
    assert_eq!((r.method, r.url.as_str()), (Method::Post, "http://api:8000/events"));
    let r = c.create_session_request(12);
    assert_eq!((r.method, r.url.as_str()), (Method::Post, "http://api:8000/events/12/sessions"));
    let r = c.delete_event_request(12);
    assert_eq!((r.method, r.url.as_str(), r.json), (Method::Delete, "http://api:8000/events/12", false));
    let r = c.delete_session_request(5, 12);
    assert_eq!((r.method, r.url.as_str()), (Method::Delete, "http://api:8000/events/12/sessions/5"));
}

#[test]
fn session_updates() {
    let c = client();
    let update = SessionUpdate { name: "Race".to_string(), time: DtWrapper(1552799400, 0) };
    let (r, body) = c.update_session_request(5, update.clone(), 12);
    assert_eq!((r.method, r.url.as_str()), (Method::Put, "http://api:8000/events/12/sessions/5"));
    assert_eq!(body, ApiSessionUpdate { id: 5, name: "Race".to_string(), time: DtWrapper(1552799400, 0), date: DtWrapper(1552799400, 0) });
    let all = c.update_sessions_requests(&vec![(5, update.clone()), (6, update)], 12);
    assert_eq!(all.len(), 2);
    assert_eq!(all[1].0.url, "http://api:8000/events/12/sessions/6");
    assert_eq!(all[1].1.id, 6);
}

#[test]
fn error_messages() {
    assert_eq!(Error::AuthError.message(), "Failed to authenticate");
    assert_eq!(Error::SerdeError("x".to_string()).message(), "Serde json error");
    assert_eq!(
        Error::ReqwestError("x".to_string()).message(),
        "You need to authenticate with Basic auth to access this resource."
    );
}
