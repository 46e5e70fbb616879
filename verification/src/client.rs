//! The client of the calendar's API: which requests the website sends for
//! each operation, and how it reads the answer to a login.
use vstd::prelude::*;
use vstd::string::*;
use crate::decimal::{i32_decimal, int_decimal};
use crate::model::{DtWrapper, SessionUpdate};
use crate::user::UserWithPlaintextPassword;

verus! {

/// The HTTP method of a request.
#[derive(Debug, Clone, Copy, PartialEq, Eq)]
pub enum Method {
    Get,
    Post,
    Put,
    Delete,
}

/// A request to the API as plain values: its method and URL, the Basic
/// credentials it carries, if any, and whether it is sent as JSON.
#[derive(Debug, Clone, PartialEq)]
pub struct ApiRequest {
    pub method: Method,
    pub url: String,
    pub basic_auth: Option<UserWithPlaintextPassword>,
    pub json: bool,
}

/// Why a call to the API failed.
#[derive(Debug, Clone, PartialEq)]
pub enum Error {
    /// The request could not be sent or its answer could not be read.
    ReqwestError(String),
    /// A JSON body could not be read or written.
    SerdeError(String),
    /// The API refused the credentials.
    AuthError,
}

/// The text shown to the user for an error.
pub open spec fn error_text(e: Error) -> Seq<char> {
    match e {
        Error::ReqwestError(_) => "You need to authenticate with Basic auth to access this resource."@,
        Error::SerdeError(_) => "Serde json error"@,
        Error::AuthError => "Failed to authenticate"@,
    }
}

impl Error {
    /// The text shown to the user for this error.
    pub fn message(&self) -> (r: String)
        ensures
            r@ == error_text(*self),
    {
        match self {
            Error::ReqwestError(_) => "You need to authenticate with Basic auth to access this resource.".to_owned(),
            Error::SerdeError(_) => "Serde json error".to_owned(),
            Error::AuthError => "Failed to authenticate".to_owned(),
        }
    }
}

/// The body of a session edit as the API takes it: the session's id, its
/// name, and its time given twice, as `time` and as `date`.
#[derive(Debug, Clone, PartialEq)]
pub struct ApiSessionUpdate {
    pub id: i32,
    pub name: String,
    pub time: DtWrapper,
    pub date: DtWrapper,
}

impl ApiSessionUpdate {
    /// The API body of the edit `session_update` of the session `id`.
    pub fn from(id: i32, session_update: SessionUpdate) -> (r: ApiSessionUpdate)
        ensures
            r.id == id,
            r.name@ == session_update.name@,
            r.time == session_update.time,
            r.date == session_update.time,
    {
        ApiSessionUpdate {
            id,
            name: session_update.name,
            time: session_update.time,
            date: session_update.time,
        }
    }
}

/// The URL of the list of events.
pub open spec fn events_url(api: Seq<char>) -> Seq<char> {
    api + "/events"@
}

/// The URL of one event.
pub open spec fn event_url(api: Seq<char>, event_id: i32) -> Seq<char> {
    api + "/events/"@ + int_decimal(event_id as int)
}

/// The URL of the sessions of one event.
pub open spec fn event_sessions_url(api: Seq<char>, event_id: i32) -> Seq<char> {
    event_url(api, event_id) + "/sessions"@
}

/// The URL of one session of one event.
pub open spec fn session_url(api: Seq<char>, event_id: i32, session_id: i32) -> Seq<char> {
    event_sessions_url(api, event_id) + "/"@ + int_decimal(session_id as int)
}

/// The URL at which credentials are checked.
pub open spec fn authenticate_url(api: Seq<char>) -> Seq<char> {
    api + "/authenticate"@
}

/// A client of the API at `api_url`, acting for `user`.
pub struct Client {
    api_url: String,
    user: UserWithPlaintextPassword,
}

impl Client {
    /// The base URL of the API.
    pub closed spec fn api(&self) -> Seq<char> {
        self.api_url@
    }

    /// The user the client acts for.
    pub closed spec fn acting_user(&self) -> UserWithPlaintextPassword {
        self.user
    }

    /// A client of the API at `api_url`, acting for `user`.
    pub fn new(api_url: String, user: UserWithPlaintextPassword) -> (r: Client)
        ensures
            r.api() == api_url@,
            r.acting_user() == user,
    {
        Client { api_url, user }
    }

    /// The base URL of the API.
    pub fn api_url(&self) -> (r: &str)
        ensures
            r@ == self.api(),
    {
        self.api_url.as_str()
    }

    /// A JSON request without credentials.
    fn plain_json(&self, method: Method, url: String) -> (r: ApiRequest)
        ensures
            r.method == method,
            r.url@ == url@,
            r.basic_auth is None,
            r.json,
    {
        ApiRequest { method, url, basic_auth: None, json: true }
    }

    /// A request with the user's Basic credentials, sent as JSON or not.
    fn with_auth(&self, method: Method, url: String, json: bool) -> (r: ApiRequest)
        ensures
            r.method == method,
            r.url@ == url@,
            r.basic_auth == Some(self.acting_user()),
            r.json == json,
    {
        ApiRequest { method, url, basic_auth: Some(self.user.duplicate()), json }
    }

    fn url_of_events(&self) -> (r: String)
        ensures
            r@ == events_url(self.api()),
    {
        let mut url = self.api_url.clone();
        url.append("/events");
        url
    }

    fn url_of_event(&self, event_id: i32) -> (r: String)
        ensures
            r@ == event_url(self.api(), event_id),
    {
        let mut url = self.api_url.clone();
        url.append("/events/");
        let id = i32_decimal(event_id);
        url.append(id.as_str());
        url
    }

    fn url_of_event_sessions(&self, event_id: i32) -> (r: String)
        ensures
            r@ == event_sessions_url(self.api(), event_id),
    {
        let mut url = self.url_of_event(event_id);
        url.append("/sessions");
        url
    }

    fn url_of_session(&self, event_id: i32, session_id: i32) -> (r: String)
        ensures
            r@ == session_url(self.api(), event_id, session_id),
    {
        let mut url = self.url_of_event_sessions(event_id);
        url.append("/");
        let id = i32_decimal(session_id);
        url.append(id.as_str());
        url
    }

    /// The request for the list of events.
    pub fn get_events_request(&self) -> (r: ApiRequest)
        ensures
            r.method == Method::Get,
            r.url@ == events_url(self.api()),
            r.basic_auth is None,
            r.json,
    {
        self.plain_json(Method::Get, self.url_of_events())
    }

    /// The request for one event.
    pub fn get_event_request(&self, id: i32) -> (r: ApiRequest)
        ensures
            r.method == Method::Get,
            r.url@ == event_url(self.api(), id),
            r.basic_auth is None,
            r.json,
    {
        self.plain_json(Method::Get, self.url_of_event(id))
    }

    /// The request for one session of one event.
    pub fn get_session_request(&self, event_id: i32, session_id: i32) -> (r: ApiRequest)
        ensures
            r.method == Method::Get,
            r.url@ == session_url(self.api(), event_id, session_id),
            r.basic_auth is None,
            r.json,
    {
        self.plain_json(Method::Get, self.url_of_session(event_id, session_id))
    }

    /// The request that checks the user's credentials.
    pub fn authenticate_request(&self) -> (r: ApiRequest)
        ensures
            r.method == Method::Post,
            r.url@ == authenticate_url(self.api()),
            r.basic_auth == Some(self.acting_user()),
            !r.json,
    {
        let mut url = self.api_url.clone();
        url.append("/authenticate");
        self.with_auth(Method::Post, url, false)
    }

    /// What the answer to the credential check means: accepted on status 200
    /// (OK), refused on any other.
    pub fn authentication_result(status: u16) -> (r: Result<(), Error>)
        ensures
            status == 200 ==> r == Ok::<(), Error>(()),
            status != 200 ==> r == Err::<(), Error>(Error::AuthError),
    {
        if status == 200 {
            Ok(())
        } else {
            Err(Error::AuthError)
        }
    }

    /// The request that stores an edit of an event (its JSON body goes with it).
    pub fn update_event_request(&self, event_id: i32) -> (r: ApiRequest)
        ensures
            r.method == Method::Put,
            r.url@ == event_url(self.api(), event_id),
            r.basic_auth == Some(self.acting_user()),
            r.json,
    {
        self.with_auth(Method::Put, self.url_of_event(event_id), true)
    }

    /// The request that stores an edit of a session, and its body.
    pub fn update_session_request(&self, session_id: i32, updated_session: SessionUpdate, event_id: i32)
        -> (r: (ApiRequest, ApiSessionUpdate))
        ensures
            r.0.method == Method::Put,
            r.0.url@ == session_url(self.api(), event_id, session_id),
            r.0.basic_auth == Some(self.acting_user()),
            r.0.json,
            r.1.id == session_id,
            r.1.name@ == updated_session.name@,
            r.1.time == updated_session.time,
            r.1.date == updated_session.time,
    {
        let request = self.with_auth(Method::Put, self.url_of_session(event_id, session_id), true);
        (request, ApiSessionUpdate::from(session_id, updated_session))
    }

    /// The requests that store each of a list of session edits, in order.
    pub fn update_sessions_requests(&self, updates: &Vec<(i32, SessionUpdate)>, event_id: i32) -> (r: Vec<
        (ApiRequest, ApiSessionUpdate),
    >)
        ensures
            r.len() == updates.len(),
            forall|i: int|
                0 <= i < r.len() ==> {
                    &&& (#[trigger] r[i]).0.method == Method::Put
                    &&& r[i].0.url@ == session_url(self.api(), event_id, updates[i].0)
                    &&& r[i].0.basic_auth == Some(self.acting_user())
                    &&& r[i].0.json
                    &&& r[i].1.id == updates[i].0
                    &&& r[i].1.name@ == updates[i].1.name@
                    &&& r[i].1.time == updates[i].1.time
                    &&& r[i].1.date == updates[i].1.time
                },
    {
        let mut r: Vec<(ApiRequest, ApiSessionUpdate)> = Vec::new();
        let n = updates.len();
        let mut i: usize = 0;
        while i < n
            invariant
                i <= n,
                n == updates.len(),
                r.len() == i,
                forall|k: int|
                    0 <= k < i ==> {
                        &&& (#[trigger] r@[k]).0.method == Method::Put
                        &&& r@[k].0.url@ == session_url(self.api(), event_id, updates[k].0)
                        &&& r@[k].0.basic_auth == Some(self.acting_user())
                        &&& r@[k].0.json
                        &&& r@[k].1.id == updates[k].0
                        &&& r@[k].1.name@ == updates[k].1.name@
                        &&& r@[k].1.time == updates[k].1.time
                        &&& r@[k].1.date == updates[k].1.time
                    },
            decreases n - i,
        {
            let id = updates[i].0;
            let update = SessionUpdate { name: updates[i].1.name.clone(), time: updates[i].1.time };
            r.push(self.update_session_request(id, update, event_id));
            i = i + 1;
        }
        r
    }

    /// The request that adds a session to an event (its JSON body goes with it).
    pub fn create_session_request(&self, event_id: i32) -> (r: ApiRequest)
        ensures
            r.method == Method::Post,
            r.url@ == event_sessions_url(self.api(), event_id),
            r.basic_auth == Some(self.acting_user()),
            r.json,
    {
        self.with_auth(Method::Post, self.url_of_event_sessions(event_id), true)
    }

    /// The request that adds an event (its JSON body goes with it).
    pub fn create_event_request(&self) -> (r: ApiRequest)
        ensures
            r.method == Method::Post,
            r.url@ == events_url(self.api()),
            r.basic_auth == Some(self.acting_user()),
            r.json,
    {
        self.with_auth(Method::Post, self.url_of_events(), true)
    }

    /// The request that deletes an event.
    pub fn delete_event_request(&self, event_id: i32) -> (r: ApiRequest)
        ensures
            r.method == Method::Delete,
            r.url@ == event_url(self.api(), event_id),
            r.basic_auth == Some(self.acting_user()),
            !r.json,
    {
        self.with_auth(Method::Delete, self.url_of_event(event_id), false)
    }

    /// The request that deletes one session of an event.
    pub fn delete_session_request(&self, session_id: i32, event_id: i32) -> (r: ApiRequest)
        ensures
            r.method == Method::Delete,
            r.url@ == session_url(self.api(), event_id, session_id),
            r.basic_auth == Some(self.acting_user()),
            !r.json,
    {
        self.with_auth(Method::Delete, self.url_of_session(event_id, session_id), false)
    }
}

} // verus!
