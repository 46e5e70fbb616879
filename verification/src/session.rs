//! Login sessions of the website and the store that keeps them.
use vstd::prelude::*;
use vstd::string::*;
use crate::random::{is_alphanumeric, random_alphanumeric};
use crate::text::{push_char, same_text};
use crate::time::{
    format_instant, formatted_instant, instant_secs, instant_subsec, now_nanos, representable,
    split_instant, COOKIE_DATE_FORMAT, EARLIEST_NANOS, LATEST_NANOS,
};
use crate::user::UserWithPlaintextPassword;

verus! {

/// The number of characters of a session id.
pub const SESSION_ID_LEN: usize = 64;

/// How long a new or renewed session lasts, in nanoseconds: 60 minutes.
pub const SESSION_DURATION_NANOS: i128 = 3_600_000_000_000;

/// How close to its expiry a session is renewed, in nanoseconds: 30 minutes.
pub const SESSION_RENEW_PERIOD_NANOS: i128 = 1_800_000_000_000;

/// The name of the cookie that carries the session id.
pub const SESSION_COOKIE_NAME: &'static str = "session_id";

/// A session id: `SESSION_ID_LEN` ASCII letters and digits.
pub open spec fn is_session_id(id: Seq<char>) -> bool {
    &&& id.len() == SESSION_ID_LEN
    &&& forall|i: int| 0 <= i < id.len() ==> #[trigger] is_alphanumeric(id[i])
}

/// A session as plain values: its id, its user and the nanosecond at which
/// it expires.
pub struct SessionView {
    pub id: Seq<char>,
    pub user: UserWithPlaintextPassword,
    pub expires: int,
}

/// A login session: a random id, the user it belongs to and when it expires
/// (nanoseconds since the Unix epoch).
#[derive(Debug, Clone, PartialEq)]
pub struct Session {
    id: String,
    user: UserWithPlaintextPassword,
    expires: i128,
}

impl View for Session {
    type V = SessionView;

    closed spec fn view(&self) -> SessionView {
        SessionView { id: self.id@, user: self.user, expires: self.expires as int }
    }
}

/// The text that a cookie's `Expires` attribute gives for the instant
/// `expires` (in nanoseconds), as chrono formats it.
pub open spec fn expires_date_text(expires: int) -> Seq<char> {
    formatted_instant(instant_secs(expires) as i64, instant_subsec(expires) as u32, COOKIE_DATE_FORMAT@)
}

/// The text of the `Set-Cookie` header that hands a session to the browser.
pub open spec fn cookie_text(id: Seq<char>, expires_text: Seq<char>) -> Seq<char> {
    SESSION_COOKIE_NAME@ + "="@ + id + "; HttpOnly; Secure; Expires="@ + expires_text
        + "; path=/"@
}

impl Session {
    /// Draws a fresh session id: `SESSION_ID_LEN` random ASCII letters and digits.
    pub fn generate_session_id() -> (r: String)
        ensures
            is_session_id(r@),
    {
        let mut id = String::new();
        let mut i: usize = 0;
        while i < SESSION_ID_LEN
            invariant
                i <= SESSION_ID_LEN,
                id@.len() == i,
                forall|k: int| 0 <= k < id@.len() ==> #[trigger] is_alphanumeric(id@[k]),
            decreases SESSION_ID_LEN - i,
        {
            let c = random_alphanumeric();
            let ghost before = id@;
            push_char(&mut id, c);
            assert forall|k: int| 0 <= k < id@.len() implies #[trigger] is_alphanumeric(id@[k]) by {
                if k < before.len() {
                    assert(id@[k] == before[k]);
                }
            }
            i = i + 1;
        }
        id
    }

    /// A session for `user` under a fresh random id, expiring
    /// `SESSION_DURATION_NANOS` after the current time.
    pub fn new_with_user(user: UserWithPlaintextPassword) -> (r: Session)
        ensures
            r@.user == user,
            is_session_id(r@.id),
            EARLIEST_NANOS + SESSION_DURATION_NANOS <= r@.expires <= LATEST_NANOS + SESSION_DURATION_NANOS,
    {
        let id = Session::generate_session_id();
        let now = now_nanos();
        Session::new_with_user_at(user, id, now)
    }

    /// A session for `user` under the id `id`, expiring
    /// `SESSION_DURATION_NANOS` after `now`.
    pub fn new_with_user_at(user: UserWithPlaintextPassword, id: String, now: i128) -> (r: Session)
        requires
            representable(now as int),
        ensures
            r@ == (SessionView { id: id@, user: user, expires: now + SESSION_DURATION_NANOS }),
    {
        Session { id, user, expires: now + SESSION_DURATION_NANOS }
    }

    /// A session with the given id, user and expiry.
    pub fn new(id: String, user: UserWithPlaintextPassword, expires: i128) -> (r: Session)
        ensures
            r@ == (SessionView { id: id@, user: user, expires: expires as int }),
    {
        Session { id, user, expires }
    }

    /// The session's id.
    pub fn get_id(&self) -> (r: &str)
        ensures
            r@ == self@.id,
    {
        self.id.as_str()
    }

    /// The user the session belongs to.
    pub fn get_user(&self) -> (r: &UserWithPlaintextPassword)
        ensures
            *r == self@.user,
    {
        &self.user
    }

    /// When the session expires, in nanoseconds since the Unix epoch.
    pub fn get_expires(&self) -> (r: &i128)
        ensures
            *r as int == self@.expires,
    {
        &self.expires
    }

    /// A copy of the session, field by field.
    pub fn duplicate(&self) -> (r: Session)
        ensures
            r@ == self@,
    {
        Session { id: self.id.clone(), user: self.user.duplicate(), expires: self.expires }
    }

    /// The expiry in the format of a cookie's `Expires` attribute, e.g.
    /// `Sun, 15 Jul 2012 00:00:01 GMT`.
    pub fn get_expires_date_string(&self) -> (r: String)
        requires
            representable(self@.expires),
        ensures
            r@ == expires_date_text(self@.expires),
    {
        let (secs, nanos) = split_instant(self.expires);
        format_instant(secs, nanos, COOKIE_DATE_FORMAT)
    }

    /// The same user's session under the id `new_id`, expiring
    /// `SESSION_DURATION_NANOS` after `now`.
    pub fn renew_at(self, new_id: String, now: i128) -> (r: Session)
        requires
            representable(now as int),
        ensures
            r@ == (SessionView {
                id: new_id@,
                user: self@.user,
                expires: now + SESSION_DURATION_NANOS,
            }),
    {
        Session { id: new_id, user: self.user, expires: now + SESSION_DURATION_NANOS }
    }

    /// The same user's session under a fresh random id, expiring
    /// `SESSION_DURATION_NANOS` after the current time.
    pub fn renew(self) -> (r: Session)
        ensures
            r@.user == self@.user,
            is_session_id(r@.id),
            EARLIEST_NANOS + SESSION_DURATION_NANOS <= r@.expires <= LATEST_NANOS + SESSION_DURATION_NANOS,
    {
        let new_id = Session::generate_session_id();
        let now = now_nanos();
        self.renew_at(new_id, now)
    }

    /// The session that the value of the session cookie names in the store, if
    /// there is a cookie and the store holds a session under its value.
    pub fn get_sesssion_from_cookies(cookie_value: Option<&str>, session_store: &SessionStore) -> (r:
        Option<Session>)
        requires
            session_store.well_formed(),
        ensures
            match cookie_value {
                Some(v) => match r {
                    Some(s) => session_store@.contains_key(v@) && s@ == session_store@[v@],
                    None => !session_store@.contains_key(v@),
                },
                None => r is None,
            },
    {
        match cookie_value {
            Some(v) => match session_store.get(v) {
                Some(s) => Some(s.duplicate()),
                None => None,
            },
            None => None,
        }
    }

    /// The `Set-Cookie` text that hands this session to the browser:
    /// `session_id=<id>; HttpOnly; Secure; Expires=<date>; path=/`.
    pub fn generate_cookie_string(&self) -> (r: String)
        requires
            representable(self@.expires),
        ensures
            r@ == cookie_text(self@.id, expires_date_text(self@.expires)),
    {
        let date = self.get_expires_date_string();
        let mut r = SESSION_COOKIE_NAME.to_owned();
        r.append("=");
        r.append(self.id.as_str());
        r.append("; HttpOnly; Secure; Expires=");
        r.append(date.as_str());
        r.append("; path=/");
        r
    }
}

/// The sessions of a sequence, keyed by their ids.
pub open spec fn sessions_map(s: Seq<Session>) -> Map<Seq<char>, SessionView> {
    Map::new(
        |k: Seq<char>| exists|i: int| 0 <= i < s.len() && #[trigger] s[i]@.id == k,
        |k: Seq<char>| s[choose|i: int| 0 <= i < s.len() && #[trigger] s[i]@.id == k]@,
    )
}

/// No two sessions of a sequence share an id.
pub open spec fn distinct_ids(s: Seq<Session>) -> bool {
    forall|i: int, j: int|
        0 <= i < s.len() && 0 <= j < s.len() && i != j ==> #[trigger] s[i]@.id != #[trigger] s[j]@.id
}

/// The sessions of `m` that have not expired at `now` (those expiring at or
/// after `now`).
pub open spec fn unexpired(m: Map<Seq<char>, SessionView>, now: int) -> Map<Seq<char>, SessionView> {
    Map::new(|k: Seq<char>| m.contains_key(k) && m[k].expires >= now, |k: Seq<char>| m[k])
}

/// A session that expires within `period` of `now`, and not before `now`.
pub open spec fn close_to_expiry(expires: int, now: int, period: int) -> bool {
    0 <= expires - now <= period
}

proof fn lemma_map_at(s: Seq<Session>, i: int)
    requires
        distinct_ids(s),
        0 <= i < s.len(),
    ensures
        sessions_map(s).contains_key(s[i]@.id),
        sessions_map(s)[s[i]@.id] == s[i]@,
{
    let k = s[i]@.id;
    assert(0 <= i < s.len() && s[i]@.id == k);
    let j = choose|j: int| 0 <= j < s.len() && #[trigger] s[j]@.id == k;
    assert(j == i);
}

proof fn lemma_map_equal(s: Seq<Session>, m: Map<Seq<char>, SessionView>)
    requires
        distinct_ids(s),
        forall|i: int| 0 <= i < s.len() ==> m.contains_key(#[trigger] s[i]@.id) && m[s[i]@.id] == s[i]@,
        forall|k: Seq<char>| #[trigger] m.contains_key(k) ==> exists|i: int| 0 <= i < s.len() && s[i]@.id == k,
    ensures
        sessions_map(s) == m,
{
    assert forall|k: Seq<char>| sessions_map(s).contains_key(k) <==> m.contains_key(k) by {
        if m.contains_key(k) {
            let i = choose|i: int| 0 <= i < s.len() && s[i]@.id == k;
            lemma_map_at(s, i);
        }
    }
    assert forall|k: Seq<char>| #[trigger] sessions_map(s).contains_key(k) implies sessions_map(s)[k] == m[k] by {
        let i = choose|i: int| 0 <= i < s.len() && #[trigger] s[i]@.id == k;
        lemma_map_at(s, i);
    }
    assert(sessions_map(s) =~= m);
}

/// The sessions of the website, keyed by their ids.
#[derive(Debug)]
pub struct SessionStore {
    store: Vec<Session>,
    renewal_period: i128,
}

impl View for SessionStore {
    type V = Map<Seq<char>, SessionView>;

    closed spec fn view(&self) -> Map<Seq<char>, SessionView> {
        sessions_map(self.store@)
    }
}

impl SessionStore {
    /// The store keeps each session under its own id, once, and renews
    /// sessions `SESSION_RENEW_PERIOD_NANOS` before they expire.
    pub closed spec fn well_formed(&self) -> bool {
        &&& distinct_ids(self.store@)
        &&& self.renewal_period == SESSION_RENEW_PERIOD_NANOS
    }

    /// Law: the store keeps each session under its own id.
    pub proof fn lemma_sessions_under_own_id(&self)
        requires
            self.well_formed(),
        ensures
            forall|k: Seq<char>| #[trigger] self@.contains_key(k) ==> self@[k].id == k,
    {
        assert forall|k: Seq<char>| #[trigger] self@.contains_key(k) implies self@[k].id == k by {
            let i = choose|i: int| 0 <= i < self.store@.len() && #[trigger] self.store@[i]@.id == k;
            lemma_map_at(self.store@, i);
        }
    }

    /// How close to its expiry a session of this store is renewed.
    pub closed spec fn renewal_period(&self) -> int {
        self.renewal_period as int
    }

    /// A well-formed store renews sessions within `SESSION_RENEW_PERIOD_NANOS`
    /// (30 minutes) of their expiry.
    pub proof fn lemma_renewal_period(&self)
        requires
            self.well_formed(),
        ensures
            self.renewal_period() == SESSION_RENEW_PERIOD_NANOS,
    {
    }

    /// An empty store.
    pub fn new() -> (r: SessionStore)
        ensures
            r.well_formed(),
            r@ == Map::<Seq<char>, SessionView>::empty(),
            r.renewal_period() == SESSION_RENEW_PERIOD_NANOS,
    {
        let r = SessionStore { store: Vec::new(), renewal_period: SESSION_RENEW_PERIOD_NANOS };
        assert(r@ =~= Map::<Seq<char>, SessionView>::empty());
        r
    }

    /// The position of the session with id `sid`, if the store holds one.
    fn position(&self, sid: &str) -> (r: Option<usize>)
        requires
            self.well_formed(),
        ensures
            match r {
                Some(i) => i < self.store@.len() && self.store@[i as int]@.id == sid@,
                None => forall|i: int| 0 <= i < self.store@.len() ==> self.store@[i]@.id != sid@,
            },
    {
        let mut i: usize = 0;
        while i < self.store.len()
            invariant
                i <= self.store@.len(),
                forall|k: int| 0 <= k < i ==> self.store@[k]@.id != sid@,
            decreases self.store@.len() - i,
        {
            if same_text(self.store[i].id.as_str(), sid) {
                return Some(i);
            }
            i = i + 1;
        }
        None
    }

    /// Keeps the session `s` under its id, in place of any session with the same id.
    pub fn add(&mut self, s: Session)
        requires
            old(self).well_formed(),
        ensures
            final(self).well_formed(),
            final(self)@ == old(self)@.insert(s@.id, s@),
            final(self).renewal_period() == old(self).renewal_period(),
    {
        let ghost expected = self@.insert(s@.id, s@);
        let ghost before = self.store@;
        match self.position(s.id.as_str()) {
            Some(i) => {
                self.store.set(i, s);
            },
            None => {
                self.store.push(s);
            },
        }
        let ghost after = self.store@;
        assert(distinct_ids(after)) by {
            assert forall|i: int, j: int|
                0 <= i < after.len() && 0 <= j < after.len() && i != j implies #[trigger] after[i]@.id
                != #[trigger] after[j]@.id by {
            }
        }
        assert forall|i: int| 0 <= i < after.len() implies expected.contains_key(#[trigger] after[i]@.id)
            && expected[after[i]@.id] == after[i]@ by {
            if after[i]@.id != s@.id {
                assert(after[i] == before[i]);
                lemma_map_at(before, i);
            }
        }
        assert forall|k: Seq<char>| #[trigger] expected.contains_key(k) implies exists|i: int|
            0 <= i < after.len() && after[i]@.id == k by {
            if k == s@.id {
                if exists|i: int| 0 <= i < before.len() && before[i]@.id == k {
                    let i = choose|i: int| 0 <= i < before.len() && before[i]@.id == k;
                    assert(after[i]@.id == k);
                } else {
                    assert(after[after.len() - 1]@.id == k);
                }
            } else {
                let i = choose|i: int| 0 <= i < before.len() && #[trigger] before[i]@.id == k;
                assert(after[i] == before[i]);
            }
        }
        proof { lemma_map_equal(after, expected); }
    }

    /// Drops the session with id `sid`, if the store holds one.
    pub fn remove(&mut self, sid: &str)
        requires
            old(self).well_formed(),
        ensures
            final(self).well_formed(),
            final(self)@ == old(self)@.remove(sid@),
            final(self).renewal_period() == old(self).renewal_period(),
    {
        let ghost expected = self@.remove(sid@);
        let ghost before = self.store@;
        if let Some(p) = self.position(sid) {
            self.store.remove(p);
            let ghost after = self.store@;
            assert forall|i: int| 0 <= i < after.len() implies #[trigger] after[i] == before[if i < p {
                i
            } else {
                i + 1
            }] by {}
            assert(distinct_ids(after)) by {
                assert forall|i: int, j: int|
                    0 <= i < after.len() && 0 <= j < after.len() && i != j implies #[trigger] after[i]@.id
                    != #[trigger] after[j]@.id by {
                    let bi = if i < p { i } else { i + 1 };
                    let bj = if j < p { j } else { j + 1 };
                    assert(after[i] == before[bi]);
                    assert(after[j] == before[bj]);
                }
            }
            assert forall|i: int| 0 <= i < after.len() implies expected.contains_key(
                #[trigger] after[i]@.id,
            ) && expected[after[i]@.id] == after[i]@ by {
                let bi = if i < p { i } else { i + 1 };
                assert(after[i] == before[bi]);
                lemma_map_at(before, bi);
                assert(before[bi]@.id != before[p as int]@.id);
            }
            assert forall|k: Seq<char>| #[trigger] expected.contains_key(k) implies exists|i: int|
                0 <= i < after.len() && after[i]@.id == k by {
                let b = choose|b: int| 0 <= b < before.len() && #[trigger] before[b]@.id == k;
                assert(b != p);
                let i = if b < p { b } else { b - 1 };
                assert(after[i] == before[b]);
            }
            proof { lemma_map_equal(after, expected); }
        } else {
            assert(self@ =~= expected);
        }
    }

    /// The session with id `sid`, if the store holds one.
    pub fn get(&self, sid: &str) -> (r: Option<&Session>)
        requires
            self.well_formed(),
        ensures
            match r {
                Some(s) => self@.contains_key(sid@) && s@ == self@[sid@] && s@.id == sid@,
                None => !self@.contains_key(sid@),
            },
    {
        match self.position(sid) {
            Some(i) => {
                proof {
                    lemma_map_at(self.store@, i as int);
                }
                Some(&self.store[i])
            },
            None => None,
        }
    }

    /// Replaces `old_session` by the same user's session under the id `new_id`,
    /// expiring `SESSION_DURATION_NANOS` after `now`, and returns the new session.
    /// The new session is kept first and the old id dropped after, so where the
    /// two ids are the same no session is left under it.
    pub fn renew_at(&mut self, old_session: Session, new_id: String, now: i128) -> (r: Session)
        requires
            old(self).well_formed(),
            representable(now as int),
        ensures
            final(self).well_formed(),
            r@ == (SessionView {
                id: new_id@,
                user: old_session@.user,
                expires: now + SESSION_DURATION_NANOS,
            }),
            final(self)@ == old(self)@.insert(r@.id, r@).remove(old_session@.id),
            final(self).renewal_period() == old(self).renewal_period(),
    {
        let old_session_id = old_session.id.clone();
        let new_session = old_session.renew_at(new_id, now);
        self.add(new_session.duplicate());
        self.remove(old_session_id.as_str());
        new_session
    }

    /// Replaces `old_session` by the same user's session under a fresh random
    /// id, expiring `SESSION_DURATION_NANOS` after the current time, and
    /// returns the new session.
    pub fn renew(&mut self, old_session: Session) -> (r: Session)
        requires
            old(self).well_formed(),
        ensures
            final(self).well_formed(),
            r@.user == old_session@.user,
            is_session_id(r@.id),
            EARLIEST_NANOS + SESSION_DURATION_NANOS <= r@.expires <= LATEST_NANOS + SESSION_DURATION_NANOS,
            final(self)@ == old(self)@.insert(r@.id, r@).remove(old_session@.id),
            final(self).renewal_period() == old(self).renewal_period(),
    {
        let new_id = Session::generate_session_id();
        let now = now_nanos();
        self.renew_at(old_session, new_id, now)
    }

    /// Whether a session expiring at `expires` is due for renewal at `now`:
    /// it expires within the renewal period and has not expired yet.
    pub fn is_close_to_expiry(&self, expires: i128, now: i128) -> (r: bool)
        requires
            self.well_formed(),
            representable(now as int),
        ensures
            r == close_to_expiry(expires as int, now as int, self.renewal_period()),
    {
        now <= expires && expires <= now + self.renewal_period
    }

    /// At time `now`, renews `old_session` under the id `new_id` where it is
    /// due for renewal, as `renew_at` does; leaves the store as it is otherwise.
    pub fn renew_if_close_to_expiry_at(&mut self, old_session: &Session, new_id: String, now: i128) -> (r:
        Option<Session>)
        requires
            old(self).well_formed(),
            representable(now as int),
        ensures
            final(self).well_formed(),
            final(self).renewal_period() == old(self).renewal_period(),
            close_to_expiry(old_session@.expires, now as int, old(self).renewal_period()) <==> r is Some,
            match r {
                Some(s) => {
                    &&& s@ == (SessionView {
                        id: new_id@,
                        user: old_session@.user,
                        expires: now + SESSION_DURATION_NANOS,
                    })
                    &&& final(self)@ == old(self)@.insert(s@.id, s@).remove(old_session@.id)
                },
                None => final(self)@ == old(self)@,
            },
    {
        if self.is_close_to_expiry(old_session.expires, now) {
            Some(self.renew_at(old_session.duplicate(), new_id, now))
        } else {
            None
        }
    }

    /// Renews `old_session` under a fresh random id where, at the current time,
    /// it is due for renewal, as `renew_if_close_to_expiry_at` does at that time;
    /// leaves the store as it is otherwise.
    pub fn renew_if_close_to_expiry(&mut self, old_session: &Session) -> (r: Option<Session>)
        requires
            old(self).well_formed(),
        ensures
            final(self).well_formed(),
            final(self).renewal_period() == old(self).renewal_period(),
            exists|t: int|
                representable(t) && (#[trigger] close_to_expiry(
                    old_session@.expires,
                    t,
                    old(self).renewal_period(),
                ) <==> r is Some) && match r {
                    Some(s) => {
                        &&& s@.expires == t + SESSION_DURATION_NANOS
                        &&& s@.user == old_session@.user
                        &&& is_session_id(s@.id)
                        &&& final(self)@ == old(self)@.insert(s@.id, s@).remove(old_session@.id)
                    },
                    None => final(self)@ == old(self)@,
                },
    {
        let now = now_nanos();
        let new_id = Session::generate_session_id();
        let r = self.renew_if_close_to_expiry_at(old_session, new_id, now);
        assert(close_to_expiry(old_session@.expires, now as int, old(self).renewal_period()) <==> r is Some);
        r
    }

    /// Drops the sessions that have expired at `now`.
    pub fn clean_at(&mut self, now: i128)
        requires
            old(self).well_formed(),
        ensures
            final(self).well_formed(),
            final(self)@ == unexpired(old(self)@, now as int),
            final(self).renewal_period() == old(self).renewal_period(),
    {
        let ghost before = self.store@;
        let ghost expected = unexpired(self@, now as int);
        let mut kept: Vec<Session> = Vec::new();
        let ghost mut origin: Seq<int> = Seq::empty();
        let n = self.store.len();
        let mut i: usize = 0;
        while i < n
            invariant
                i <= n,
                n == before.len(),
                self.store@ == before,
                self.renewal_period == old(self).renewal_period,
                distinct_ids(before),
                origin.len() == kept@.len(),
                forall|k: int| 0 <= k < kept@.len() ==> 0 <= #[trigger] origin[k] < i && kept@[k]@ == before[origin[k]]@,
                forall|a: int, b: int| 0 <= a < b < kept@.len() ==> #[trigger] origin[a] < #[trigger] origin[b],
                forall|k: int| 0 <= k < kept@.len() ==> #[trigger] kept@[k]@.expires >= now,
                forall|b: int| 0 <= b < i && before[b]@.expires >= now ==> exists|k: int|
                    0 <= k < kept@.len() && #[trigger] origin[k] == b,
            decreases n - i,
        {
            let ghost kept_before = kept@;
            let ghost origin_before = origin;
            if self.store[i].expires >= now {
                kept.push(self.store[i].duplicate());
                proof {
                    origin = origin.push(i as int);
                }
                assert(kept@[kept@.len() - 1]@ == before[i as int]@);
                assert forall|k: int| 0 <= k < kept_before.len() implies kept@[k] == kept_before[k]
                    && origin[k] == origin_before[k] by {}
                assert(origin[kept@.len() - 1] == i);
            }
            assert forall|b: int| 0 <= b < i + 1 && before[b]@.expires >= now implies exists|k: int|
                0 <= k < kept@.len() && #[trigger] origin[k] == b by {
                if b < i {
                    let k = choose|k: int| 0 <= k < kept_before.len() && #[trigger] origin_before[k] == b;
                    assert(origin[k] == b);
                } else {
                    assert(origin[kept@.len() - 1] == b);
                }
            }
            i = i + 1;
        }
        self.store = kept;
        let ghost after = self.store@;
        assert(distinct_ids(after)) by {
            assert forall|a: int, b: int|
                0 <= a < after.len() && 0 <= b < after.len() && a != b implies #[trigger] after[a]@.id
                != #[trigger] after[b]@.id by {
                if a < b {
                    assert(origin[a] < origin[b]);
                } else {
                    assert(origin[b] < origin[a]);
                }
            }
        }
        assert forall|k: int| 0 <= k < after.len() implies expected.contains_key(#[trigger] after[k]@.id)
            && expected[after[k]@.id] == after[k]@ by {
            lemma_map_at(before, origin[k]);
        }
        assert forall|key: Seq<char>| #[trigger] expected.contains_key(key) implies exists|k: int|
            0 <= k < after.len() && after[k]@.id == key by {
            let b = choose|b: int| 0 <= b < before.len() && #[trigger] before[b]@.id == key;
            lemma_map_at(before, b);
            let k = choose|k: int| 0 <= k < kept@.len() && #[trigger] origin[k] == b;
        }
        proof { lemma_map_equal(after, expected); }
    }

    /// Drops the sessions that have expired at the current time.
    pub fn clean(&mut self)
        requires
            old(self).well_formed(),
        ensures
            final(self).well_formed(),
            final(self).renewal_period() == old(self).renewal_period(),
            exists|now: int| representable(now) && final(self)@ == unexpired(old(self)@, now),
    {
        let now = now_nanos();
        self.clean_at(now);
    }
}

/// Law: a session that was added is found under its id afterwards, and the
/// other sessions of the store are as they were.
pub proof fn lemma_get_after_add(store: &SessionStore, s: Session)
    requires
        store.well_formed(),
    ensures
        store@.insert(s@.id, s@).contains_key(s@.id),
        store@.insert(s@.id, s@)[s@.id] == s@,
        forall|k: Seq<char>|
            k != s@.id ==> (#[trigger] store@.insert(s@.id, s@).contains_key(k) == store@.contains_key(k)
                && (store@.contains_key(k) ==> store@.insert(s@.id, s@)[k] == store@[k])),
{
}

/// Law: after a removal no session is found under the removed id, and the
/// other sessions of the store are as they were.
pub proof fn lemma_get_after_remove(store: &SessionStore, sid: Seq<char>)
    requires
        store.well_formed(),
    ensures
        !store@.remove(sid).contains_key(sid),
        forall|k: Seq<char>|
            k != sid ==> (#[trigger] store@.remove(sid).contains_key(k) == store@.contains_key(k) && (
            store@.contains_key(k) ==> store@.remove(sid)[k] == store@[k])),
{
}

/// Law: cleaning at `now` keeps exactly the sessions that expire at or after
/// `now`, unchanged.
pub proof fn lemma_clean_keeps_unexpired(sessions: Map<Seq<char>, SessionView>, now: int)
    ensures
        forall|k: Seq<char>|
            #[trigger] unexpired(sessions, now).contains_key(k) <==> (sessions.contains_key(k)
                && sessions[k].expires >= now),
        forall|k: Seq<char>|
            #[trigger] unexpired(sessions, now).contains_key(k) ==> unexpired(sessions, now)[k]
                == sessions[k],
{
}

/// Law: cleaning at `later` after cleaning at `earlier` leaves what cleaning
/// at `later` alone leaves; in particular cleaning twice at the same time
/// changes nothing the second time.
pub proof fn lemma_clean_twice(sessions: Map<Seq<char>, SessionView>, earlier: int, later: int)
    requires
        earlier <= later,
    ensures
        unexpired(unexpired(sessions, earlier), later) == unexpired(sessions, later),
{
    assert(unexpired(unexpired(sessions, earlier), later) =~= unexpired(sessions, later));
}

/// Law: a session is renewed only before it expires and within the renewal
/// period of its expiry; an expired session, or one further from its expiry
/// than the period, is never renewed.
pub proof fn lemma_renewal_window(expires: int, now: int, period: int)
    ensures
        expires < now ==> !close_to_expiry(expires, now, period),
        expires - now > period ==> !close_to_expiry(expires, now, period),
        now <= expires <= now + period ==> close_to_expiry(expires, now, period),
{
}

/// Law: renewing a session moves its user to the new session: afterwards the
/// store holds the new session under its id and nothing under the old id,
/// where the two ids differ, and the other sessions are as they were.
pub proof fn lemma_renew_moves_session(store: &SessionStore, old_session: SessionView, new_session: SessionView)
    requires
        store.well_formed(),
        new_session.id != old_session.id,
    ensures
        store@.insert(new_session.id, new_session).remove(old_session.id).contains_key(new_session.id),
        store@.insert(new_session.id, new_session).remove(old_session.id)[new_session.id] == new_session,
        !store@.insert(new_session.id, new_session).remove(old_session.id).contains_key(old_session.id),
        forall|k: Seq<char>|
            k != new_session.id && k != old_session.id ==> (
            #[trigger] store@.insert(new_session.id, new_session).remove(old_session.id).contains_key(k)
                == store@.contains_key(k)),
{
}

} // verus!
