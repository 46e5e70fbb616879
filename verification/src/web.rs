//! The decisions of the website's pages: its settings, the summary of the
//! dashboard, the filter of the event list, which session a request carries,
//! and where each form sends the browser afterwards.
use vstd::prelude::*;
use vstd::string::*;
use crate::client::{error_text, Error};
use crate::config::Config;
use crate::decimal::{i32_decimal, int_decimal};
use crate::session::{
    close_to_expiry, is_session_id, Session, SessionStore, SessionView, SESSION_DURATION_NANOS,
};
use crate::text::same_text;
use crate::user::UserWithPlaintextPassword;
use crate::time::{now_nanos, representable};

verus! {

/// The settings the web server runs with.
#[derive(Debug, Clone, PartialEq)]
pub struct WebConfig {
    content_root: String,
    css_root: String,
    js_root: String,
    api_url: String,
    cookie_cleaner_interval_seconds: u64,
}

/// The address of the API: host, `:` and port.
pub open spec fn api_address(host: Seq<char>, port: i32) -> Seq<char> {
    host + ":"@ + int_decimal(port as int)
}

impl WebConfig {
    /// The directory that static content is served from.
    pub closed spec fn spec_content_root(&self) -> Seq<char> {
        self.content_root@
    }

    /// The directory of style sheets, under the content root.
    pub closed spec fn spec_css_root(&self) -> Seq<char> {
        self.css_root@
    }

    /// The directory of scripts, under the content root.
    pub closed spec fn spec_js_root(&self) -> Seq<char> {
        self.js_root@
    }

    /// The base URL of the API.
    pub closed spec fn spec_api_url(&self) -> Seq<char> {
        self.api_url@
    }

    /// How often expired sessions are dropped, in seconds.
    pub closed spec fn spec_cleaner_interval(&self) -> u64 {
        self.cookie_cleaner_interval_seconds
    }

    /// The web settings that the configuration `c` gives.
    pub fn from(c: &Config) -> (r: WebConfig)
        ensures
            r.spec_content_root() == c.content_root@,
            r.spec_css_root() == c.css_root@,
            r.spec_js_root() == c.js_root@,
            r.spec_api_url() == api_address(c.api_server_host@, c.api_server_port),
            r.spec_cleaner_interval() == c.cookie_cleaner_interval_seconds,
    {
        let mut api_url = c.api_server_host.clone();
        api_url.append(":");
        let port = i32_decimal(c.api_server_port);
        api_url.append(port.as_str());
        WebConfig {
            content_root: c.content_root.clone(),
            css_root: c.css_root.clone(),
            js_root: c.js_root.clone(),
            api_url,
            cookie_cleaner_interval_seconds: c.cookie_cleaner_interval_seconds,
        }
    }

    /// The directory that static content is served from.
    pub fn content_root(&self) -> (r: &str)
        ensures
            r@ == self.spec_content_root(),
    {
        self.content_root.as_str()
    }

    /// The directory of style sheets, under the content root.
    pub fn css_root(&self) -> (r: &str)
        ensures
            r@ == self.spec_css_root(),
    {
        self.css_root.as_str()
    }

    /// The directory of scripts, under the content root.
    pub fn js_root(&self) -> (r: &str)
        ensures
            r@ == self.spec_js_root(),
    {
        self.js_root.as_str()
    }

    /// The base URL of the API.
    pub fn api_url(&self) -> (r: &str)
        ensures
            r@ == self.spec_api_url(),
    {
        self.api_url.as_str()
    }

    /// How often expired sessions are dropped, in seconds.
    pub fn cookie_cleaner_interval_seconds(&self) -> (r: u64)
        ensures
            r == self.spec_cleaner_interval(),
    {
        self.cookie_cleaner_interval_seconds
    }
}

/// The sport asked for in the query of the event list.
#[derive(Debug, Clone, PartialEq)]
pub struct SportType {
    pub sport_type: String,
}

/// An event of the calendar, as far as the pages read it: its sport and how
/// many sessions it has.
#[derive(Debug, Clone, PartialEq)]
pub struct Event {
    pub sport: String,
    pub session_count: usize,
}

/// The dashboard's line for one sport: how many events and sessions it has.
#[derive(Debug, Clone, PartialEq)]
pub struct SportInfo {
    pub name: String,
    pub event_count: i32,
    pub session_count: i32,
}

/// How many of the events are of the sport `sport`.
pub open spec fn sport_event_count(events: Seq<Event>, sport: Seq<char>) -> nat
    decreases events.len(),
{
    if events.len() == 0 {
        0
    } else {
        sport_event_count(events.drop_last(), sport) + if events.last().sport@ == sport {
            1nat
        } else {
            0nat
        }
    }
}

/// How many sessions the events of the sport `sport` have together.
pub open spec fn sport_session_count(events: Seq<Event>, sport: Seq<char>) -> nat
    decreases events.len(),
{
    if events.len() == 0 {
        0
    } else {
        sport_session_count(events.drop_last(), sport) + if events.last().sport@ == sport {
            events.last().session_count as nat
        } else {
            0nat
        }
    }
}

/// How many sessions all the events have together.
pub open spec fn total_session_count(events: Seq<Event>) -> nat
    decreases events.len(),
{
    if events.len() == 0 {
        0
    } else {
        total_session_count(events.drop_last()) + events.last().session_count as nat
    }
}

/// Some event is of the sport `sport`.
pub open spec fn has_sport(events: Seq<Event>, sport: Seq<char>) -> bool {
    exists|i: int| 0 <= i < events.len() && #[trigger] events[i].sport@ == sport
}

/// Some line of the summary is for the sport `sport`.
pub open spec fn has_line(infos: Seq<SportInfo>, sport: Seq<char>) -> bool {
    exists|j: int| 0 <= j < infos.len() && #[trigger] infos[j].name@ == sport
}

/// The dashboard summary `infos` of `events`: one line per sport of the
/// events, each with the number of events of that sport (taken as an `i32`,
/// its lowest 32 bits, as `len() as i32` takes it) and of their sessions.
pub open spec fn is_sport_summary(events: Seq<Event>, infos: Seq<SportInfo>) -> bool {
    &&& forall|a: int, b: int|
        0 <= a < infos.len() && 0 <= b < infos.len() && a != b ==> #[trigger] infos[a].name@
            != #[trigger] infos[b].name@
    &&& forall|j: int| 0 <= j < infos.len() ==> has_sport(events, #[trigger] infos[j].name@)
    &&& forall|i: int| 0 <= i < events.len() ==> has_line(infos, #[trigger] events[i].sport@)
    &&& forall|j: int|
        0 <= j < infos.len() ==> #[trigger] infos[j].event_count == sport_event_count(
            events,
            infos[j].name@,
        ) as i32 && infos[j].session_count as int == sport_session_count(events, infos[j].name@)
}

proof fn lemma_sport_count_bounds(events: Seq<Event>, sport: Seq<char>)
    ensures
        sport_event_count(events, sport) <= events.len(),
        sport_session_count(events, sport) <= total_session_count(events),
        !has_sport(events, sport) ==> sport_event_count(events, sport) == 0
            && sport_session_count(events, sport) == 0,
    decreases events.len(),
{
    if events.len() > 0 {
        lemma_sport_count_bounds(events.drop_last(), sport);
        if !has_sport(events, sport) {
            assert(events.last() == events[events.len() - 1]);
            assert forall|i: int| 0 <= i < events.drop_last().len() implies #[trigger] events.drop_last()[i].sport@
                != sport by {
                assert(events.drop_last()[i] == events[i]);
            }
        }
    }
}

proof fn lemma_sport_prefix(events: Seq<Event>, i: int, sport: Seq<char>)
    requires
        0 <= i <= events.len(),
    ensures
        sport_session_count(events.take(i), sport) <= sport_session_count(events, sport),
    decreases events.len() - i,
{
    if i < events.len() {
        lemma_sport_prefix(events, i + 1, sport);
        assert(events.take(i + 1).drop_last() =~= events.take(i));
    } else {
        assert(events.take(i) =~= events);
    }
}

/// The number of events that the lines of a summary count together.
pub open spec fn summed_event_counts(infos: Seq<SportInfo>) -> int
    decreases infos.len(),
{
    if infos.len() == 0 {
        0
    } else {
        summed_event_counts(infos.drop_last()) + infos.last().event_count
    }
}

/// The number of sessions that the lines of a summary count together.
pub open spec fn summed_session_counts(infos: Seq<SportInfo>) -> int
    decreases infos.len(),
{
    if infos.len() == 0 {
        0
    } else {
        summed_session_counts(infos.drop_last()) + infos.last().session_count
    }
}

proof fn lemma_sums_update(infos: Seq<SportInfo>, j: int, line: SportInfo)
    requires
        0 <= j < infos.len(),
    ensures
        summed_event_counts(infos.update(j, line)) == summed_event_counts(infos) - infos[j].event_count
            + line.event_count,
        summed_session_counts(infos.update(j, line)) == summed_session_counts(infos)
            - infos[j].session_count + line.session_count,
    decreases infos.len(),
{
    let updated = infos.update(j, line);
    if j == infos.len() - 1 {
        assert(updated.drop_last() =~= infos.drop_last());
    } else {
        lemma_sums_update(infos.drop_last(), j, line);
        assert(updated.drop_last() =~= infos.drop_last().update(j, line));
    }
}

proof fn lemma_sums_push(infos: Seq<SportInfo>, line: SportInfo)
    ensures
        summed_event_counts(infos.push(line)) == summed_event_counts(infos) + line.event_count,
        summed_session_counts(infos.push(line)) == summed_session_counts(infos) + line.session_count,
{
    assert(infos.push(line).drop_last() =~= infos);
}

proof fn lemma_counts_push(before: Seq<Event>, event: Event, s: Seq<char>)
    ensures
        sport_event_count(before.push(event), s) == sport_event_count(before, s) + (if event.sport@ == s {
            1int
        } else {
            0int
        }),
        sport_session_count(before.push(event), s) == sport_session_count(before, s) + (if event.sport@
            == s {
            event.session_count as int
        } else {
            0int
        }),
        total_session_count(before.push(event)) == total_session_count(before) + event.session_count,
{
    assert(before.push(event).drop_last() =~= before);
}

proof fn lemma_has_sport_push(before: Seq<Event>, event: Event, s: Seq<char>)
    requires
        has_sport(before, s),
    ensures
        has_sport(before.push(event), s),
{
    let w = choose|w: int| 0 <= w < before.len() && #[trigger] before[w].sport@ == s;
    assert(before.push(event)[w] == before[w]);
}

proof fn lemma_summary_step_found(
    before: Seq<Event>,
    event: Event,
    old_infos: Seq<SportInfo>,
    new_infos: Seq<SportInfo>,
    j: int,
)
    requires
        is_sport_summary(before, old_infos),
        0 <= j < old_infos.len(),
        old_infos[j].name@ == event.sport@,
        new_infos.len() == old_infos.len(),
        forall|k: int| 0 <= k < old_infos.len() && k != j ==> #[trigger] new_infos[k] == old_infos[k],
        new_infos[j].name@ == old_infos[j].name@,
        new_infos[j].event_count == (sport_event_count(before, event.sport@) + 1) as i32,
        new_infos[j].session_count == old_infos[j].session_count + event.session_count,
    ensures
        is_sport_summary(before.push(event), new_infos),
{
    let after = before.push(event);
    assert forall|k: int| 0 <= k < new_infos.len() implies #[trigger] new_infos[k].name@ == old_infos[k].name@ by {
        if k != j {
            assert(new_infos[k] == old_infos[k]);
        }
    }
    assert forall|a: int, b: int|
        0 <= a < new_infos.len() && 0 <= b < new_infos.len() && a != b implies #[trigger] new_infos[a].name@
            != #[trigger] new_infos[b].name@ by {
        assert(new_infos[a].name@ == old_infos[a].name@);
        assert(new_infos[b].name@ == old_infos[b].name@);
    }
    assert forall|k: int| 0 <= k < new_infos.len() implies has_sport(after, #[trigger] new_infos[k].name@) by {
        assert(new_infos[k].name@ == old_infos[k].name@);
        lemma_has_sport_push(before, event, old_infos[k].name@);
    }
    assert forall|e: int| 0 <= e < after.len() implies has_line(new_infos, #[trigger] after[e].sport@) by {
        if e < before.len() {
            assert(after[e] == before[e]);
            assert(has_line(old_infos, before[e].sport@));
            let k = choose|k: int| 0 <= k < old_infos.len() && #[trigger] old_infos[k].name@ == before[e].sport@;
            assert(new_infos[k].name@ == old_infos[k].name@);
        } else {
            assert(new_infos[j].name@ == after[e].sport@);
        }
    }
    assert forall|k: int| 0 <= k < new_infos.len() implies #[trigger] new_infos[k].event_count
        == sport_event_count(after, new_infos[k].name@) as i32 && new_infos[k].session_count as int
        == sport_session_count(after, new_infos[k].name@) by {
        lemma_counts_push(before, event, old_infos[k].name@);
        assert(old_infos[k].event_count == sport_event_count(before, old_infos[k].name@) as i32);
        if k != j {
            assert(new_infos[k] == old_infos[k]);
        }
    }
}

proof fn lemma_summary_step_new(
    before: Seq<Event>,
    event: Event,
    old_infos: Seq<SportInfo>,
    info: SportInfo,
)
    requires
        is_sport_summary(before, old_infos),
        forall|k: int| 0 <= k < old_infos.len() ==> old_infos[k].name@ != event.sport@,
        info.name@ == event.sport@,
        info.event_count == 1,
        info.session_count == event.session_count,
    ensures
        is_sport_summary(before.push(event), old_infos.push(info)),
{
    let after = before.push(event);
    let new_infos = old_infos.push(info);
    let sport = event.sport@;
    assert(!has_sport(before, sport)) by {
        if has_sport(before, sport) {
            let w = choose|w: int| 0 <= w < before.len() && #[trigger] before[w].sport@ == sport;
            assert(has_line(old_infos, before[w].sport@));
        }
    }
    lemma_sport_count_bounds(before, sport);
    assert forall|k: int| 0 <= k < old_infos.len() implies #[trigger] new_infos[k] == old_infos[k] by {}
    assert forall|a: int, b: int|
        0 <= a < new_infos.len() && 0 <= b < new_infos.len() && a != b implies #[trigger] new_infos[a].name@
            != #[trigger] new_infos[b].name@ by {
        if a < old_infos.len() && b < old_infos.len() {
            assert(new_infos[a] == old_infos[a]);
            assert(new_infos[b] == old_infos[b]);
        } else if a < old_infos.len() {
            assert(new_infos[a] == old_infos[a]);
        } else {
            assert(new_infos[b] == old_infos[b]);
        }
    }
    assert forall|k: int| 0 <= k < new_infos.len() implies has_sport(after, #[trigger] new_infos[k].name@) by {
        if k < old_infos.len() {
            assert(new_infos[k] == old_infos[k]);
            lemma_has_sport_push(before, event, old_infos[k].name@);
        } else {
            assert(after[before.len() as int].sport@ == new_infos[k].name@);
        }
    }
    assert forall|e: int| 0 <= e < after.len() implies has_line(new_infos, #[trigger] after[e].sport@) by {
        if e < before.len() {
            assert(after[e] == before[e]);
            assert(has_line(old_infos, before[e].sport@));
            let k = choose|k: int| 0 <= k < old_infos.len() && #[trigger] old_infos[k].name@ == before[e].sport@;
            assert(new_infos[k] == old_infos[k]);
        } else {
            assert(new_infos[old_infos.len() as int].name@ == after[e].sport@);
        }
    }
    assert forall|k: int| 0 <= k < new_infos.len() implies #[trigger] new_infos[k].event_count
        == sport_event_count(after, new_infos[k].name@) as i32 && new_infos[k].session_count as int
        == sport_session_count(after, new_infos[k].name@) by {
        lemma_counts_push(before, event, new_infos[k].name@);
        if k < old_infos.len() {
            assert(new_infos[k] == old_infos[k]);
        } else {
            assert(new_infos[k] == info);
            assert(sport_event_count(after, new_infos[k].name@) == 1);
        }
    }
    assert(is_sport_summary(after, new_infos));
}

proof fn lemma_counts_remove(events: Seq<Event>, k: int, sport: Seq<char>)
    requires
        0 <= k < events.len(),
    ensures
        sport_event_count(events, sport) == sport_event_count(events.remove(k), sport) + (if events[k].sport@
            == sport {
            1int
        } else {
            0int
        }),
        sport_session_count(events, sport) == sport_session_count(events.remove(k), sport) + (if events[k].sport@
            == sport {
            events[k].session_count as int
        } else {
            0int
        }),
    decreases events.len(),
{
    if k == events.len() - 1 {
        assert(events.remove(k) =~= events.drop_last());
    } else {
        lemma_counts_remove(events.drop_last(), k, sport);
        assert(events.remove(k).drop_last() =~= events.drop_last().remove(k));
        assert(events.remove(k).last() == events.last());
    }
}

proof fn lemma_counts_reordered(a: Seq<Event>, b: Seq<Event>, sport: Seq<char>)
    requires
        a.to_multiset() == b.to_multiset(),
    ensures
        sport_event_count(a, sport) == sport_event_count(b, sport),
        sport_session_count(a, sport) == sport_session_count(b, sport),
    decreases a.len(),
{
    broadcast use vstd::seq_lib::group_to_multiset_ensures;
    broadcast use vstd::multiset::group_multiset_axioms;

    if a.len() == 0 {
        assert(a.to_multiset().len() == a.len());
        assert(b.to_multiset().len() == b.len());
        assert(b.len() == 0);
        assert(b =~= a);
    } else {
        let x = a.last();
        let rest = a.drop_last();
        assert(rest.push(x) =~= a);
        assert(a.to_multiset().count(x) > 0);
        assert(b.contains(x));
        let k = choose|k: int| 0 <= k < b.len() && b[k] == x;
        lemma_counts_remove(b, k, sport);
        assert(rest.to_multiset() =~= b.remove(k).to_multiset()) by {
            assert(a.to_multiset() =~= rest.to_multiset().insert(x));
            assert(b.remove(k).to_multiset() =~= b.to_multiset().remove(x));
        }
        lemma_counts_reordered(rest, b.remove(k), sport);
    }
}

/// A line of `infos` has the name and counts of `line`.
pub open spec fn has_same_line(infos: Seq<SportInfo>, line: SportInfo) -> bool {
    exists|k: int|
        0 <= k < infos.len() && (#[trigger] infos[k]).name@ == line.name@ && infos[k].event_count
            == line.event_count && infos[k].session_count == line.session_count
}

/// Law: the dashboard summary does not depend on the order of the events:
/// summaries of two orderings of the same events hold the same lines, each
/// line of one having its equal in the other.
pub proof fn lemma_sport_summary_order_free(
    events: Seq<Event>,
    reordered: Seq<Event>,
    summary: Seq<SportInfo>,
    reordered_summary: Seq<SportInfo>,
)
    requires
        events.to_multiset() == reordered.to_multiset(),
        is_sport_summary(events, summary),
        is_sport_summary(reordered, reordered_summary),
    ensures
        forall|j: int| 0 <= j < summary.len() ==> has_same_line(reordered_summary, #[trigger] summary[j]),
        forall|j: int|
            0 <= j < reordered_summary.len() ==> has_same_line(summary, #[trigger] reordered_summary[j]),
{
    lemma_summary_lines_carry_over(events, reordered, summary, reordered_summary);
    lemma_summary_lines_carry_over(reordered, events, reordered_summary, summary);
}

/// Law: the number of sessions of each sport does not depend on the order of
/// the events, so the bound under which the dashboard summary is computed
/// holds of an ordering of the events exactly where it holds of another.
pub proof fn lemma_sport_bound_order_free(events: Seq<Event>, reordered: Seq<Event>)
    requires
        events.to_multiset() == reordered.to_multiset(),
    ensures
        forall|sport: Seq<char>|
            #[trigger] sport_session_count(events, sport) == sport_session_count(reordered, sport),
        (forall|sport: Seq<char>| #[trigger] sport_session_count(events, sport) <= i32::MAX) <==> (
        forall|sport: Seq<char>| #[trigger] sport_session_count(reordered, sport) <= i32::MAX),
{
    assert forall|sport: Seq<char>|
        #[trigger] sport_session_count(events, sport) == sport_session_count(reordered, sport) by {
        lemma_counts_reordered(events, reordered, sport);
    }
    if forall|sport: Seq<char>| #[trigger] sport_session_count(events, sport) <= i32::MAX {
        assert forall|sport: Seq<char>| #[trigger] sport_session_count(reordered, sport) <= i32::MAX by {
            lemma_counts_reordered(events, reordered, sport);
        }
    }
    if forall|sport: Seq<char>| #[trigger] sport_session_count(reordered, sport) <= i32::MAX {
        assert forall|sport: Seq<char>| #[trigger] sport_session_count(events, sport) <= i32::MAX by {
            lemma_counts_reordered(events, reordered, sport);
        }
    }
}

proof fn lemma_summary_lines_carry_over(
    events: Seq<Event>,
    reordered: Seq<Event>,
    summary: Seq<SportInfo>,
    reordered_summary: Seq<SportInfo>,
)
    requires
        events.to_multiset() == reordered.to_multiset(),
        is_sport_summary(events, summary),
        is_sport_summary(reordered, reordered_summary),
    ensures
        forall|j: int| 0 <= j < summary.len() ==> has_same_line(reordered_summary, #[trigger] summary[j]),
{
    broadcast use vstd::seq_lib::group_to_multiset_ensures;

    assert forall|j: int| 0 <= j < summary.len() implies has_same_line(
        reordered_summary,
        #[trigger] summary[j],
    ) by {
        let name = summary[j].name@;
        assert(has_sport(events, name));
        let w = choose|w: int| 0 <= w < events.len() && #[trigger] events[w].sport@ == name;
        assert(events.to_multiset().count(events[w]) > 0) by {
            assert(events.contains(events[w]));
        }
        assert(reordered.contains(events[w]));
        let v = choose|v: int| 0 <= v < reordered.len() && reordered[v] == events[w];
        assert(reordered[v].sport@ == name);
        assert(has_line(reordered_summary, reordered[v].sport@));
        let k = choose|k: int| 0 <= k < reordered_summary.len() && #[trigger] reordered_summary[k].name@ == name;
        lemma_counts_reordered(events, reordered, name);
        assert(reordered_summary[k].name@ == summary[j].name@);
    }
}

/// The position of the line of `infos` for the sport `sport`, if there is one.
fn find_sport(infos: &Vec<SportInfo>, sport: &str) -> (r: Option<usize>)
    ensures
        match r {
            Some(j) => j < infos@.len() && infos@[j as int].name@ == sport@,
            None => forall|k: int| 0 <= k < infos@.len() ==> infos@[k].name@ != sport@,
        },
{
    let mut j: usize = 0;
    while j < infos.len()
        invariant
            j <= infos@.len(),
            forall|k: int| 0 <= k < j ==> infos@[k].name@ != sport@,
        decreases infos@.len() - j,
    {
        if same_text(infos[j].name.as_str(), sport) {
            return Some(j);
        }
        j = j + 1;
    }
    None
}

/// The dashboard's summary of the events by sport: for each sport of the
/// events, the number of its events (as `len() as i32` takes it) and of their
/// sessions. The sessions of each sport must be countable in an `i32`.
pub fn get_sport_info(events: &Vec<Event>) -> (r: Vec<SportInfo>)
    requires
        forall|sport: Seq<char>| #[trigger] sport_session_count(events@, sport) <= i32::MAX,
    ensures
        is_sport_summary(events@, r@),
        events@.len() <= i32::MAX ==> summed_event_counts(r@) == events@.len(),
        summed_session_counts(r@) == total_session_count(events@),
{
    let ghost all = events@;
    let mut infos: Vec<SportInfo> = Vec::new();
    let mut counts: Vec<usize> = Vec::new();
    let n = events.len();
    let mut i: usize = 0;
    assert(all.take(0) =~= Seq::<Event>::empty());
    while i < n
        invariant
            i <= n,
            n == all.len(),
            all == events@,
            forall|sport: Seq<char>| #[trigger] sport_session_count(all, sport) <= i32::MAX,
            is_sport_summary(all.take(i as int), infos@),
            counts@.len() == infos@.len(),
            forall|j: int|
                0 <= j < counts@.len() ==> #[trigger] counts@[j] == sport_event_count(
                    all.take(i as int),
                    infos@[j].name@,
                ),
            n <= i32::MAX ==> summed_event_counts(infos@) == i,
            summed_session_counts(infos@) == total_session_count(all.take(i as int)),
        decreases n - i,
    {
        let ghost before = all.take(i as int);
        let ghost old_infos = infos@;
        let event = &events[i];
        assert(all.take(i + 1) =~= before.push(*event));
        proof {
            lemma_sport_prefix(all, i + 1, event.sport@);
            lemma_counts_push(before, *event, event.sport@);
            lemma_sport_count_bounds(before.push(*event), event.sport@);
            lemma_sport_count_bounds(before, event.sport@);
            assert(sport_session_count(all, event.sport@) <= i32::MAX);
        }
        match find_sport(&infos, event.sport.as_str()) {
            Some(j) => {
                let old_info = &infos[j];
                let count = counts[j] + 1;
                assert(old_infos[j as int].event_count == sport_event_count(before, event.sport@) as i32);
                assert(old_info.session_count as int == sport_session_count(before, event.sport@));
                let updated = SportInfo {
                    name: old_info.name.clone(),
                    event_count: count as i32,
                    session_count: old_info.session_count + event.session_count as i32,
                };
                let ghost line = updated;
                infos.set(j, updated);
                counts.set(j, count);
                proof {
                    lemma_summary_step_found(before, *event, old_infos, infos@, j as int);
                    lemma_sums_update(old_infos, j as int, line);
                    assert forall|k: int| 0 <= k < counts@.len() implies #[trigger] counts@[k]
                        == sport_event_count(before.push(*event), infos@[k].name@) by {
                        lemma_counts_push(before, *event, infos@[k].name@);
                        if k != j {
                            assert(infos@[k] == old_infos[k]);
                        }
                    }
                }
            },
            None => {
                proof {
                    assert(!has_sport(before, event.sport@)) by {
                        if has_sport(before, event.sport@) {
                            let w = choose|w: int| 0 <= w < before.len() && #[trigger] before[w].sport@ == event.sport@;
                            assert(has_line(old_infos, before[w].sport@));
                        }
                    }
                }
                let info = SportInfo {
                    name: event.sport.clone(),
                    event_count: 1,
                    session_count: event.session_count as i32,
                };
                proof {
                    lemma_summary_step_new(before, *event, old_infos, info);
                    lemma_sums_push(old_infos, info);
                }
                infos.push(info);
                counts.push(1);
                proof {
                    assert forall|k: int| 0 <= k < counts@.len() implies #[trigger] counts@[k]
                        == sport_event_count(before.push(*event), infos@[k].name@) by {
                        lemma_counts_push(before, *event, infos@[k].name@);
                        if k < old_infos.len() {
                            assert(infos@[k] == old_infos[k]);
                        }
                    }
                }
            },
        }
        i = i + 1;
    }
    assert(all.take(n as int) =~= all);
    infos
}

/// The positions, in order, of the events among the first `n` that are of the
/// sport `sport`, or of all of the first `n` where no sport is asked for.
pub open spec fn selected_events(events: Seq<Event>, sport: Option<Seq<char>>, n: nat) -> Seq<usize>
    decreases n,
{
    if n == 0 {
        Seq::empty()
    } else {
        let before = selected_events(events, sport, (n - 1) as nat);
        if sport is None || events[n - 1].sport@ == sport->0 {
            before.push((n - 1) as usize)
        } else {
            before
        }
    }
}

/// The event list shows `event` under the filter `sport`: every event where
/// no sport is asked for, and otherwise one whose sport name equals the
/// asked-for name, every character of it.
pub open spec fn shown_under(event: Event, sport: Option<Seq<char>>) -> bool {
    match sport {
        None => true,
        Some(name) => event.sport@ =~= name,
    }
}

/// The position `i` occurs in `positions`.
pub open spec fn lists_position(positions: Seq<usize>, i: int) -> bool {
    exists|k: int| 0 <= k < positions.len() && positions[k] == i
}

/// Law: the selection of the event list holds, in increasing order, exactly
/// the positions among the first `n` whose event is of the asked-for sport,
/// its name equal to the asked-for name character for character, or every
/// position where no sport is asked for.
pub proof fn lemma_selected_events_exact(events: Seq<Event>, sport: Option<Seq<char>>, n: nat)
    requires
        n <= events.len(),
        n <= usize::MAX,
    ensures
        forall|k: int|
            0 <= k < selected_events(events, sport, n).len() ==> #[trigger] selected_events(
                events,
                sport,
                n,
            )[k] < n,
        forall|a: int, b: int|
            0 <= a < b < selected_events(events, sport, n).len() ==> #[trigger] selected_events(
                events,
                sport,
                n,
            )[a] < #[trigger] selected_events(events, sport, n)[b],
        forall|i: int|
            0 <= i < n ==> (lists_position(selected_events(events, sport, n), i) <==> shown_under(
                #[trigger] events[i],
                sport,
            )),
    decreases n,
{
    if n > 0 {
        let m = (n - 1) as nat;
        lemma_selected_events_exact(events, sport, m);
        let before = selected_events(events, sport, m);
        let after = selected_events(events, sport, n);
        if sport is None || events[m as int].sport@ == sport->0 {
            assert(after =~= before.push(m as usize));
        } else {
            assert(after =~= before);
        }
        assert forall|i: int| 0 <= i < n implies (lists_position(after, i) <==> shown_under(
            #[trigger] events[i],
            sport,
        )) by {
            let sel = shown_under(events[i], sport);
            if i < m {
                assert(lists_position(before, i) <==> sel);
                if exists|k: int| 0 <= k < after.len() && after[k] == i {
                    let k = choose|k: int| 0 <= k < after.len() && after[k] == i;
                    if k >= before.len() {
                        assert(after[k] == m);
                    }
                    assert(before[k] == i);
                }
                if exists|k: int| 0 <= k < before.len() && before[k] == i {
                    let k = choose|k: int| 0 <= k < before.len() && before[k] == i;
                    assert(after[k] == i);
                }
            } else {
                if sel {
                    assert(after[before.len() as int] == i);
                } else {
                    if exists|k: int| 0 <= k < after.len() && after[k] == i {
                        let k = choose|k: int| 0 <= k < after.len() && after[k] == i;
                        assert(before[k] < m);
                    }
                }
            }
        }
    }
}

/// The events that the event list shows, as positions into `events`: those of
/// the sport `sport_type` where one is asked for, all of them otherwise.
pub fn get_events_query(events: &Vec<Event>, sport_type: Option<&str>) -> (r: Vec<usize>)
    ensures
        r@ == selected_events(events@, sport_type.deep_view(), events@.len()),
        forall|a: int, b: int| 0 <= a < b < r@.len() ==> #[trigger] r@[a] < #[trigger] r@[b],
        forall|k: int| 0 <= k < r@.len() ==> #[trigger] r@[k] < events@.len(),
        forall|i: int|
            0 <= i < events@.len() ==> (lists_position(r@, i) <==> shown_under(
                #[trigger] events@[i],
                sport_type.deep_view(),
            )),
{
    let n = events.len();
    proof {
        lemma_selected_events_exact(events@, sport_type.deep_view(), events@.len());
    }
    let mut r: Vec<usize> = Vec::new();
    let mut i: usize = 0;
    while i < n
        invariant
            i <= n,
            n == events@.len(),
            r@ == selected_events(events@, sport_type.deep_view(), i as nat),
        decreases n - i,
    {
        let keep = match sport_type {
            Some(sport) => same_text(events[i].sport.as_str(), sport),
            None => true,
        };
        if keep {
            r.push(i);
        }
        i = i + 1;
    }
    r
}

/// The session that the value of the session cookie names in the store, as
/// `Session::get_sesssion_from_cookies` finds it.
pub fn get_sesssion_from_cookies(cookie_value: Option<&str>, session_store: &SessionStore) -> (r: Option<
    Session,
>)
    requires
        session_store.well_formed(),
    ensures
        match cookie_value {
            Some(v) => match r {
                Some(s) => session_store@.contains_key(v@) && s@ == session_store@[v@],
                None => !session_store@.contains_key(v@),
            },
            None => r is None,
        },
{
    Session::get_sesssion_from_cookies(cookie_value, session_store)
}

/// Which session a request carries, by its session cookie.
#[derive(Debug, Clone, PartialEq)]
pub enum RequestSession {
    /// The cookie names a session that was due for renewal; this is the
    /// renewed session, whose cookie replaces the old one.
    Renewed(Session),
    /// The cookie names this session, which is kept as it is.
    Current(Session),
    /// No cookie, or one that names no session: the request goes on to the
    /// routes for visitors who are not logged in.
    Forward,
}

/// At time `now`, with the store `before` renewing sessions within `period` of
/// their expiry: the resolution `r` of a request with the session cookie
/// value `cookie`, leaving the store `after`. A cookie naming a stored session
/// that is due for renewal gives the renewed session (same user, expiring
/// `SESSION_DURATION_NANOS` after `now`) in place of the old one; one naming a
/// session that is not due gives that session; no cookie, or one naming no
/// session, forwards the request. Only a renewal changes the store.
pub open spec fn resolved_at(
    before: Map<Seq<char>, SessionView>,
    period: int,
    cookie: Option<Seq<char>>,
    now: int,
    r: RequestSession,
    after: Map<Seq<char>, SessionView>,
) -> bool {
    match cookie {
        Some(v) if before.contains_key(v) => {
            let current = before[v];
            if close_to_expiry(current.expires, now, period) {
                &&& r matches RequestSession::Renewed(s)
                &&& s@.user == current.user
                &&& s@.expires == now + SESSION_DURATION_NANOS
                &&& after == before.insert(s@.id, s@).remove(v)
            } else {
                &&& r matches RequestSession::Current(s)
                &&& s@ == current
                &&& after == before
            }
        },
        _ => r is Forward && after == before,
    }
}

/// At time `now`, the session that a request with the session cookie value
/// `cookie_value` carries: the stored session it names, renewed under the id
/// `new_id` where it is due for renewal.
pub fn resolve_request_session_at(
    session_store: &mut SessionStore,
    cookie_value: Option<&str>,
    now: i128,
    new_id: String,
) -> (r: RequestSession)
    requires
        old(session_store).well_formed(),
        representable(now as int),
    ensures
        final(session_store).well_formed(),
        final(session_store).renewal_period() == old(session_store).renewal_period(),
        resolved_at(
            old(session_store)@,
            old(session_store).renewal_period(),
            cookie_value.deep_view(),
            now as int,
            r,
            final(session_store)@,
        ),
        r matches RequestSession::Renewed(s) ==> s@.id == new_id@,
{
    proof {
        session_store.lemma_sessions_under_own_id();
    }
    match Session::get_sesssion_from_cookies(cookie_value, session_store) {
        Some(session) => match session_store.renew_if_close_to_expiry_at(&session, new_id, now) {
            Some(renewed) => RequestSession::Renewed(renewed),
            None => RequestSession::Current(session),
        },
        None => RequestSession::Forward,
    }
}

/// The session that a request with the session cookie value `cookie_value`
/// carries, as `resolve_request_session_at` resolves it at the current time
/// with a fresh random id.
pub fn resolve_request_session(session_store: &mut SessionStore, cookie_value: Option<&str>) -> (r:
    RequestSession)
    requires
        old(session_store).well_formed(),
    ensures
        final(session_store).well_formed(),
        final(session_store).renewal_period() == old(session_store).renewal_period(),
        exists|t: int|
            representable(t) && #[trigger] resolved_at(
                old(session_store)@,
                old(session_store).renewal_period(),
                cookie_value.deep_view(),
                t,
                r,
                final(session_store)@,
            ),
        r matches RequestSession::Renewed(s) ==> is_session_id(s@.id),
{
    let now = now_nanos();
    let new_id = Session::generate_session_id();
    resolve_request_session_at(session_store, cookie_value, now, new_id)
}

/// At time `now`, starts a session for `user` under the id `id`, expiring
/// `SESSION_DURATION_NANOS` after `now`: keeps it in the store and returns it.
pub fn start_session_at(session_store: &mut SessionStore, user: UserWithPlaintextPassword, id: String, now: i128)
    -> (r: Session)
    requires
        old(session_store).well_formed(),
        representable(now as int),
    ensures
        final(session_store).well_formed(),
        final(session_store).renewal_period() == old(session_store).renewal_period(),
        r@ == (SessionView { id: id@, user: user, expires: now + SESSION_DURATION_NANOS }),
        final(session_store)@ == old(session_store)@.insert(r@.id, r@),
{
    let session = Session::new_with_user_at(user, id, now);
    session_store.add(session.duplicate());
    session
}

/// Starts a session for `user` at the current time under a fresh random id,
/// as `start_session_at` does.
pub fn start_session(session_store: &mut SessionStore, user: UserWithPlaintextPassword) -> (r: Session)
    requires
        old(session_store).well_formed(),
    ensures
        final(session_store).well_formed(),
        final(session_store).renewal_period() == old(session_store).renewal_period(),
        exists|t: int| representable(t) && #[trigger] (t + SESSION_DURATION_NANOS) == r@.expires,
        r@.user == user,
        is_session_id(r@.id),
        final(session_store)@ == old(session_store)@.insert(r@.id, r@),
{
    let now = now_nanos();
    let id = Session::generate_session_id();
    let r = start_session_at(session_store, user, id, now);
    assert(now + SESSION_DURATION_NANOS == r@.expires);
    r
}

/// Logs out the visitor whose session cookie value is `cookie_value`: drops
/// the session it names from the store, if there is one, and says whether the
/// cookie is to be removed; the browser goes to the start page with a success
/// message either way.
pub fn logout_user(session_store: &mut SessionStore, cookie_value: Option<&str>) -> (r: (bool, FlashRedirect))
    requires
        old(session_store).well_formed(),
    ensures
        final(session_store).well_formed(),
        final(session_store).renewal_period() == old(session_store).renewal_period(),
        match cookie_value {
            Some(v) if old(session_store)@.contains_key(v@) => r.0 && final(session_store)@ == old(
                session_store,
            )@.remove(v@),
            _ => !r.0 && final(session_store)@ == old(session_store)@,
        },
        r.1.kind == FlashKind::Success,
        r.1.target@ == "/"@,
        r.1.message@ == "Successfully logged out."@,
{
    proof {
        session_store.lemma_sessions_under_own_id();
    }
    let found = match Session::get_sesssion_from_cookies(cookie_value, session_store) {
        Some(session) => {
            session_store.remove(session.get_id());
            true
        },
        None => false,
    };
    let flash = FlashRedirect {
        kind: FlashKind::Success,
        target: "/".to_owned(),
        message: "Successfully logged out.".to_owned(),
    };
    (found, flash)
}

/// The next step of storing a list of session edits one request at a time.
#[derive(Debug, PartialEq)]
pub enum UpdateStep {
    /// Send the request at this position.
    Send(usize),
    /// Stop: the result of the whole update.
    Finished(Result<(), Error>),
}

/// After `sent` of `count` requests went out, the last with the result
/// `last`: stop at the first failure, send the next request while there is
/// one, and report success once all went through.
pub fn update_sessions_step(count: usize, sent: usize, last: Result<(), Error>) -> (r: UpdateStep)
    requires
        sent <= count,
    ensures
        match last {
            Err(e) => r == UpdateStep::Finished(Err::<(), Error>(e)),
            Ok(_) => if sent < count {
                r == UpdateStep::Send(sent)
            } else {
                r == UpdateStep::Finished(Ok::<(), Error>(()))
            },
        },
{
    match last {
        Err(e) => UpdateStep::Finished(Err(e)),
        Ok(_) => if sent < count {
            UpdateStep::Send(sent)
        } else {
            UpdateStep::Finished(Ok(()))
        },
    }
}

/// Whether a flash message reports success or an error.
#[derive(Debug, Clone, Copy, PartialEq, Eq)]
pub enum FlashKind {
    Success,
    Error,
}

/// A redirect that carries a flash message to the page it leads to.
#[derive(Debug, Clone, PartialEq)]
pub struct FlashRedirect {
    pub kind: FlashKind,
    pub target: String,
    pub message: String,
}

/// The page that reports an internal error.
pub open spec fn error_page() -> Seq<char> {
    "/500_error.html"@
}

/// The page of one event.
pub open spec fn event_page(event_id: i32) -> Seq<char> {
    "/events/"@ + int_decimal(event_id as int)
}

/// The redirect after a call to the API: to `target` with `success` where the
/// call succeeded, to the error page with `failure`, a line break and the
/// error's text where it failed.
pub open spec fn is_outcome(
    r: FlashRedirect,
    result: Result<(), Error>,
    target: Seq<char>,
    success: Seq<char>,
    failure: Seq<char>,
) -> bool {
    match result {
        Ok(_) => r.kind == FlashKind::Success && r.target@ == target && r.message@ == success,
        Err(e) => r.kind == FlashKind::Error && r.target@ == error_page() && r.message@ == failure + "\n"@
            + error_text(e),
    }
}

fn outcome(result: &Result<(), Error>, target: String, success: &str, failure: &str) -> (r:
    FlashRedirect)
    ensures
        is_outcome(r, *result, target@, success@, failure@),
{
    match result {
        Ok(_) => FlashRedirect { kind: FlashKind::Success, target, message: success.to_owned() },
        Err(e) => {
            let mut message = failure.to_owned();
            message.append("\n");
            let text = e.message();
            message.append(text.as_str());
            FlashRedirect { kind: FlashKind::Error, target: "/500_error.html".to_owned(), message }
        },
    }
}

fn event_page_of(event_id: i32) -> (r: String)
    ensures
        r@ == event_page(event_id),
{
    let mut page = "/events/".to_owned();
    let id = i32_decimal(event_id);
    page.append(id.as_str());
    page
}

/// Where the event form sends the browser after the API was asked to create
/// the event.
pub fn create_event(result: &Result<(), Error>) -> (r: FlashRedirect)
    ensures
        is_outcome(r, *result, "/events"@, "Event successfully created!"@, "Error updating event!"@),
{
    outcome(result, "/events".to_owned(), "Event successfully created!", "Error updating event!")
}

/// Where the session form sends the browser after the API was asked to add
/// the session to the event `event_id`.
pub fn create_session(event_id: i32, result: &Result<(), Error>) -> (r: FlashRedirect)
    ensures
        is_outcome(
            r,
            *result,
            event_page(event_id),
            "Session successfully created!"@,
            "Error updating event!"@,
        ),
{
    outcome(result, event_page_of(event_id), "Session successfully created!", "Error updating event!")
}

/// Where the edit form sends the browser after the API was asked to store the
/// edit of the event `event_id`.
pub fn update_event(event_id: i32, result: &Result<(), Error>) -> (r: FlashRedirect)
    ensures
        is_outcome(
            r,
            *result,
            event_page(event_id),
            "Event successfully updated!"@,
            "Error updating event!"@,
        ),
{
    outcome(result, event_page_of(event_id), "Event successfully updated!", "Error updating event!")
}

/// Where the session edit form sends the browser after the API was asked to
/// store the edits of the sessions of the event `event_id` (the first failed
/// call, if any, being `result`).
pub fn update_sessions(event_id: i32, result: &Result<(), Error>) -> (r: FlashRedirect)
    ensures
        is_outcome(
            r,
            *result,
            event_page(event_id),
            "Sessions successfully updated!"@,
            "Error updating event!"@,
        ),
{
    outcome(result, event_page_of(event_id), "Sessions successfully updated!", "Error updating event!")
}

/// Where deleting an event sends the browser.
pub fn delete_event(result: &Result<(), Error>) -> (r: FlashRedirect)
    ensures
        is_outcome(r, *result, "/events"@, "Event successfully deleted!"@, "Error deleting event!"@),
{
    outcome(result, "/events".to_owned(), "Event successfully deleted!", "Error deleting event!")
}

/// Where deleting a session of the event `event_id` sends the browser.
pub fn delete_session(event_id: i32, result: &Result<(), Error>) -> (r: FlashRedirect)
    ensures
        is_outcome(
            r,
            *result,
            event_page(event_id),
            "Event successfully deleted!"@,
            "Error deleting event!"@,
        ),
{
    outcome(result, event_page_of(event_id), "Event successfully deleted!", "Error deleting event!")
}

/// The redirect of a refused login: back to the start page with an error
/// message.
pub open spec fn is_login_refusal(f: FlashRedirect) -> bool {
    &&& f.kind == FlashKind::Error
    &&& f.target@ == "/"@
    &&& f.message@ == "Invalid username or password"@
}

fn login_refusal() -> (r: FlashRedirect)
    ensures
        is_login_refusal(r),
{
    FlashRedirect {
        kind: FlashKind::Error,
        target: "/".to_owned(),
        message: "Invalid username or password".to_owned(),
    }
}

/// At time `now`, logs `user` in after the API answered the check of the
/// credentials with `result`. Where they were accepted, a session for `user`
/// under the id `id`, expiring `SESSION_DURATION_NANOS` after `now`, is kept in
/// the store and returned with the dashboard to go to; where they were not,
/// the store is left as it is and the browser goes back to the start page with
/// an error message.
pub fn login_user_at(
    session_store: &mut SessionStore,
    user: UserWithPlaintextPassword,
    result: &Result<(), Error>,
    id: String,
    now: i128,
) -> (r: Result<(Session, String), FlashRedirect>)
    requires
        old(session_store).well_formed(),
        representable(now as int),
    ensures
        final(session_store).well_formed(),
        final(session_store).renewal_period() == old(session_store).renewal_period(),
        match result {
            Ok(_) => r matches Ok((s, target)) && target@ == "/dashboard"@
                && s@ == (SessionView { id: id@, user: user, expires: now + SESSION_DURATION_NANOS })
                && final(session_store)@ == old(session_store)@.insert(s@.id, s@),
            Err(_) => r matches Err(f) && is_login_refusal(f)
                && final(session_store)@ == old(session_store)@,
        },
{
    match result {
        Ok(_) => {
            let session = start_session_at(session_store, user, id, now);
            Ok((session, "/dashboard".to_owned()))
        },
        Err(_) => Err(login_refusal()),
    }
}

/// Logs `user` in after the API answered the check of the credentials with
/// `result`, as `login_user_at` does at the current time with a fresh random
/// id: where they were accepted, a new session for `user` is kept in the store
/// and returned with the dashboard to go to; where they were not, the store
/// is left as it is and the browser goes back to the start page with an error
/// message.
pub fn login_user(session_store: &mut SessionStore, user: UserWithPlaintextPassword, result: &Result<(), Error>)
    -> (r: Result<(Session, String), FlashRedirect>)
    requires
        old(session_store).well_formed(),
    ensures
        final(session_store).well_formed(),
        final(session_store).renewal_period() == old(session_store).renewal_period(),
        match result {
            Ok(_) => r matches Ok((s, target)) && target@ == "/dashboard"@ && s@.user == user
                && is_session_id(s@.id)
                && (exists|t: int| representable(t) && #[trigger] (t + SESSION_DURATION_NANOS) == s@.expires)
                && final(session_store)@ == old(session_store)@.insert(s@.id, s@),
            Err(_) => r matches Err(f) && is_login_refusal(f)
                && final(session_store)@ == old(session_store)@,
        },
{
    match result {
        Ok(_) => {
            let session = start_session(session_store, user);
            Ok((session, "/dashboard".to_owned()))
        },
        Err(_) => Err(login_refusal()),
    }
}

} // verus!
