//! What the forms of the website submit: event edits, new sessions and a
//! list of session edits, and how a list of session edits is read from the
//! raw fields of a form.
use vstd::prelude::*;
use vstd::string::*;
use crate::decimal::{nat_decimal, parse_i32, parsed_i32, u64_decimal};
use crate::text::{joined, same_text};
use crate::time::{parse_naive_datetime, parsed_naive_datetime, FORM_DATETIME_FORMAT};
use crate::urlcode::{percent_decode, percent_decoded, url_decode, url_decoded};

verus! {

/// The fields of an event that the edit form changes.
#[derive(Debug, Clone, PartialEq)]
pub struct EventUpdate {
    pub sport: String,
    pub title: String,
    pub country: String,
    pub location: String,
    pub track: String,
}

/// A new event carries the same fields as an edit.
pub type NewEvent = EventUpdate;

/// A date and time without a time zone: the seconds since 1970-01-01T00:00:00
/// and the nanoseconds past that second, which reach `1_000_000_000` or more
/// only on a leap second (a time whose seconds read `60`).
#[derive(Debug, Clone, Copy, PartialEq, Eq)]
pub struct DtWrapper(pub i64, pub u32);

/// The new name and time of one session of an event.
#[derive(Debug, Clone, PartialEq)]
pub struct SessionUpdate {
    pub name: String,
    pub time: DtWrapper,
}

/// Edits of several sessions at once, each with the id of the session.
#[derive(Debug, Clone, PartialEq)]
pub struct SessionsUpdate {
    pub sessions: Vec<(i32, SessionUpdate)>,
}

/// A session to add to an event, with its time as the form gave it.
#[derive(Debug, Clone, PartialEq)]
pub struct NewSession {
    pub name: String,
    pub time: String,
}

/// One `key=value` field of a submitted form, both parts as they arrived
/// (still URL-encoded).
#[derive(Debug, Clone, PartialEq)]
pub struct FormItem {
    pub key: String,
    pub value: String,
}

/// A session edit as plain values: the session's id, its name and its time.
pub open spec fn session_entry(u: (i32, SessionUpdate)) -> (i32, Seq<char>, (i64, u32)) {
    (u.0, u.1.name@, (u.1.time.0, u.1.time.1))
}

/// The key of the id field of the `g`-th session in the edit form.
pub open spec fn id_key(g: nat) -> Seq<char> {
    "id_"@ + nat_decimal(g)
}

/// The key of the name field of the `g`-th session in the edit form.
pub open spec fn name_key(g: nat) -> Seq<char> {
    "name_"@ + nat_decimal(g)
}

/// The key of the time field of the `g`-th session in the edit form.
pub open spec fn time_key(g: nat) -> Seq<char> {
    "time_"@ + nat_decimal(g)
}

/// The value of a field whose key is `key`, taken as it stands where the
/// form's values were decoded already (`decoded`) and URL-decoded otherwise;
/// `None` for another key.
pub open spec fn field_value(item: FormItem, key: Seq<char>, decoded: bool) -> Option<Seq<char>> {
    if item.key@ == key {
        if decoded {
            Some(item.value@)
        } else {
            url_decoded(item.value@)
        }
    } else {
        None
    }
}

/// The URL-decoded value of a field whose key is `key`; `None` for another key.
pub open spec fn value_for_key(item: FormItem, key: Seq<char>) -> Option<Seq<char>> {
    field_value(item, key, false)
}

/// A field with another key, or one whose value decodes. Reading a field
/// with the expected key and a value that does not decode is refused.
pub open spec fn decodable_for_key(item: FormItem, key: Seq<char>) -> bool {
    item.key@ == key ==> url_decoded(item.value@) is Some
}

/// The id that a field with key `key` holds.
pub open spec fn id_in_field(item: FormItem, key: Seq<char>, decoded: bool) -> Option<i32> {
    match field_value(item, key, decoded) {
        Some(text) => parsed_i32(text),
        None => None,
    }
}

/// The date-time that a field with key `key` holds, in the form's format.
pub open spec fn time_in_field(item: FormItem, key: Seq<char>, decoded: bool) -> Option<(i64, u32)> {
    match field_value(item, key, decoded) {
        Some(text) => parsed_naive_datetime(text, FORM_DATETIME_FORMAT@),
        None => None,
    }
}

/// The id that a field with key `key` holds, its value URL-decoded.
pub open spec fn id_for_key(item: FormItem, key: Seq<char>) -> Option<i32> {
    id_in_field(item, key, false)
}

/// The date-time that a field with key `key` holds, its value URL-decoded.
pub open spec fn time_for_key(item: FormItem, key: Seq<char>) -> Option<(i64, u32)> {
    time_in_field(item, key, false)
}

/// How many groups of five fields the edit form is read in: a group is read
/// while its first three fields are there.
pub open spec fn group_count(n: nat) -> nat {
    (n + 2) / 5
}

/// The session edit that the `g`-th group of fields holds, if its id, name and
/// time fields carry the expected keys and readable values.
pub open spec fn group_entry(items: Seq<FormItem>, g: nat, decoded: bool) -> Option<
    (i32, Seq<char>, (i64, u32)),
> {
    let id = id_in_field(items[5 * g as int], id_key(g), decoded);
    let name = field_value(items[5 * g as int + 1], name_key(g), decoded);
    let time = time_in_field(items[5 * g as int + 2], time_key(g), decoded);
    if id is Some && name is Some && time is Some {
        Some((id->0, name->0, time->0))
    } else {
        None
    }
}

/// The fields of the `g`-th group can be read without refusal.
pub open spec fn group_decodable(items: Seq<FormItem>, g: nat) -> bool {
    &&& decodable_for_key(items[5 * g as int], id_key(g))
    &&& decodable_for_key(items[5 * g as int + 1], name_key(g))
    &&& decodable_for_key(items[5 * g as int + 2], time_key(g))
}

/// The session edits held by the first `count` groups, in order, skipping the
/// groups that hold none.
pub open spec fn group_entries(items: Seq<FormItem>, count: nat, decoded: bool) -> Seq<
    (i32, Seq<char>, (i64, u32)),
>
    decreases count,
{
    if count == 0 {
        Seq::empty()
    } else {
        let before = group_entries(items, (count - 1) as nat, decoded);
        match group_entry(items, (count - 1) as nat, decoded) {
            Some(e) => before.push(e),
            None => before,
        }
    }
}

/// The session edits that a whole form holds, its values URL-decoded.
pub open spec fn form_entries(items: Seq<FormItem>) -> Seq<(i32, Seq<char>, (i64, u32))> {
    group_entries(items, group_count(items.len()), false)
}

/// The session edits that a whole form holds whose values were decoded already.
pub open spec fn decoded_form_entries(items: Seq<FormItem>) -> Seq<(i32, Seq<char>, (i64, u32))> {
    group_entries(items, group_count(items.len()), true)
}

/// Every group of a form can be read without refusal.
pub open spec fn form_decodable(items: Seq<FormItem>) -> bool {
    forall|g: nat| g < group_count(items.len()) ==> #[trigger] group_decodable(items, g)
}

fn field_key(prefix: &str, g: usize) -> (r: String)
    ensures
        r@ == prefix@ + nat_decimal(g as nat),
{
    let digits = u64_decimal(g as u64);
    joined(prefix, digits.as_str())
}

/// The value of a field with the key `key_name`: as it stands where the
/// form's values were decoded already, URL-decoded otherwise.
fn value_of_field(item: &FormItem, key_name: &str, decoded: bool) -> (r: Option<String>)
    requires
        decoded || decodable_for_key(*item, key_name@),
    ensures
        r.deep_view() == field_value(*item, key_name@, decoded),
{
    if same_text(item.key.as_str(), key_name) {
        if decoded {
            Some(item.value.clone())
        } else {
            url_decode(item.value.as_str())
        }
    } else {
        None
    }
}

fn id_of_field(item: &FormItem, key_name: &str, decoded: bool) -> (r: Option<i32>)
    requires
        decoded || decodable_for_key(*item, key_name@),
    ensures
        r == id_in_field(*item, key_name@, decoded),
{
    match value_of_field(item, key_name, decoded) {
        Some(text) => parse_i32(text.as_str()),
        None => None,
    }
}

fn time_of_field(item: &FormItem, key_name: &str, decoded: bool) -> (r: Option<DtWrapper>)
    requires
        decoded || decodable_for_key(*item, key_name@),
    ensures
        match r {
            Some(t) => time_in_field(*item, key_name@, decoded) == Some((t.0, t.1)),
            None => time_in_field(*item, key_name@, decoded) is None,
        },
{
    match value_of_field(item, key_name, decoded) {
        Some(text) => match parse_naive_datetime(text.as_str(), FORM_DATETIME_FORMAT) {
            Some((secs, nanos)) => Some(DtWrapper(secs, nanos)),
            None => None,
        },
        None => None,
    }
}

/// The id held by a field with the key `key_name`: its URL-decoded value read
/// as an `i32`.
pub fn get_id_from_form_item(item: &FormItem, key_name: &str) -> (r: Option<i32>)
    requires
        decodable_for_key(*item, key_name@),
    ensures
        r == id_for_key(*item, key_name@),
{
    id_of_field(item, key_name, false)
}

/// The URL-decoded value of a field with the key `key_name`.
pub fn get_name_from_form_item(item: &FormItem, key_name: &str) -> (r: Option<String>)
    requires
        decodable_for_key(*item, key_name@),
    ensures
        r.deep_view() == value_for_key(*item, key_name@),
{
    value_of_field(item, key_name, false)
}

/// The date-time held by a field with the key `key_name`, in the form's
/// `%Y-%m-%dT%H:%M:%S` format.
pub fn get_time_from_form_item(item: &FormItem, key_name: &str) -> (r: Option<DtWrapper>)
    requires
        decodable_for_key(*item, key_name@),
    ensures
        match r {
            Some(t) => time_for_key(*item, key_name@) == Some((t.0, t.1)),
            None => time_for_key(*item, key_name@) is None,
        },
{
    time_of_field(item, key_name, false)
}

/// The id held by a field with the key `key_name`, as `get_id_from_form_item`
/// reads it, or `None` where the field has that key and a value that does not
/// URL-decode, which `get_id_from_form_item` refuses.
pub fn get_id_from_form_item_checked(item: &FormItem, key_name: &str) -> (r: Option<Option<i32>>)
    ensures
        r is Some <==> decodable_for_key(*item, key_name@),
        r matches Some(id) ==> id == id_for_key(*item, key_name@),
{
    if same_text(item.key.as_str(), key_name) && url_decode(item.value.as_str()).is_none() {
        None
    } else {
        Some(get_id_from_form_item(item, key_name))
    }
}

/// The URL-decoded value of a field with the key `key_name`, as
/// `get_name_from_form_item` reads it, or `None` where the field has that key
/// and a value that does not URL-decode, which `get_name_from_form_item`
/// refuses.
pub fn get_name_from_form_item_checked(item: &FormItem, key_name: &str) -> (r: Option<Option<String>>)
    ensures
        r is Some <==> decodable_for_key(*item, key_name@),
        r matches Some(name) ==> name.deep_view() == value_for_key(*item, key_name@),
{
    if same_text(item.key.as_str(), key_name) && url_decode(item.value.as_str()).is_none() {
        None
    } else {
        Some(get_name_from_form_item(item, key_name))
    }
}

/// The date-time held by a field with the key `key_name`, as
/// `get_time_from_form_item` reads it, or `None` where the field has that key
/// and a value that does not URL-decode, which `get_time_from_form_item`
/// refuses.
pub fn get_time_from_form_item_checked(item: &FormItem, key_name: &str) -> (r: Option<Option<DtWrapper>>)
    ensures
        r is Some <==> decodable_for_key(*item, key_name@),
        r matches Some(time) ==> match time {
            Some(t) => time_for_key(*item, key_name@) == Some((t.0, t.1)),
            None => time_for_key(*item, key_name@) is None,
        },
{
    if same_text(item.key.as_str(), key_name) && url_decode(item.value.as_str()).is_none() {
        None
    } else {
        Some(get_time_from_form_item(item, key_name))
    }
}

/// The number of groups of five that a form of `n` fields is read in.
fn count_groups(n: usize) -> (r: usize)
    ensures
        r == group_count(n as nat),
        r * 5 <= n + 2,
{
    n / 5 + (if n % 5 >= 3 { 1 } else { 0 })
}

impl DtWrapper {
    /// Reads a date-time form value: percent-decodes it, then parses it in the
    /// form's `%Y-%m-%dT%H:%M:%S` format.
    pub fn from_form_value(form_value: &str) -> (r: Result<DtWrapper, ()>)
        ensures
            match percent_decoded(form_value@) {
                Some(text) => match parsed_naive_datetime(text, FORM_DATETIME_FORMAT@) {
                    Some((secs, nanos)) => r == Ok::<DtWrapper, ()>(DtWrapper(secs, nanos)),
                    None => r is Err,
                },
                None => r is Err,
            },
    {
        if let Some(value) = percent_decode(form_value) {
            if let Some((secs, nanos)) = parse_naive_datetime(value.as_str(), FORM_DATETIME_FORMAT) {
                return Ok(DtWrapper(secs, nanos));
            }
        }
        Err(())
    }
}

impl SessionsUpdate {
    /// Reads the session edits from the fields of a form, in groups of five,
    /// their values taken as they stand where `decoded`, URL-decoded otherwise.
    fn read_groups(items: &Vec<FormItem>, decoded: bool) -> (r: SessionsUpdate)
        requires
            decoded || form_decodable(items@),
        ensures
            r.sessions@.map_values(|u: (i32, SessionUpdate)| session_entry(u)) == group_entries(
                items@,
                group_count(items@.len()),
                decoded,
            ),
    {
        let n = items.len();
        let count = count_groups(n);
        let mut sessions: Vec<(i32, SessionUpdate)> = Vec::new();
        let mut g: usize = 0;
        while g < count
            invariant
                g <= count,
                n == items@.len(),
                count == group_count(n as nat),
                count * 5 <= n + 2,
                decoded || form_decodable(items@),
                sessions@.map_values(|u: (i32, SessionUpdate)| session_entry(u)) == group_entries(
                    items@,
                    g as nat,
                    decoded,
                ),
            decreases count - g,
        {
            assert(decoded || group_decodable(items@, g as nat));
            let id_key_text = field_key("id_", g);
            let name_key_text = field_key("name_", g);
            let time_key_text = field_key("time_", g);
            let base = 5 * g;
            let id = id_of_field(&items[base], id_key_text.as_str(), decoded);
            let name = value_of_field(&items[base + 1], name_key_text.as_str(), decoded);
            let time = time_of_field(&items[base + 2], time_key_text.as_str(), decoded);
            let ghost before = sessions@;
            match (id, name, time) {
                (Some(id), Some(name), Some(time)) => {
                    sessions.push((id, SessionUpdate { name, time }));
                    assert(sessions@.map_values(|u: (i32, SessionUpdate)| session_entry(u))
                        =~= before.map_values(|u: (i32, SessionUpdate)| session_entry(u)).push(
                        (id, name@, (time.0, time.1)),
                    ));
                },
                _ => {},
            }
            g = g + 1;
        }
        SessionsUpdate { sessions }
    }

    /// Reads the session edits of the edit form. The fields come in groups of
    /// five, the `g`-th starting with `id_g`, `name_g` and `time_g` (the other
    /// two are not read); a group is taken while its first three fields are
    /// there, and kept where all three carry the expected keys and readable
    /// values.
    pub fn from_form(items: &Vec<FormItem>) -> (r: Result<SessionsUpdate, ()>)
        requires
            form_decodable(items@),
        ensures
            match r {
                Ok(update) => update.sessions@.map_values(|u: (i32, SessionUpdate)| session_entry(u))
                    == form_entries(items@),
                Err(_) => false,
            },
    {
        Ok(SessionsUpdate::read_groups(items, false))
    }

    /// Reads the session edits, as `from_form` does, from fields whose values
    /// were URL-decoded already.
    pub fn from_decoded_form(items: &Vec<FormItem>) -> (r: SessionsUpdate)
        ensures
            r.sessions@.map_values(|u: (i32, SessionUpdate)| session_entry(u)) == decoded_form_entries(
                items@,
            ),
    {
        SessionsUpdate::read_groups(items, true)
    }

    /// Reads the session edits of the edit form, as `from_form` does, where no
    /// field that is read holds a value that does not URL-decode; `None` where
    /// one does.
    pub fn from_form_checked(items: &Vec<FormItem>) -> (r: Option<SessionsUpdate>)
        ensures
            form_decodable(items@) <==> r is Some,
            match r {
                Some(update) => update.sessions@.map_values(
                    |u: (i32, SessionUpdate)| session_entry(u),
                ) == form_entries(items@),
                None => true,
            },
    {
        let n = items.len();
        let count = count_groups(n);
        let mut g: usize = 0;
        while g < count
            invariant
                g <= count,
                n == items@.len(),
                count == group_count(n as nat),
                count * 5 <= n + 2,
                forall|k: nat| k < g ==> #[trigger] group_decodable(items@, k),
            decreases count - g,
        {
            let base = 5 * g;
            let keys = [field_key("id_", g), field_key("name_", g), field_key("time_", g)];
            let mut j: usize = 0;
            while j < 3
                invariant
                    j <= 3,
                    base == 5 * g,
                    base + 2 < n,
                    n == items@.len(),
                    keys@[0]@ == id_key(g as nat),
                    keys@[1]@ == name_key(g as nat),
                    keys@[2]@ == time_key(g as nat),
                    forall|m: int| 0 <= m < j ==> decodable_for_key(#[trigger] items@[base + m], keys@[m]@),
                decreases 3 - j,
            {
                let item = &items[base + j];
                if same_text(item.key.as_str(), keys[j].as_str()) {
                    if url_decode(item.value.as_str()).is_none() {
                        assert(!group_decodable(items@, g as nat));
                        return None;
                    }
                }
                j = j + 1;
            }
            assert(group_decodable(items@, g as nat)) by {
                assert(decodable_for_key(items@[base + 0], keys@[0]@));
                assert(decodable_for_key(items@[base + 1], keys@[1]@));
                assert(decodable_for_key(items@[base + 2], keys@[2]@));
            }
            g = g + 1;
        }
        match SessionsUpdate::from_form(items) {
            Ok(update) => Some(update),
            Err(_) => None,
        }
    }
}

/// Law: the `g`-th group of the edit form is read through the three field
/// readers, each URL-decoding its value: it gives an edit exactly where the id
/// field reads as `get_id_from_form_item` reads it, the name field as
/// `get_name_from_form_item` and the time field as `get_time_from_form_item`,
/// and then the edit is made of what they read.
pub proof fn lemma_form_group_read_by_fields(items: Seq<FormItem>, g: nat)
    requires
        g < group_count(items.len()),
    ensures
        group_entry(items, g, false) == match (
            id_for_key(items[5 * g as int], id_key(g)),
            value_for_key(items[5 * g as int + 1], name_key(g)),
            time_for_key(items[5 * g as int + 2], time_key(g)),
        ) {
            (Some(id), Some(name), Some(time)) => Some((id, name, time)),
            _ => None,
        },
{
}

/// Law: the session edits that a form yields depend on its keys and on what
/// its values URL-decode to, not on how the values were encoded: two forms
/// with the same keys whose values decode alike (such as `05%3A10%3A00` and
/// `05:10:00`) yield the same edits.
pub proof fn lemma_form_entries_follow_decoded_values(items: Seq<FormItem>, other: Seq<FormItem>)
    requires
        items.len() == other.len(),
        forall|i: int|
            0 <= i < items.len() ==> (#[trigger] items[i]).key@ == other[i].key@ && url_decoded(
                items[i].value@,
            ) == url_decoded(other[i].value@),
    ensures
        form_entries(items) == form_entries(other),
{
    lemma_group_entries_follow_decoded_values(items, other, group_count(items.len()));
}

proof fn lemma_group_entries_follow_decoded_values(items: Seq<FormItem>, other: Seq<FormItem>, count: nat)
    requires
        items.len() == other.len(),
        count <= group_count(items.len()),
        forall|i: int|
            0 <= i < items.len() ==> (#[trigger] items[i]).key@ == other[i].key@ && url_decoded(
                items[i].value@,
            ) == url_decoded(other[i].value@),
    ensures
        group_entries(items, count, false) == group_entries(other, count, false),
    decreases count,
{
    if count > 0 {
        let g = (count - 1) as nat;
        lemma_group_entries_follow_decoded_values(items, other, g);
        assert(5 * g + 2 < items.len());
        assert(items[5 * g as int].key@ == other[5 * g as int].key@);
        assert(items[5 * g as int + 1].key@ == other[5 * g as int + 1].key@);
        assert(items[5 * g as int + 2].key@ == other[5 * g as int + 2].key@);
        assert(group_entry(items, g, false) == group_entry(other, g, false));
    }
}

} // verus!
