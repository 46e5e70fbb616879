use motorsport_calendar_website::model::{
    get_id_from_form_item, get_id_from_form_item_checked, get_name_from_form_item,
    get_name_from_form_item_checked, get_time_from_form_item, get_time_from_form_item_checked,
    DtWrapper, FormItem, SessionsUpdate,
};

fn item(key: &str, value: &str) -> FormItem {
    FormItem { key: key.to_string(), value: value.to_string() }
}

fn ts(text: &str) -> DtWrapper {
    let t = chrono::NaiveDateTime::parse_from_str(text, "%Y-%m-%dT%H:%M:%S").unwrap().and_utc();
    DtWrapper(t.timestamp(), t.timestamp_subsec_nanos())
}

#[test]
fn id_field() {
    assert_eq!(get_id_from_form_item(&item("id_0", "42"), "id_0"), Some(42));
    assert_eq!(get_id_from_form_item(&item("id_0", "-7"), "id_0"), Some(-7));
    assert_eq!(get_id_from_form_item(&item("id_0", "4x"), "id_0"), None);
    assert_eq!(get_id_from_form_item(&item("id_1", "42"), "id_0"), None);
    assert_eq!(get_id_from_form_item(&item("id_0", "%34%32"), "id_0"), Some(42));
}

#[test]
fn name_field_is_url_decoded() {
    assert_eq!(get_name_from_form_item(&item("name_0", "Free+Practice%201"), "name_0"), Some("Free Practice 1".to_string()));
    assert_eq!(get_name_from_form_item(&item("title", "x"), "name_0"), None);
}

#[test]
fn time_field() {
    assert_eq!(
        get_time_from_form_item(&item("time_0", "2019-03-17T05%3A10%3A00"), "time_0"),
        Some(ts("2019-03-17T05:10:00"))
    );
    assert_eq!(get_time_from_form_item(&item("time_0", "yesterday"), "time_0"), None);
    assert_eq!(get_time_from_form_item(&item("time_1", "2019-03-17T05:10:00"), "time_0"), None);
}

#[test]
fn datetime_form_value() {
    assert_eq!(DtWrapper::from_form_value("2019-03-17T05%3A10%3A00"), Ok(ts("2019-03-17T05:10:00")));
    assert_eq!(DtWrapper::from_form_value("2019-03-17T05:10:00"), Ok(DtWrapper(1552799400, 0)));
    assert_eq!(DtWrapper::from_form_value("2019-03-17"), Err(()));
    assert_eq!(DtWrapper::from_form_value("%FF"), Err(()));
}

#[test]
fn leap_second_is_kept() {
    // 23:59:60 is the second after 23:59:59, held as 23:59:59 and one more second of nanoseconds.
    assert_eq!(DtWrapper::from_form_value("2016-12-31T23:59:60"), Ok(DtWrapper(1483228799, 1_000_000_000)));
    assert_ne!(DtWrapper::from_form_value("2016-12-31T23:59:60"), DtWrapper::from_form_value("2016-12-31T23:59:59"));
    assert_eq!(
        get_time_from_form_item(&item("time_0", "2016-12-31T23%3A59%3A60"), "time_0"),
        Some(DtWrapper(1483228799, 1_000_000_000))
    );
}

#[test]
fn checked_field_readers() {
    assert_eq!(get_id_from_form_item_checked(&item("id_0", "%34%32"), "id_0"), Some(Some(42)));
    assert_eq!(get_id_from_form_item_checked(&item("id_0", "%FF"), "id_0"), None);
    assert_eq!(get_id_from_form_item_checked(&item("id_1", "%FF"), "id_0"), Some(None));
    assert_eq!(get_name_from_form_item_checked(&item("name_0", "A+B"), "name_0"), Some(Some("A B".to_string())));
    assert_eq!(get_name_from_form_item_checked(&item("name_0", "%FF"), "name_0"), None);
    assert_eq!(
        get_time_from_form_item_checked(&item("time_0", "2019-03-17T05:10:00"), "time_0"),
        Some(Some(DtWrapper(1552799400, 0)))
    );
    assert_eq!(get_time_from_form_item_checked(&item("time_0", "soon"), "time_0"), Some(None));
    assert_eq!(get_time_from_form_item_checked(&item("time_0", "%FF"), "time_0"), None);
}

fn group(i: usize, id: &str, name: &str, time: &str) -> Vec<FormItem> {
    vec![
        item(&format!("id_{}", i), id),
        item(&format!("name_{}", i), name),
        item(&format!("time_{}", i), time),
        item("date", "ignored"),
        item("other", "ignored"),
    ]
}

#[test]
fn sessions_form_in_groups_of_five() {
    let mut items = group(0, "1", "Race", "2019-03-17T05:10:00");
    items.extend(group(1, "2", "Qualifying", "2019-03-16T06:00:00"));
    let update = SessionsUpdate::from_form(&items).unwrap();
    assert_eq!(update.sessions.len(), 2);
    assert_eq!(update.sessions[0].0, 1);
    assert_eq!(update.sessions[0].1.name, "Race");
    assert_eq!(update.sessions[0].1.time, ts("2019-03-17T05:10:00"));
    assert_eq!(update.sessions[1].0, 2);
    assert_eq!(update.sessions[1].1.name, "Qualifying");
}

#[test]
fn sessions_form_skips_unreadable_groups() {
    let mut items = group(0, "x", "Race", "2019-03-17T05:10:00");
    items.extend(group(1, "2", "Qualifying", "not a time"));
    items.extend(group(2, "3", "Practice", "2019-03-15T06:00:00"));
    let update = SessionsUpdate::from_form(&items).unwrap();
    assert_eq!(update.sessions.len(), 1);
    assert_eq!(update.sessions[0].0, 3);
    assert_eq!(update.sessions[0].1.name, "Practice");
}

#[test]
fn sessions_form_reads_a_short_last_group() {
    // The last group has only its first three fields.
    let mut items = group(0, "1", "Race", "2019-03-17T05:10:00");
    items.push(item("id_1", "2"));
    items.push(item("name_1", "Sprint"));
    items.push(item("time_1", "2019-03-16T06:00:00"));
    let update = SessionsUpdate::from_form(&items).unwrap();
    assert_eq!(update.sessions.len(), 2);
    // With only two of its fields the last group is not read.
    items.pop();
    let update = SessionsUpdate::from_form(&items).unwrap();
    assert_eq!(update.sessions.len(), 1);
}

#[test]
fn sessions_form_keys_follow_group_numbers() {
    // The fields of group 0 carry the keys of group 1.
    let items = group(1, "1", "Race", "2019-03-17T05:10:00");
    let update = SessionsUpdate::from_form(&items).unwrap();
    assert!(update.sessions.is_empty());
    let empty: Vec<FormItem> = Vec::new();
    assert!(SessionsUpdate::from_form(&empty).unwrap().sessions.is_empty());
}

#[test]
fn checked_sessions_form_refuses_undecodable_values() {
    let items = group(0, "1", "Ra%FFce", "2019-03-17T05:10:00");
    assert_eq!(SessionsUpdate::from_form_checked(&items), None);
    // An undecodable value in a field that is not read is no obstacle.
    let mut items = group(0, "1", "Race", "2019-03-17T05:10:00");
    items[3] = item("date", "%FF");
    let update = SessionsUpdate::from_form_checked(&items).unwrap();
    assert_eq!(update.sessions.len(), 1);
}

#[test]
fn decoded_form_fields() {
    // Values that were decoded already are taken as they stand.
    let items = group(0, "5", "Free+Practice%201", "2019-03-17T05:10:00");
    let update = SessionsUpdate::from_decoded_form(&items);
    assert_eq!(update.sessions.len(), 1);
    assert_eq!(update.sessions[0].0, 5);
    assert_eq!(update.sessions[0].1.name, "Free+Practice%201");
    let update = SessionsUpdate::from_form(&items).unwrap();
    assert_eq!(update.sessions[0].1.name, "Free Practice 1");
}
