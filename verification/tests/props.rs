use active_windows::props::{Prop, PropKey, PropRecord, PropValue};

fn record(entries: Vec<(PropKey, PropValue)>) -> PropRecord {
    PropRecord {
        props: entries
            .into_iter()
            .map(|(key, value)| Prop { key, value })
            .collect(),
    }
}

#[test]
fn get_string_returns_stored_text() {
    let rec = record(vec![(PropKey::Name, PropValue::Text("Terminal".to_owned()))]);
    assert_eq!(rec.get_string(PropKey::Name), "Terminal".to_owned());
}

#[test]
fn get_string_absent_key_is_empty() {
    let rec = record(vec![(PropKey::Name, PropValue::Text("Terminal".to_owned()))]);
    assert_eq!(rec.get_string(PropKey::OwnerName), String::new());
}

#[test]
fn get_string_numeric_value_is_empty() {
    let rec = record(vec![(PropKey::Name, PropValue::Number(3))]);
    assert_eq!(rec.get_string(PropKey::Name), String::new());
}

#[test]
fn get_number_returns_stored_number() {
    let rec = record(vec![(PropKey::Layer, PropValue::Number(25))]);
    assert_eq!(rec.get_number(PropKey::Layer), Some(25));
}

#[test]
fn get_number_keeps_the_raw_integer() {
    let negative = record(vec![(PropKey::Layer, PropValue::Number(-20))]);
    assert_eq!(negative.get_number(PropKey::Layer), Some(-20));
    let large = record(vec![(PropKey::Alpha, PropValue::Number(i64::MAX))]);
    assert_eq!(large.get_number(PropKey::Alpha), Some(i64::MAX));
}

#[test]
fn get_number_absent_key_is_none() {
    let rec = record(vec![(PropKey::Layer, PropValue::Number(25))]);
    assert_eq!(rec.get_number(PropKey::Alpha), None);
}

#[test]
fn get_number_text_value_is_none() {
    let rec = record(vec![(PropKey::Alpha, PropValue::Text("1".to_owned()))]);
    assert_eq!(rec.get_number(PropKey::Alpha), None);
}

#[test]
fn get_pid_returns_stored_number() {
    let rec = record(vec![(PropKey::OwnerPid, PropValue::Number(-7))]);
    assert_eq!(rec.get_pid(PropKey::OwnerPid), Some(-7));
}

#[test]
fn get_pid_bounds() {
    let min = record(vec![(PropKey::OwnerPid, PropValue::Number(i32::MIN as i64))]);
    assert_eq!(min.get_pid(PropKey::OwnerPid), Some(i32::MIN));
    let above = record(vec![(PropKey::OwnerPid, PropValue::Number(i32::MAX as i64 + 1))]);
    assert_eq!(above.get_pid(PropKey::OwnerPid), None);
}

#[test]
fn first_matching_key_wins() {
    let rec = record(vec![
        (PropKey::Name, PropValue::Text("First".to_owned())),
        (PropKey::Name, PropValue::Text("Second".to_owned())),
    ]);
    assert_eq!(rec.get_string(PropKey::Name), "First".to_owned());
}
