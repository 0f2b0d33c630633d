use collab_duplicator::json::{clone_items, clone_members, find_member, set_member, JsonMember, JsonValue};

fn s(text: &str) -> String {
    text.to_string()
}

fn member(key: &str, value: JsonValue) -> JsonMember {
    JsonMember { key: s(key), value }
}

fn sample() -> JsonValue {
    JsonValue::Object(vec![
        member("a", JsonValue::Number(s("1"))),
        member(
            "b",
            JsonValue::Object(vec![
                member("c", JsonValue::Text(s("deep"))),
                member("d", JsonValue::Array(vec![JsonValue::Null, JsonValue::Bool(true)])),
            ]),
        ),
        member("a", JsonValue::Number(s("2"))),
    ])
}

#[test]
fn get_finds_the_first_member_with_the_key() {
    let value = sample();
    assert_eq!(value.get(&s("a")), Some(&JsonValue::Number(s("1"))));
    assert_eq!(value.get(&s("z")), None);
    assert_eq!(JsonValue::Array(vec![]).get(&s("a")), None);
    assert_eq!(JsonValue::Text(s("a")).get(&s("a")), None);
}

#[test]
fn at_follows_a_path_of_keys() {
    let value = sample();
    let path = vec![s("b"), s("c")];
    assert_eq!(value.at(&path, 0), Some(&JsonValue::Text(s("deep"))));
    assert_eq!(value.at(&path, 2), Some(&value));
    assert_eq!(value.at(&vec![s("b"), s("x")], 0), None);
    assert_eq!(value.at(&vec![s("a"), s("c")], 0), None);
    assert_eq!(value.at(&vec![s("skipped"), s("b"), s("c")], 1), Some(&JsonValue::Text(s("deep"))));
}

#[test]
fn as_text_and_as_array_tell_the_variants_apart() {
    assert_eq!(JsonValue::Text(s("t")).as_text(), Some(&s("t")));
    assert_eq!(JsonValue::Number(s("1")).as_text(), None);
    assert_eq!(JsonValue::Array(vec![JsonValue::Null]).as_array(), Some(&vec![JsonValue::Null]));
    assert_eq!(JsonValue::Null.as_array(), None);
}

#[test]
fn put_replaces_what_the_path_reaches() {
    let mut value = sample();
    value.put(&vec![s("b"), s("c")], 0, JsonValue::Bool(false));
    assert_eq!(value.at(&vec![s("b"), s("c")], 0), Some(&JsonValue::Bool(false)));
    assert_eq!(
        value.at(&vec![s("b"), s("d")], 0),
        Some(&JsonValue::Array(vec![JsonValue::Null, JsonValue::Bool(true)]))
    );
    assert_eq!(value.get(&s("a")), Some(&JsonValue::Number(s("1"))));
}

#[test]
fn put_leaves_the_value_where_the_path_reaches_nothing() {
    let mut value = sample();
    value.put(&vec![s("b"), s("x")], 0, JsonValue::Null);
    assert_eq!(value, sample());
    value.put(&vec![s("a"), s("c")], 0, JsonValue::Null);
    assert_eq!(value, sample());
    let mut text = JsonValue::Text(s("t"));
    text.put(&vec![s("k")], 0, JsonValue::Null);
    assert_eq!(text, JsonValue::Text(s("t")));
}

#[test]
fn put_with_an_empty_path_replaces_the_value() {
    let mut value = sample();
    value.put(&vec![], 0, JsonValue::Null);
    assert_eq!(value, JsonValue::Null);
}

#[test]
fn deep_clone_copies_every_level() {
    let value = sample();
    assert_eq!(value.deep_clone(), value);
    assert_eq!(clone_items(&vec![sample(), JsonValue::Null]), vec![sample(), JsonValue::Null]);
    assert_eq!(clone_members(&vec![member("k", sample())]), vec![member("k", sample())]);
}

#[test]
fn set_member_replaces_the_first_value_under_the_key() {
    let mut members = vec![member("a", JsonValue::Null), member("b", JsonValue::Null), member("a", JsonValue::Null)];
    assert!(set_member(&mut members, &s("a"), JsonValue::Bool(true)));
    assert_eq!(members, vec![
        member("a", JsonValue::Bool(true)),
        member("b", JsonValue::Null),
        member("a", JsonValue::Null),
    ]);
    assert!(!set_member(&mut members, &s("c"), JsonValue::Bool(true)));
    assert_eq!(members.len(), 3);
    assert_eq!(find_member(&members, &s("b")), Some(1));
    assert_eq!(find_member(&members, &s("c")), None);
}
