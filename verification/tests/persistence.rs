use todos::json::{from_json, to_json};
use todos::store::{TodoError, TodoList};

fn list_of(items: &[(&str, bool)]) -> TodoList {
    let mut l = TodoList::new(Vec::new());
    for (name, completed) in items {
        l.add(name.to_string());
        if *completed {
            l.toggle(l.len() - 1).unwrap();
        }
    }
    l
}

#[test]
fn empty_list_writes_an_empty_array() {
    let l = TodoList::new(Vec::new());
    assert_eq!(to_json(&l), "[]");
}

#[test]
fn one_item_writes_one_object() {
    let l = list_of(&[("buy milk", false)]);
    assert_eq!(to_json(&l), "[{\"name\":\"buy milk\",\"completed\":false}]");
}

#[test]
fn two_items_write_in_order() {
    let l = list_of(&[("buy milk", true), ("call mom", false)]);
    assert_eq!(
        to_json(&l),
        "[{\"name\":\"buy milk\",\"completed\":true},{\"name\":\"call mom\",\"completed\":false}]"
    );
}

#[test]
fn names_are_escaped() {
    let l = list_of(&[("say \"hi\"\\now\n", false)]);
    assert_eq!(
        to_json(&l),
        "[{\"name\":\"say \\\"hi\\\"\\\\now\\n\",\"completed\":false}]"
    );
}

#[test]
fn round_trip_preserves_order_and_fields() {
    let l = list_of(&[("buy milk", true), ("call mom", false), ("tabs\tand \"quotes\"", true)]);
    let saved = to_json(&l);
    let loaded = from_json(&saved).unwrap();
    let saved_again = to_json(&loaded);
    assert_eq!(saved, saved_again);
    assert_eq!(loaded.len(), 3);
    assert_eq!(loaded.list[0].name, "buy milk");
    assert!(loaded.list[0].completed);
    assert_eq!(loaded.list[1].name, "call mom");
    assert!(!loaded.list[1].completed);
    assert_eq!(loaded.list[2].name, "tabs\tand \"quotes\"");
    assert!(loaded.list[2].completed);
}

#[test]
fn reader_accepts_whitespace_and_either_key_order() {
    let text = " [ { \"completed\" : true , \"name\" : \"buy milk\" } ,\n  {\"name\":\"call mom\",\"completed\":false} ]\n";
    let l = from_json(text).unwrap();
    assert_eq!(l.len(), 2);
    assert_eq!(l.list[0].name, "buy milk");
    assert!(l.list[0].completed);
    assert_eq!(l.list[1].name, "call mom");
    assert!(!l.list[1].completed);
}

#[test]
fn reader_accepts_a_pretty_printed_file() {
    let text = "[\n  {\n    \"name\": \"buy milk\",\n    \"completed\": false\n  }\n]";
    let l = from_json(text).unwrap();
    assert_eq!(l.len(), 1);
    assert_eq!(l.list[0].name, "buy milk");
    assert!(!l.list[0].completed);
}

#[test]
fn reader_rejects_malformed_input() {
    for text in [
        "",
        "   ",
        "{\"name\":\"x\",\"completed\":false}",
        "[",
        "[]]",
        "[{\"name\":\"x\"}]",
        "[{\"name\":\"x\",\"completed\":\"no\"}]",
        "[{\"name\":true,\"completed\":false}]",
        "[{\"name\":\"x\",\"completed\":false},]",
        "[{\"name\":\"x\",\"completed\":false}",
        "[{\"name\":\"x\",\"done\":false}]",
        "[{\"name\":\"x\",\"completed\":false}] trailing",
        "[{\"name\":\"bad \\q escape\",\"completed\":false}]",
        "[1,2]",
        "null",
    ] {
        assert_eq!(from_json(text).unwrap_err(), TodoError::ParseError, "accepted: {}", text);
    }
}

#[test]
fn writer_output_is_json_to_an_independent_reader() {
    let l = list_of(&[("say \"hi\"\n", false), ("plain", true)]);
    let saved = to_json(&l);
    let v: serde_json::Value = serde_json::from_str(&saved).unwrap();
    let arr = v.as_array().unwrap();
    assert_eq!(arr.len(), 2);
    assert_eq!(arr[0].get("name").unwrap().as_str().unwrap(), "say \"hi\"\n");
    assert_eq!(arr[0].get("completed").unwrap().as_bool().unwrap(), false);
    assert_eq!(arr[1].get("name").unwrap().as_str().unwrap(), "plain");
    assert_eq!(arr[1].get("completed").unwrap().as_bool().unwrap(), true);
}

#[test]
fn reader_accepts_an_independent_writers_output() {
    let l = list_of(&[("say \"hi\"\n", true), ("back\\slash", false)]);
    let v: serde_json::Value = serde_json::from_str(&to_json(&l)).unwrap();
    let pretty = serde_json::to_string_pretty(&v).unwrap();
    let loaded = from_json(&pretty).unwrap();
    assert_eq!(loaded.len(), 2);
    assert_eq!(loaded.list[0].name, "say \"hi\"\n");
    assert!(loaded.list[0].completed);
    assert_eq!(loaded.list[1].name, "back\\slash");
    assert!(!loaded.list[1].completed);
}
