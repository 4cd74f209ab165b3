//! Whole invocations, file content to file content, without the real file:
//! resolve, load, apply, save, display.

use todos::command::resolve;
use todos::display::render;
use todos::json::{from_json, to_json};
use todos::store::TodoError;

fn args(words: &[&str]) -> Vec<String> {
    words.iter().map(|w| w.to_string()).collect()
}

/// One invocation over the persisted text: the new text (written only when
/// the list changed) and the printed lines.
fn run(file: &str, argv: &[&str]) -> Result<(String, Vec<String>), TodoError> {
    let cmd = resolve(&args(argv))?;
    let mut list = from_json(file)?;
    let changed = list.apply(cmd)?;
    let saved = if changed { to_json(&list) } else { file.to_string() };
    Ok((saved, render(&list)))
}

const START: &str = "[{\"name\":\"buy milk\",\"completed\":false}]";

#[test]
fn adding_appends_to_the_file_and_lists_both() {
    let (file, lines) = run(START, &["add", "call mom"]).unwrap();
    assert_eq!(
        file,
        "[{\"name\":\"buy milk\",\"completed\":false},{\"name\":\"call mom\",\"completed\":false}]"
    );
    assert_eq!(lines, vec!["0 [ ] - buy milk", "1 [ ] - call mom"]);
}

#[test]
fn toggling_marks_the_line() {
    let (file, lines) = run(START, &["toggle", "0"]).unwrap();
    assert_eq!(lines, vec!["0 [x] - buy milk"]);
    let (_, lines) = run(&file, &["get"]).unwrap();
    assert_eq!(lines, vec!["0 [x] - buy milk"]);
}

#[test]
fn removing_shortens_the_listing() {
    let (file, _) = run(START, &["add", "call mom"]).unwrap();
    let (file, lines) = run(&file, &["remove", "0"]).unwrap();
    assert_eq!(lines, vec!["0 [ ] - call mom"]);
    assert_eq!(file, "[{\"name\":\"call mom\",\"completed\":false}]");
}

#[test]
fn out_of_range_leaves_the_file_unchanged() {
    let err = run(START, &["remove", "5"]).unwrap_err();
    assert_eq!(err, TodoError::IndexOutOfRange);
    let err = run(START, &["toggle", "1"]).unwrap_err();
    assert_eq!(err, TodoError::IndexOutOfRange);
    // the runner never reaches a save on a failed mutation, so the text on
    // disk is whatever it was: START itself still loads and lists unchanged
    let (file, lines) = run(START, &["get"]).unwrap();
    assert_eq!(file, START);
    assert_eq!(lines, vec!["0 [ ] - buy milk"]);
}

#[test]
fn listing_a_file_of_ten_shows_two_digit_indices() {
    let mut file = "[]".to_string();
    for i in 0..11 {
        let (f, _) = run(&file, &["add", &format!("task {}", i)]).unwrap();
        file = f;
    }
    let (_, lines) = run(&file, &["ls"]).unwrap();
    assert_eq!(lines.len(), 11);
    assert_eq!(lines[10], "10 [ ] - task 10");
}
