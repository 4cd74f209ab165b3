use todos::command::{parse_index, resolve, Command};
use todos::store::TodoError;

fn args(words: &[&str]) -> Vec<String> {
    words.iter().map(|w| w.to_string()).collect()
}

#[test]
fn no_arguments_ask_for_help() {
    assert!(matches!(resolve(&args(&[])), Ok(Command::Help)));
}

#[test]
fn unknown_subcommands_ask_for_help() {
    assert!(matches!(resolve(&args(&["frobnicate"])), Ok(Command::Help)));
    assert!(matches!(resolve(&args(&["help"])), Ok(Command::Help)));
    assert!(matches!(resolve(&args(&["ADD", "x"])), Ok(Command::Help)));
}

#[test]
fn add_and_its_aliases_take_the_text() {
    for w in ["add", "new", "create"] {
        match resolve(&args(&[w, "buy milk"])) {
            Ok(Command::Add(name)) => assert_eq!(name, "buy milk"),
            _ => panic!("{} did not resolve to an add", w),
        }
    }
}

#[test]
fn add_without_text_is_invalid() {
    assert_eq!(resolve(&args(&["add"])).unwrap_err(), TodoError::InvalidArgument);
}

#[test]
fn toggle_takes_a_numeric_index() {
    assert!(matches!(resolve(&args(&["toggle", "0"])), Ok(Command::Toggle(0))));
    assert!(matches!(resolve(&args(&["toggle", "17"])), Ok(Command::Toggle(17))));
}

#[test]
fn remove_and_its_aliases_take_a_numeric_index() {
    for w in ["remove", "delete", "rm"] {
        assert!(matches!(resolve(&args(&[w, "2"])), Ok(Command::Remove(2))));
    }
}

#[test]
fn get_and_its_aliases_list() {
    for w in ["get", "list", "ls"] {
        assert!(matches!(resolve(&args(&[w])), Ok(Command::Get)));
    }
}

#[test]
fn bad_indices_are_invalid_arguments() {
    for bad in ["x", "-1", "1.5", "", " 2", "2 ", "+3", "99999999999999999999999999"] {
        assert_eq!(
            resolve(&args(&["toggle", bad])).unwrap_err(),
            TodoError::InvalidArgument,
            "accepted index: {:?}",
            bad
        );
        assert_eq!(resolve(&args(&["remove", bad])).unwrap_err(), TodoError::InvalidArgument);
    }
}

#[test]
fn missing_indices_are_invalid_arguments() {
    assert_eq!(resolve(&args(&["toggle"])).unwrap_err(), TodoError::InvalidArgument);
    assert_eq!(resolve(&args(&["remove"])).unwrap_err(), TodoError::InvalidArgument);
}

#[test]
fn parse_index_reads_decimal_digits() {
    assert_eq!(parse_index("0"), Some(0));
    assert_eq!(parse_index("007"), Some(7));
    assert_eq!(parse_index("123456789"), Some(123456789));
    assert_eq!(parse_index(""), None);
    assert_eq!(parse_index("12a"), None);
    assert_eq!(parse_index("18446744073709551615"), Some(usize::MAX));
    assert_eq!(parse_index("18446744073709551616"), None);
}
