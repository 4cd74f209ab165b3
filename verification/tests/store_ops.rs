use todos::store::{TodoError, TodoItem, TodoList};

fn sample() -> TodoList {
    let mut l = TodoList::new(Vec::new());
    l.add("buy milk".to_string());
    l.add("call mom".to_string());
    l
}

#[test]
fn new_item_is_not_completed() {
    let it = TodoItem::new("water plants".to_string());
    assert_eq!(it.name, "water plants");
    assert!(!it.completed);
}

#[test]
fn add_appends_at_end() {
    let mut l = sample();
    assert_eq!(l.len(), 2);
    l.add("water plants".to_string());
    assert_eq!(l.len(), 3);
    assert_eq!(l.list[2].name, "water plants");
    assert!(!l.list[2].completed);
    assert_eq!(l.list[0].name, "buy milk");
    assert_eq!(l.list[1].name, "call mom");
}

#[test]
fn toggle_flips_only_the_addressed_item() {
    let mut l = sample();
    assert_eq!(l.toggle(1), Ok(()));
    assert!(!l.list[0].completed);
    assert!(l.list[1].completed);
    assert_eq!(l.list[1].name, "call mom");
}

#[test]
fn toggle_twice_restores_the_flag() {
    let mut l = sample();
    assert_eq!(l.toggle(0), Ok(()));
    assert!(l.list[0].completed);
    assert_eq!(l.toggle(0), Ok(()));
    assert!(!l.list[0].completed);
}

#[test]
fn remove_shifts_later_items_down() {
    let mut l = sample();
    l.add("water plants".to_string());
    assert_eq!(l.remove(1), Ok(()));
    assert_eq!(l.len(), 2);
    assert_eq!(l.list[0].name, "buy milk");
    assert_eq!(l.list[1].name, "water plants");
}

#[test]
fn remove_out_of_range_fails_and_changes_nothing() {
    let mut l = sample();
    assert_eq!(l.remove(5), Err(TodoError::IndexOutOfRange));
    assert_eq!(l.remove(2), Err(TodoError::IndexOutOfRange));
    assert_eq!(l.len(), 2);
    assert_eq!(l.list[0].name, "buy milk");
    assert_eq!(l.list[1].name, "call mom");
}

#[test]
fn toggle_out_of_range_fails_and_changes_nothing() {
    let mut l = sample();
    assert_eq!(l.toggle(5), Err(TodoError::IndexOutOfRange));
    assert_eq!(l.len(), 2);
    assert!(!l.list[0].completed);
    assert!(!l.list[1].completed);
}

#[test]
fn error_messages_are_single_lines() {
    assert_eq!(
        TodoError::IndexOutOfRange.message(),
        "no todo exists at that index"
    );
    assert_eq!(
        TodoError::InvalidArgument.message(),
        "expected a non-negative todo index"
    );
    assert!(!TodoError::IoError.message().contains('\n'));
    assert!(!TodoError::ParseError.message().contains('\n'));
}
