//! The todo store: an ordered list of items, addressed by position.

use vstd::prelude::*;
use crate::command::Command;

verus! {

/// The list after flipping the completion flag at `i`.
pub open spec fn toggled(l: Seq<(Seq<char>, bool)>, i: int) -> Seq<(Seq<char>, bool)> {
    l.update(i, (l[i].0, !l[i].1))
}

/// The ways an invocation can fail.
#[derive(Clone, Copy, Debug, PartialEq, Eq, Structural)]
pub enum TodoError {
    /// The backing file could not be read or written.
    IoError,
    /// The backing file does not hold a well-formed list.
    ParseError,
    /// A remove or toggle addressed a position at or past the end of the list.
    IndexOutOfRange,
    /// A command argument was missing or not a non-negative integer.
    InvalidArgument,
}

/// A single task: a name and a completion flag.
#[derive(Debug)]
pub struct TodoItem {
    pub name: String,
    pub completed: bool,
}

impl View for TodoItem {
    type V = (Seq<char>, bool);

    open spec fn view(&self) -> (Seq<char>, bool) {
        (self.name@, self.completed)
    }
}

impl TodoItem {
    /// A fresh item carries the given name and starts out not completed.
    pub fn new(name: String) -> (r: TodoItem)
        ensures
            r@ == (name@, false),
    {
        TodoItem { name, completed: false }
    }
}

/// An ordered list of todo items; a position in the list is an item's
/// only identity.
#[derive(Debug)]
pub struct TodoList {
    pub list: Vec<TodoItem>,
}

impl View for TodoList {
    type V = Seq<(Seq<char>, bool)>;

    open spec fn view(&self) -> Seq<(Seq<char>, bool)> {
        self.list@.map_values(|t: TodoItem| t@)
    }
}

impl TodoList {
    /// Wraps an existing vector of items, keeping its order.
    pub fn new(vec: Vec<TodoItem>) -> (r: TodoList)
        ensures
            r@ == vec@.map_values(|t: TodoItem| t@),
    {
        TodoList { list: vec }
    }

    /// Appends a new, not-completed item at the end of the list.
    pub fn add(&mut self, name: String)
        ensures
            final(self)@ == old(self)@.push((name@, false)),
    {
        let ghost nm = name@;
        let n = TodoItem::new(name);
        self.list.push(n);
        proof {
            assert(self@ =~= old(self)@.push((nm, false)));
        }
    }

    /// Deletes the item at `index`; every later item shifts down by one
    /// position. Fails with `IndexOutOfRange`, and changes nothing, when
    /// `index` is at or past the end.
    pub fn remove(&mut self, index: usize) -> (r: Result<(), TodoError>)
        ensures
            index < old(self)@.len() ==> r == Ok::<(), TodoError>(())
                && final(self)@ == old(self)@.remove(index as int),
            index >= old(self)@.len() ==> r == Err::<(), TodoError>(TodoError::IndexOutOfRange)
                && final(self)@ == old(self)@,
    {
        if index < self.list.len() {
            self.list.remove(index);
            proof {
                assert(self@ =~= old(self)@.remove(index as int));
            }
            Ok(())
        } else {
            Err(TodoError::IndexOutOfRange)
        }
    }

    /// Flips the completion flag of the item at `index`, leaving its name
    /// and every other item unchanged. Fails with `IndexOutOfRange`, and
    /// changes nothing, when `index` is at or past the end.
    pub fn toggle(&mut self, index: usize) -> (r: Result<(), TodoError>)
        ensures
            index < old(self)@.len() ==> r == Ok::<(), TodoError>(())
                && final(self)@ == toggled(old(self)@, index as int),
            index >= old(self)@.len() ==> r == Err::<(), TodoError>(TodoError::IndexOutOfRange)
                && final(self)@ == old(self)@,
    {
        if index < self.list.len() {
            let c = self.list[index].completed;
            self.list[index].completed = !c;
            proof {
                assert(self@ =~= old(self)@.update(
                    index as int,
                    (old(self)@[index as int].0, !old(self)@[index as int].1),
                ));
            }
            Ok(())
        } else {
            Err(TodoError::IndexOutOfRange)
        }
    }

    /// The number of items in the list.
    pub fn len(&self) -> (n: usize)
        ensures
            n == self@.len(),
    {
        self.list.len()
    }

    /// Applies one resolved command: at most one mutation. Yields whether
    /// the list changed (and so must be saved); a failed mutation leaves
    /// the list untouched.
    pub fn apply(&mut self, cmd: Command) -> (r: Result<bool, TodoError>)
        ensures
            match cmd {
                Command::Help => r == Ok::<bool, TodoError>(false)
                    && final(self)@ == old(self)@,
                Command::Get => r == Ok::<bool, TodoError>(false)
                    && final(self)@ == old(self)@,
                Command::Add(name) => r == Ok::<bool, TodoError>(true)
                    && final(self)@ == old(self)@.push((name@, false)),
                Command::Remove(i) => if i < old(self)@.len() {
                    r == Ok::<bool, TodoError>(true)
                        && final(self)@ == old(self)@.remove(i as int)
                } else {
                    r == Err::<bool, TodoError>(TodoError::IndexOutOfRange)
                        && final(self)@ == old(self)@
                },
                Command::Toggle(i) => if i < old(self)@.len() {
                    r == Ok::<bool, TodoError>(true)
                        && final(self)@ == toggled(old(self)@, i as int)
                } else {
                    r == Err::<bool, TodoError>(TodoError::IndexOutOfRange)
                        && final(self)@ == old(self)@
                },
            },
    {
        match cmd {
            Command::Help => Ok(false),
            Command::Get => Ok(false),
            Command::Add(name) => {
                self.add(name);
                Ok(true)
            },
            Command::Remove(i) => match self.remove(i) {
                Ok(()) => Ok(true),
                Err(e) => Err(e),
            },
            Command::Toggle(i) => match self.toggle(i) {
                Ok(()) => Ok(true),
                Err(e) => Err(e),
            },
        }
    }
}

impl TodoError {
    /// A single-line description for diagnostics.
    pub fn message(&self) -> (r: String)
        ensures
            *self is IoError ==> r@ == "could not read or write the todo file"@,
            *self is ParseError ==> r@ == "the todo file does not hold a well-formed todo list"@,
            *self is IndexOutOfRange ==> r@ == "no todo exists at that index"@,
            *self is InvalidArgument ==> r@ == "expected a non-negative todo index"@,
    {
        match self {
            TodoError::IoError => "could not read or write the todo file".to_owned(),
            TodoError::ParseError => "the todo file does not hold a well-formed todo list".to_owned(),
            TodoError::IndexOutOfRange => "no todo exists at that index".to_owned(),
            TodoError::InvalidArgument => "expected a non-negative todo index".to_owned(),
        }
    }
}

/// Appending gives length `n + 1`, the new item at index `n`, not
/// completed, and leaves every existing item in place.
pub proof fn lemma_add_appends(l: Seq<(Seq<char>, bool)>, name: Seq<char>)
    ensures
        l.push((name, false)).len() == l.len() + 1,
        l.push((name, false))[l.len() as int] == (name, false),
        forall|j: int| 0 <= j < l.len() ==> l.push((name, false))[j] == l[j],
{
}

/// Removing position `i` gives length `n - 1`, keeps earlier items in
/// place, and shifts every later item down by one position.
pub proof fn lemma_remove_shifts(l: Seq<(Seq<char>, bool)>, i: int)
    requires
        0 <= i < l.len(),
    ensures
        l.remove(i).len() == l.len() - 1,
        forall|j: int| 0 <= j < i ==> l.remove(i)[j] == l[j],
        forall|j: int| i <= j < l.len() - 1 ==> l.remove(i)[j] == l[j + 1],
{
}

/// Toggling the same position twice restores the list: the second flip
/// undoes the first and no other item is touched.
pub proof fn lemma_toggle_twice(l: Seq<(Seq<char>, bool)>, i: int)
    requires
        0 <= i < l.len(),
    ensures
        toggled(toggled(l, i), i) == l,
{
    assert(toggled(toggled(l, i), i) =~= l);
}

} // verus!
