//! The command resolver: maps the process arguments to one command.

use vstd::prelude::*;
use crate::store::TodoError;
use crate::text::{str_eq, str_to_chars};

verus! {

/// What an invocation asks for.
#[derive(Debug)]
pub enum Command {
    Help,
    Get,
    Add(String),
    Remove(usize),
    Toggle(usize),
}

/// The resolution of an argument list, at the specification level.
pub enum Intent {
    Help,
    Get,
    Add(Seq<char>),
    Remove(int),
    Toggle(int),
    Invalid,
}

/// The value a digit character stands for.
pub open spec fn digit_val(c: char) -> Option<int> {
    if c == '0' {
        Some(0)
    } else if c == '1' {
        Some(1)
    } else if c == '2' {
        Some(2)
    } else if c == '3' {
        Some(3)
    } else if c == '4' {
        Some(4)
    } else if c == '5' {
        Some(5)
    } else if c == '6' {
        Some(6)
    } else if c == '7' {
        Some(7)
    } else if c == '8' {
        Some(8)
    } else if c == '9' {
        Some(9)
    } else {
        None
    }
}

pub open spec fn all_digits(w: Seq<char>) -> bool {
    forall|i: int| 0 <= i < w.len() ==> digit_val(w[i]) is Some
}

/// The number a digit string denotes, most significant digit first.
pub open spec fn dec_val(w: Seq<char>) -> int
    decreases w.len(),
{
    if w.len() == 0 {
        0
    } else {
        dec_val(w.take(w.len() - 1)) * 10 + digit_val(w[w.len() - 1]).unwrap_or(0)
    }
}

/// A non-negative integer argument: one or more digits, nothing else.
pub open spec fn parse_dec(w: Seq<char>) -> Option<int> {
    if w.len() > 0 && all_digits(w) {
        Some(dec_val(w))
    } else {
        None
    }
}

pub open spec fn is_add_word(w: Seq<char>) -> bool {
    w == "add"@ || w == "new"@ || w == "create"@
}

pub open spec fn is_toggle_word(w: Seq<char>) -> bool {
    w == "toggle"@
}

pub open spec fn is_remove_word(w: Seq<char>) -> bool {
    w == "remove"@ || w == "delete"@ || w == "rm"@
}

pub open spec fn is_get_word(w: Seq<char>) -> bool {
    w == "get"@ || w == "list"@ || w == "ls"@
}

/// The index an index argument resolves to, when it fits the machine.
pub open spec fn index_arg(w: Seq<char>) -> Option<int> {
    match parse_dec(w) {
        Some(n) => if n <= usize::MAX {
            Some(n)
        } else {
            None
        },
        None => None,
    }
}

/// How an argument list resolves: the first argument picks the command,
/// the second is its text or index; unknown first words ask for help.
pub open spec fn resolve_spec(args: Seq<Seq<char>>) -> Intent {
    if args.len() == 0 {
        Intent::Help
    } else if is_add_word(args[0]) {
        if args.len() >= 2 {
            Intent::Add(args[1])
        } else {
            Intent::Invalid
        }
    } else if is_toggle_word(args[0]) {
        if args.len() >= 2 {
            match index_arg(args[1]) {
                Some(n) => Intent::Toggle(n),
                None => Intent::Invalid,
            }
        } else {
            Intent::Invalid
        }
    } else if is_remove_word(args[0]) {
        if args.len() >= 2 {
            match index_arg(args[1]) {
                Some(n) => Intent::Remove(n),
                None => Intent::Invalid,
            }
        } else {
            Intent::Invalid
        }
    } else if is_get_word(args[0]) {
        Intent::Get
    } else {
        Intent::Help
    }
}

/// What a resolver result must be for a given intent.
pub open spec fn resolution_matches(r: Result<Command, TodoError>, i: Intent) -> bool {
    match i {
        Intent::Help => r matches Ok(c) && c is Help,
        Intent::Get => r matches Ok(c) && c is Get,
        Intent::Add(name) => r matches Ok(c) && c matches Command::Add(s) && s@ == name,
        Intent::Remove(n) => r matches Ok(c) && c matches Command::Remove(k) && k as int == n,
        Intent::Toggle(n) => r matches Ok(c) && c matches Command::Toggle(k) && k as int == n,
        Intent::Invalid => r == Err::<Command, TodoError>(TodoError::InvalidArgument),
    }
}

pub open spec fn views_of(args: Seq<String>) -> Seq<Seq<char>> {
    args.map_values(|s: String| s@)
}

proof fn lemma_dec_val_bounds(w: Seq<char>)
    requires
        all_digits(w),
    ensures
        0 <= dec_val(w),
        w.len() > 0 ==> dec_val(w) >= dec_val(w.take(w.len() - 1)),
    decreases w.len(),
{
    if w.len() > 0 {
        let p = w.take(w.len() - 1);
        assert(forall|i: int| 0 <= i < p.len() ==> p[i] == w[i]);
        lemma_dec_val_bounds(p);
    }
}

proof fn lemma_dec_val_mono(w: Seq<char>, i: int, j: int)
    requires
        all_digits(w),
        0 <= i <= j <= w.len(),
    ensures
        dec_val(w.take(i)) <= dec_val(w.take(j)),
    decreases j - i,
{
    if i < j {
        lemma_dec_val_mono(w, i, j - 1);
        let p = w.take(j);
        assert(all_digits(p));
        lemma_dec_val_bounds(p);
        assert(p.take(j - 1) =~= w.take(j - 1));
    }
}

/// Reads an index argument. Yields the denoted number when the string is
/// all digits and the number fits a `usize`; nothing otherwise.
pub fn parse_index(s: &str) -> (r: Option<usize>)
    ensures
        match r {
            Some(n) => index_arg(s@) == Some(n as int),
            None => index_arg(s@) is None,
        },
{
    let chars = str_to_chars(s);
    let n = chars.len();
    if n == 0 {
        return None;
    }
    let mut i: usize = 0;
    let mut acc: usize = 0;
    while i < n
        invariant
            0 < n == chars@.len(),
            chars@ == s@,
            i <= n,
            all_digits(s@.take(i as int)),
            acc as int == dec_val(s@.take(i as int)),
        decreases n - i,
    {
        let c = chars[i];
        let d: usize = if c == '0' {
            0
        } else if c == '1' {
            1
        } else if c == '2' {
            2
        } else if c == '3' {
            3
        } else if c == '4' {
            4
        } else if c == '5' {
            5
        } else if c == '6' {
            6
        } else if c == '7' {
            7
        } else if c == '8' {
            8
        } else if c == '9' {
            9
        } else {
            proof {
                assert(digit_val(s@[i as int]) is None);
            }
            return None;
        };
        proof {
            assert(digit_val(s@[i as int]) == Some(d as int));
            assert(s@.take(i + 1).take(i as int) =~= s@.take(i as int));
            assert(all_digits(s@.take(i + 1)));
        }
        let next = match acc.checked_mul(10) {
            Some(a) => a.checked_add(d),
            None => None,
        };
        match next {
            Some(a) => {
                acc = a;
            },
            None => {
                proof {
                    assert(dec_val(s@.take(i + 1)) == acc as int * 10 + d > usize::MAX);
                    if all_digits(s@) {
                        lemma_dec_val_mono(s@, i + 1, s@.len() as int);
                        assert(s@.take(s@.len() as int) =~= s@);
                        assert(dec_val(s@) > usize::MAX);
                    }
                }
                return None;
            },
        }
        i = i + 1;
    }
    proof {
        assert(s@.take(n as int) =~= s@);
    }
    Some(acc)
}

/// Resolves the process arguments (without the program name) to one
/// command, or to `InvalidArgument` when a required argument is missing,
/// not a non-negative integer, or too large for an index.
pub fn resolve(args: &Vec<String>) -> (r: Result<Command, TodoError>)
    ensures
        resolution_matches(r, resolve_spec(views_of(args@))),
{
    if args.len() == 0 {
        return Ok(Command::Help);
    }
    let w = args[0].as_str();
    if str_eq(w, "add") || str_eq(w, "new") || str_eq(w, "create") {
        if args.len() >= 2 {
            Ok(Command::Add(args[1].clone()))
        } else {
            Err(TodoError::InvalidArgument)
        }
    } else if str_eq(w, "toggle") {
        if args.len() >= 2 {
            match parse_index(args[1].as_str()) {
                Some(n) => Ok(Command::Toggle(n)),
                None => Err(TodoError::InvalidArgument),
            }
        } else {
            Err(TodoError::InvalidArgument)
        }
    } else if str_eq(w, "remove") || str_eq(w, "delete") || str_eq(w, "rm") {
        if args.len() >= 2 {
            match parse_index(args[1].as_str()) {
                Some(n) => Ok(Command::Remove(n)),
                None => Err(TodoError::InvalidArgument),
            }
        } else {
            Err(TodoError::InvalidArgument)
        }
    } else if str_eq(w, "get") || str_eq(w, "list") || str_eq(w, "ls") {
        Ok(Command::Get)
    } else {
        Ok(Command::Help)
    }
}

} // verus!
