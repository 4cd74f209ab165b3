//! Rendering: one line per item, `<index> [<x or blank>] - <name>`.

use vstd::prelude::*;
use vstd::arithmetic::div_mod::lemma_div_decreases;
use crate::store::TodoList;
use crate::text::{chars_to_string, str_to_chars};

verus! {

/// The character for one digit.
pub open spec fn digit_char(d: int) -> char {
    if d == 0 {
        '0'
    } else if d == 1 {
        '1'
    } else if d == 2 {
        '2'
    } else if d == 3 {
        '3'
    } else if d == 4 {
        '4'
    } else if d == 5 {
        '5'
    } else if d == 6 {
        '6'
    } else if d == 7 {
        '7'
    } else if d == 8 {
        '8'
    } else {
        '9'
    }
}

/// A number in decimal, most significant digit first, no leading zeros.
pub open spec fn dec_chars(n: int) -> Seq<char>
    decreases n,
    via dec_chars_dec
{
    if n < 10 {
        seq![digit_char(n)]
    } else {
        dec_chars(n / 10) + seq![digit_char(n % 10)]
    }
}

#[via_fn]
proof fn dec_chars_dec(n: int) {
    if n >= 10 {
        lemma_div_decreases(n, 10);
    }
}

/// The line an item is shown as: its index, its completion mark, its name.
pub open spec fn render_line(i: int, it: (Seq<char>, bool)) -> Seq<char> {
    dec_chars(i) + seq![' ', '['] + seq![if it.1 {
        'x'
    } else {
        ' '
    }] + seq![']', ' ', '-', ' '] + it.0
}

fn digit_char_x(d: usize) -> (c: char)
    requires
        d <= 9,
    ensures
        c == digit_char(d as int),
{
    if d == 0 {
        '0'
    } else if d == 1 {
        '1'
    } else if d == 2 {
        '2'
    } else if d == 3 {
        '3'
    } else if d == 4 {
        '4'
    } else if d == 5 {
        '5'
    } else if d == 6 {
        '6'
    } else if d == 7 {
        '7'
    } else if d == 8 {
        '8'
    } else {
        '9'
    }
}

fn dec_chars_x(n: usize) -> (v: Vec<char>)
    ensures
        v@ == dec_chars(n as int),
    decreases n,
{
    if n < 10 {
        let mut v: Vec<char> = Vec::new();
        v.push(digit_char_x(n));
        proof {
            assert(v@ =~= dec_chars(n as int));
        }
        v
    } else {
        proof {
            lemma_div_decreases(n as int, 10);
        }
        let mut v = dec_chars_x(n / 10);
        v.push(digit_char_x(n % 10));
        proof {
            assert(v@ =~= dec_chars(n as int));
        }
        v
    }
}

/// Renders the list for display, in order.
pub fn render(list: &TodoList) -> (r: Vec<String>)
    ensures
        r@.len() == list@.len(),
        forall|i: int| 0 <= i < r@.len() ==> r@[i]@ == render_line(i, list@[i]),
{
    let mut r: Vec<String> = Vec::new();
    let n = list.list.len();
    let mut i: usize = 0;
    while i < n
        invariant
            i <= n,
            n == list@.len(),
            r@.len() == i,
            forall|j: int| 0 <= j < i ==> r@[j]@ == render_line(j, list@[j]),
        decreases n - i,
    {
        let mut line = dec_chars_x(i);
        line.push(' ');
        line.push('[');
        if list.list[i].completed {
            line.push('x');
        } else {
            line.push(' ');
        }
        line.push(']');
        line.push(' ');
        line.push('-');
        line.push(' ');
        let mut nm = str_to_chars(list.list[i].name.as_str());
        line.append(&mut nm);
        proof {
            assert(line@ =~= render_line(i as int, list@[i as int]));
        }
        r.push(chars_to_string(&line));
        i = i + 1;
    }
    r
}

} // verus!
