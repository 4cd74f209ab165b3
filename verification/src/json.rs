//! The persisted format: a JSON array of `{"name": ..., "completed": ...}`
//! objects. The grammar below is the library's own: `ser_list` says exactly
//! which characters a list is written as, and `parse_list` says which
//! character sequences are accepted back and what list they denote.

use vstd::prelude::*;
use crate::store::{TodoError, TodoItem, TodoList};
use crate::text::{chars_to_string, str_to_chars};

verus! {

// ---------------------------------------------------------------------------
// Characters and escapes
// ---------------------------------------------------------------------------

/// JSON insignificant whitespace.
pub open spec fn is_ws(c: char) -> bool {
    c == ' ' || c == '\n' || c == '\r' || c == '\t'
}

/// The escape letter the writer uses for `c`, if `c` is written escaped.
pub open spec fn esc_code(c: char) -> Option<char> {
    if c == '"' {
        Some('"')
    } else if c == '\\' {
        Some('\\')
    } else if c == '\n' {
        Some('n')
    } else if c == '\r' {
        Some('r')
    } else if c == '\t' {
        Some('t')
    } else {
        None
    }
}

/// The character an escape letter stands for; the reader also accepts
/// `\/`, `\b` and `\f`, which the writer never produces.
pub open spec fn unesc(e: char) -> Option<char> {
    if e == '"' {
        Some('"')
    } else if e == '\\' {
        Some('\\')
    } else if e == '/' {
        Some('/')
    } else if e == 'n' {
        Some('\n')
    } else if e == 'r' {
        Some('\r')
    } else if e == 't' {
        Some('\t')
    } else if e == 'b' {
        Some('\u{0008}')
    } else if e == 'f' {
        Some('\u{000c}')
    } else {
        None
    }
}

/// How one character of a name is written inside a string literal.
pub open spec fn esc_char(c: char) -> Seq<char> {
    match esc_code(c) {
        Some(e) => seq!['\\', e],
        None => seq![c],
    }
}

/// How a whole name is written inside a string literal.
pub open spec fn esc(s: Seq<char>) -> Seq<char>
    decreases s.len(),
{
    if s.len() == 0 {
        Seq::empty()
    } else {
        esc_char(s[0]) + esc(s.skip(1))
    }
}

/// A quoted string literal.
pub open spec fn quote(s: Seq<char>) -> Seq<char> {
    seq!['"'] + esc(s) + seq!['"']
}

// ---------------------------------------------------------------------------
// The writer
// ---------------------------------------------------------------------------

pub open spec fn name_key() -> Seq<char> {
    seq!['n', 'a', 'm', 'e']
}

pub open spec fn completed_key() -> Seq<char> {
    seq!['c', 'o', 'm', 'p', 'l', 'e', 't', 'e', 'd']
}

pub open spec fn ser_bool(b: bool) -> Seq<char> {
    if b {
        seq!['t', 'r', 'u', 'e']
    } else {
        seq!['f', 'a', 'l', 's', 'e']
    }
}

/// One item as an object with its two fields.
pub open spec fn ser_item(it: (Seq<char>, bool)) -> Seq<char> {
    seq!['{'] + quote(name_key()) + seq![':'] + quote(it.0) + seq![','] + quote(completed_key())
        + seq![':'] + ser_bool(it.1) + seq!['}']
}

/// The items of a list, separated by commas.
pub open spec fn ser_items(l: Seq<(Seq<char>, bool)>) -> Seq<char>
    decreases l.len(),
{
    if l.len() == 0 {
        Seq::empty()
    } else if l.len() == 1 {
        ser_item(l[0])
    } else {
        ser_item(l[0]) + seq![','] + ser_items(l.skip(1))
    }
}

/// A whole list as a JSON array.
pub open spec fn ser_list(l: Seq<(Seq<char>, bool)>) -> Seq<char> {
    seq!['['] + ser_items(l) + seq![']']
}

// ---------------------------------------------------------------------------
// The reader
// ---------------------------------------------------------------------------

/// Drops leading whitespace.
pub open spec fn skip_ws(s: Seq<char>) -> Seq<char>
    decreases s.len(),
{
    if s.len() > 0 && is_ws(s[0]) {
        skip_ws(s.skip(1))
    } else {
        s
    }
}

/// Reads the body of a string literal after the opening quote, up to and
/// including the closing quote; yields the denoted characters and the rest.
pub open spec fn parse_str_body(s: Seq<char>) -> Option<(Seq<char>, Seq<char>)>
    decreases s.len(),
{
    if s.len() == 0 {
        None
    } else if s[0] == '"' {
        Some((Seq::empty(), s.skip(1)))
    } else if s[0] == '\\' {
        if s.len() >= 2 && unesc(s[1]) is Some {
            match parse_str_body(s.skip(2)) {
                Some((t, r)) => Some((seq![unesc(s[1]).unwrap()] + t, r)),
                None => None,
            }
        } else {
            None
        }
    } else {
        match parse_str_body(s.skip(1)) {
            Some((t, r)) => Some((seq![s[0]] + t, r)),
            None => None,
        }
    }
}

/// Reads a quoted string literal.
pub open spec fn parse_string(s: Seq<char>) -> Option<(Seq<char>, Seq<char>)> {
    if s.len() > 0 && s[0] == '"' {
        parse_str_body(s.skip(1))
    } else {
        None
    }
}

/// Reads `true` or `false`.
pub open spec fn parse_bool(s: Seq<char>) -> Option<(bool, Seq<char>)> {
    if s.len() >= 4 && s[0] == 't' && s[1] == 'r' && s[2] == 'u' && s[3] == 'e' {
        Some((true, s.skip(4)))
    } else if s.len() >= 5 && s[0] == 'f' && s[1] == 'a' && s[2] == 'l' && s[3] == 's' && s[4]
        == 'e' {
        Some((false, s.skip(5)))
    } else {
        None
    }
}

/// A field value: the format holds only strings and booleans.
pub enum JsonVal {
    Str(Seq<char>),
    Bool(bool),
}

/// Reads a field value.
pub open spec fn parse_value(s: Seq<char>) -> Option<(JsonVal, Seq<char>)> {
    if s.len() > 0 && s[0] == '"' {
        match parse_string(s) {
            Some((t, r)) => Some((JsonVal::Str(t), r)),
            None => None,
        }
    } else {
        match parse_bool(s) {
            Some((b, r)) => Some((JsonVal::Bool(b), r)),
            None => None,
        }
    }
}

/// Reads one `key: value` pair.
pub open spec fn parse_pair(s: Seq<char>) -> Option<((Seq<char>, JsonVal), Seq<char>)> {
    match parse_string(s) {
        Some((k, r1)) => {
            let r2 = skip_ws(r1);
            if r2.len() > 0 && r2[0] == ':' {
                match parse_value(skip_ws(r2.skip(1))) {
                    Some((v, r3)) => Some(((k, v), r3)),
                    None => None,
                }
            } else {
                None
            }
        },
        None => None,
    }
}

/// An object denotes an item when its two pairs are a string `name` and a
/// boolean `completed`, in either order.
pub open spec fn item_of_pairs(p1: (Seq<char>, JsonVal), p2: (Seq<char>, JsonVal)) -> Option<
    (Seq<char>, bool),
> {
    if p1.0 == name_key() && p1.1 is Str && p2.0 == completed_key() && p2.1 is Bool {
        Some((p1.1->Str_0, p2.1->Bool_0))
    } else if p1.0 == completed_key() && p1.1 is Bool && p2.0 == name_key() && p2.1 is Str {
        Some((p2.1->Str_0, p1.1->Bool_0))
    } else {
        None
    }
}

/// Reads one object with exactly two pairs.
pub open spec fn parse_item(s: Seq<char>) -> Option<((Seq<char>, bool), Seq<char>)> {
    if s.len() > 0 && s[0] == '{' {
        match parse_pair(skip_ws(s.skip(1))) {
            Some((p1, r1)) => {
                let r2 = skip_ws(r1);
                if r2.len() > 0 && r2[0] == ',' {
                    match parse_pair(skip_ws(r2.skip(1))) {
                        Some((p2, r3)) => {
                            let r4 = skip_ws(r3);
                            if r4.len() > 0 && r4[0] == '}' {
                                match item_of_pairs(p1, p2) {
                                    Some(it) => Some((it, r4.skip(1))),
                                    None => None,
                                }
                            } else {
                                None
                            }
                        },
                        None => None,
                    }
                } else {
                    None
                }
            },
            None => None,
        }
    } else {
        None
    }
}

// ---------------------------------------------------------------------------
// Lengths: every reader consumes at least one character
// ---------------------------------------------------------------------------

pub proof fn lemma_skip_ws_len(s: Seq<char>)
    ensures
        skip_ws(s).len() <= s.len(),
    decreases s.len(),
{
    if s.len() > 0 && is_ws(s[0]) {
        lemma_skip_ws_len(s.skip(1));
    }
}

pub proof fn lemma_parse_str_body_len(s: Seq<char>)
    ensures
        parse_str_body(s) is Some ==> parse_str_body(s).unwrap().1.len() < s.len(),
    decreases s.len(),
{
    if s.len() == 0 {
    } else if s[0] == '"' {
    } else if s[0] == '\\' {
        if s.len() >= 2 && unesc(s[1]) is Some {
            lemma_parse_str_body_len(s.skip(2));
        }
    } else {
        lemma_parse_str_body_len(s.skip(1));
    }
}

pub proof fn lemma_parse_pair_len(s: Seq<char>)
    ensures
        parse_pair(s) is Some ==> parse_pair(s).unwrap().1.len() < s.len(),
{
    if parse_string(s) is Some {
        lemma_parse_str_body_len(s.skip(1));
        let (k, r1) = parse_string(s).unwrap();
        lemma_skip_ws_len(r1);
        let r2 = skip_ws(r1);
        if r2.len() > 0 && r2[0] == ':' {
            lemma_skip_ws_len(r2.skip(1));
            let r3 = skip_ws(r2.skip(1));
            if r3.len() > 0 && r3[0] == '"' {
                lemma_parse_str_body_len(r3.skip(1));
            }
        }
    }
}

pub proof fn lemma_parse_item_len(s: Seq<char>)
    ensures
        parse_item(s) is Some ==> parse_item(s).unwrap().1.len() < s.len(),
{
    if s.len() > 0 && s[0] == '{' {
        lemma_skip_ws_len(s.skip(1));
        let s1 = skip_ws(s.skip(1));
        lemma_parse_pair_len(s1);
        if parse_pair(s1) is Some {
            let (p1, r1) = parse_pair(s1).unwrap();
            lemma_skip_ws_len(r1);
            let r2 = skip_ws(r1);
            if r2.len() > 0 && r2[0] == ',' {
                lemma_skip_ws_len(r2.skip(1));
                let s2 = skip_ws(r2.skip(1));
                lemma_parse_pair_len(s2);
                if parse_pair(s2) is Some {
                    let (p2, r3) = parse_pair(s2).unwrap();
                    lemma_skip_ws_len(r3);
                }
            }
        }
    }
}

// ---------------------------------------------------------------------------
// Reading a sequence of items
// ---------------------------------------------------------------------------

/// Reads items separated by commas, up to and including the closing
/// bracket of the array.
pub open spec fn parse_items(s: Seq<char>) -> Option<(Seq<(Seq<char>, bool)>, Seq<char>)>
    decreases s.len(),
    via parse_items_dec
{
    match parse_item(s) {
        Some((it, r)) => {
            let r1 = skip_ws(r);
            if r1.len() > 0 && r1[0] == ',' {
                match parse_items(skip_ws(r1.skip(1))) {
                    Some((rest, r2)) => Some((seq![it] + rest, r2)),
                    None => None,
                }
            } else if r1.len() > 0 && r1[0] == ']' {
                Some((seq![it], r1.skip(1)))
            } else {
                None
            }
        },
        None => None,
    }
}

#[via_fn]
proof fn parse_items_dec(s: Seq<char>) {
    lemma_parse_item_len(s);
    if parse_item(s) is Some {
        let (it, r) = parse_item(s).unwrap();
        lemma_skip_ws_len(r);
        let r1 = skip_ws(r);
        if r1.len() > 0 && r1[0] == ',' {
            lemma_skip_ws_len(r1.skip(1));
        }
    }
}

/// Reads a whole array, demanding that nothing but whitespace follows.
pub open spec fn parse_list(s: Seq<char>) -> Option<Seq<(Seq<char>, bool)>> {
    let s1 = skip_ws(s);
    if s1.len() > 0 && s1[0] == '[' {
        let s2 = skip_ws(s1.skip(1));
        if s2.len() > 0 && s2[0] == ']' {
            if skip_ws(s2.skip(1)).len() == 0 {
                Some(Seq::empty())
            } else {
                None
            }
        } else {
            match parse_items(s2) {
                Some((items, r)) => if skip_ws(r).len() == 0 {
                    Some(items)
                } else {
                    None
                },
                None => None,
            }
        }
    } else {
        None
    }
}

// ---------------------------------------------------------------------------
// The writer, executable
// ---------------------------------------------------------------------------

fn esc_char_x(c: char) -> (v: Vec<char>)
    ensures
        v@ == esc_char(c),
{
    let mut v: Vec<char> = Vec::new();
    if c == '"' {
        v.push('\\');
        v.push('"');
    } else if c == '\\' {
        v.push('\\');
        v.push('\\');
    } else if c == '\n' {
        v.push('\\');
        v.push('n');
    } else if c == '\r' {
        v.push('\\');
        v.push('r');
    } else if c == '\t' {
        v.push('\\');
        v.push('t');
    } else {
        v.push(c);
    }
    proof {
        assert(v@ =~= esc_char(c));
    }
    v
}

fn esc_x(s: &[char]) -> (v: Vec<char>)
    ensures
        v@ == esc(s@),
    decreases s@.len(),
{
    if s.len() == 0 {
        Vec::new()
    } else {
        let mut v = esc_char_x(s[0]);
        let mut rest = esc_x(&s[1..s.len()]);
        proof {
            assert(s@.subrange(1, s@.len() as int) =~= s@.skip(1));
        }
        v.append(&mut rest);
        v
    }
}

fn quote_x(s: &[char]) -> (v: Vec<char>)
    ensures
        v@ == quote(s@),
{
    let mut v: Vec<char> = Vec::new();
    v.push('"');
    let mut e = esc_x(s);
    v.append(&mut e);
    v.push('"');
    proof {
        assert(v@ =~= quote(s@));
    }
    v
}

fn name_key_x() -> (v: Vec<char>)
    ensures
        v@ == name_key(),
{
    let mut v: Vec<char> = Vec::new();
    v.push('n');
    v.push('a');
    v.push('m');
    v.push('e');
    proof {
        assert(v@ =~= name_key());
    }
    v
}

fn completed_key_x() -> (v: Vec<char>)
    ensures
        v@ == completed_key(),
{
    let mut v: Vec<char> = Vec::new();
    v.push('c');
    v.push('o');
    v.push('m');
    v.push('p');
    v.push('l');
    v.push('e');
    v.push('t');
    v.push('e');
    v.push('d');
    proof {
        assert(v@ =~= completed_key());
    }
    v
}

fn ser_bool_x(b: bool) -> (v: Vec<char>)
    ensures
        v@ == ser_bool(b),
{
    let mut v: Vec<char> = Vec::new();
    if b {
        v.push('t');
        v.push('r');
        v.push('u');
        v.push('e');
    } else {
        v.push('f');
        v.push('a');
        v.push('l');
        v.push('s');
        v.push('e');
    }
    proof {
        assert(v@ =~= ser_bool(b));
    }
    v
}

fn ser_item_x(it: &TodoItem) -> (v: Vec<char>)
    ensures
        v@ == ser_item(it@),
{
    let mut v: Vec<char> = Vec::new();
    v.push('{');
    let nk = name_key_x();
    let mut q = quote_x(nk.as_slice());
    v.append(&mut q);
    v.push(':');
    let nm = str_to_chars(it.name.as_str());
    let mut q = quote_x(nm.as_slice());
    v.append(&mut q);
    v.push(',');
    let ck = completed_key_x();
    let mut q = quote_x(ck.as_slice());
    v.append(&mut q);
    v.push(':');
    let mut b = ser_bool_x(it.completed);
    v.append(&mut b);
    v.push('}');
    proof {
        assert(v@ =~= ser_item(it@));
    }
    v
}

fn ser_items_x(items: &[TodoItem]) -> (v: Vec<char>)
    ensures
        v@ == ser_items(items@.map_values(|t: TodoItem| t@)),
    decreases items@.len(),
{
    let ghost m = items@.map_values(|t: TodoItem| t@);
    if items.len() == 0 {
        Vec::new()
    } else if items.len() == 1 {
        ser_item_x(&items[0])
    } else {
        let mut v = ser_item_x(&items[0]);
        v.push(',');
        let mut rest = ser_items_x(&items[1..items.len()]);
        proof {
            assert(items@.subrange(1, items@.len() as int) =~= items@.skip(1));
            assert(items@.skip(1).map_values(|t: TodoItem| t@) =~= m.skip(1));
        }
        v.append(&mut rest);
        proof {
            assert(v@ =~= ser_items(m));
        }
        v
    }
}

/// Writes a list in the persisted format.
pub fn to_json(list: &TodoList) -> (r: String)
    ensures
        r@ == ser_list(list@),
{
    let mut v: Vec<char> = Vec::new();
    v.push('[');
    let mut items = ser_items_x(list.list.as_slice());
    v.append(&mut items);
    v.push(']');
    proof {
        assert(v@ =~= ser_list(list@));
    }
    chars_to_string(&v)
}

// ---------------------------------------------------------------------------
// The reader, executable
// ---------------------------------------------------------------------------

fn skip_ws_x(s: &[char]) -> (r: &[char])
    ensures
        r@ == skip_ws(s@),
    decreases s@.len(),
{
    if s.len() > 0 && (s[0] == ' ' || s[0] == '\n' || s[0] == '\r' || s[0] == '\t') {
        proof {
            assert(s@.subrange(1, s@.len() as int) =~= s@.skip(1));
        }
        skip_ws_x(&s[1..s.len()])
    } else {
        s
    }
}

fn unesc_x(e: char) -> (r: Option<char>)
    ensures
        r == unesc(e),
{
    if e == '"' {
        Some('"')
    } else if e == '\\' {
        Some('\\')
    } else if e == '/' {
        Some('/')
    } else if e == 'n' {
        Some('\n')
    } else if e == 'r' {
        Some('\r')
    } else if e == 't' {
        Some('\t')
    } else if e == 'b' {
        Some('\u{0008}')
    } else if e == 'f' {
        Some('\u{000c}')
    } else {
        None
    }
}

fn parse_str_body_x<'a>(s: &'a [char]) -> (r: Option<(Vec<char>, &'a [char])>)
    ensures
        match r {
            Some((t, rest)) => parse_str_body(s@) == Some((t@, rest@)),
            None => parse_str_body(s@) is None,
        },
    decreases s@.len(),
{
    if s.len() == 0 {
        None
    } else if s[0] == '"' {
        proof {
            assert(s@.subrange(1, s@.len() as int) =~= s@.skip(1));
        }
        Some((Vec::new(), &s[1..s.len()]))
    } else if s[0] == '\\' {
        if s.len() >= 2 {
            match unesc_x(s[1]) {
                Some(c) => {
                    proof {
                        assert(s@.subrange(2, s@.len() as int) =~= s@.skip(2));
                    }
                    match parse_str_body_x(&s[2..s.len()]) {
                        Some((t, rest)) => {
                            let mut t = t;
                            t.insert(0, c);
                            proof {
                                assert(t@ =~= seq![unesc(s@[1]).unwrap()]
                                    + parse_str_body(s@.skip(2)).unwrap().0);
                            }
                            Some((t, rest))
                        },
                        None => None,
                    }
                },
                None => None,
            }
        } else {
            None
        }
    } else {
        proof {
            assert(s@.subrange(1, s@.len() as int) =~= s@.skip(1));
        }
        match parse_str_body_x(&s[1..s.len()]) {
            Some((t, rest)) => {
                let mut t = t;
                t.insert(0, s[0]);
                proof {
                    assert(t@ =~= seq![s@[0]] + parse_str_body(s@.skip(1)).unwrap().0);
                }
                Some((t, rest))
            },
            None => None,
        }
    }
}

fn parse_string_x<'a>(s: &'a [char]) -> (r: Option<(Vec<char>, &'a [char])>)
    ensures
        match r {
            Some((t, rest)) => parse_string(s@) == Some((t@, rest@)),
            None => parse_string(s@) is None,
        },
{
    if s.len() > 0 && s[0] == '"' {
        proof {
            assert(s@.subrange(1, s@.len() as int) =~= s@.skip(1));
        }
        parse_str_body_x(&s[1..s.len()])
    } else {
        None
    }
}

fn parse_bool_x<'a>(s: &'a [char]) -> (r: Option<(bool, &'a [char])>)
    ensures
        match r {
            Some((b, rest)) => parse_bool(s@) == Some((b, rest@)),
            None => parse_bool(s@) is None,
        },
{
    if s.len() >= 4 && s[0] == 't' && s[1] == 'r' && s[2] == 'u' && s[3] == 'e' {
        proof {
            assert(s@.subrange(4, s@.len() as int) =~= s@.skip(4));
        }
        Some((true, &s[4..s.len()]))
    } else if s.len() >= 5 && s[0] == 'f' && s[1] == 'a' && s[2] == 'l' && s[3] == 's' && s[4]
        == 'e' {
        proof {
            assert(s@.subrange(5, s@.len() as int) =~= s@.skip(5));
        }
        Some((false, &s[5..s.len()]))
    } else {
        None
    }
}

/// A parsed field value.
pub enum JsonValue {
    Str(Vec<char>),
    Bool(bool),
}

impl View for JsonValue {
    type V = JsonVal;

    open spec fn view(&self) -> JsonVal {
        match self {
            JsonValue::Str(v) => JsonVal::Str(v@),
            JsonValue::Bool(b) => JsonVal::Bool(*b),
        }
    }
}

fn parse_value_x<'a>(s: &'a [char]) -> (r: Option<(JsonValue, &'a [char])>)
    ensures
        match r {
            Some((v, rest)) => parse_value(s@) == Some((v@, rest@)),
            None => parse_value(s@) is None,
        },
{
    if s.len() > 0 && s[0] == '"' {
        match parse_string_x(s) {
            Some((t, rest)) => Some((JsonValue::Str(t), rest)),
            None => None,
        }
    } else {
        match parse_bool_x(s) {
            Some((b, rest)) => Some((JsonValue::Bool(b), rest)),
            None => None,
        }
    }
}

fn parse_pair_x<'a>(s: &'a [char]) -> (r: Option<((Vec<char>, JsonValue), &'a [char])>)
    ensures
        match r {
            Some(((k, v), rest)) => parse_pair(s@) == Some(((k@, v@), rest@)),
            None => parse_pair(s@) is None,
        },
{
    match parse_string_x(s) {
        Some((k, r1)) => {
            let r2 = skip_ws_x(r1);
            if r2.len() > 0 && r2[0] == ':' {
                proof {
                    assert(r2@.subrange(1, r2@.len() as int) =~= r2@.skip(1));
                }
                let r3 = skip_ws_x(&r2[1..r2.len()]);
                match parse_value_x(r3) {
                    Some((v, rest)) => Some(((k, v), rest)),
                    None => None,
                }
            } else {
                None
            }
        },
        None => None,
    }
}

/// Does this vector hold exactly `name`?
fn is_name_key(k: &Vec<char>) -> (r: bool)
    ensures
        r == (k@ == name_key()),
{
    let r = k.len() == 4 && k[0] == 'n' && k[1] == 'a' && k[2] == 'm' && k[3] == 'e';
    proof {
        if r {
            assert(k@ =~= name_key());
        }
    }
    r
}

/// Does this vector hold exactly `completed`?
fn is_completed_key(k: &Vec<char>) -> (r: bool)
    ensures
        r == (k@ == completed_key()),
{
    let r = k.len() == 9 && k[0] == 'c' && k[1] == 'o' && k[2] == 'm' && k[3] == 'p' && k[4]
        == 'l' && k[5] == 'e' && k[6] == 't' && k[7] == 'e' && k[8] == 'd';
    proof {
        if r {
            assert(k@ =~= completed_key());
        }
    }
    r
}

fn parse_item_x<'a>(s: &'a [char]) -> (r: Option<(TodoItem, &'a [char])>)
    ensures
        match r {
            Some((it, rest)) => parse_item(s@) == Some((it@, rest@)) && rest@.len() < s@.len(),
            None => parse_item(s@) is None,
        },
{
    proof {
        lemma_parse_item_len(s@);
    }
    if s.len() > 0 && s[0] == '{' {
        proof {
            assert(s@.subrange(1, s@.len() as int) =~= s@.skip(1));
        }
        let s1 = skip_ws_x(&s[1..s.len()]);
        match parse_pair_x(s1) {
            Some((p1, r1)) => {
                let r2 = skip_ws_x(r1);
                if r2.len() > 0 && r2[0] == ',' {
                    proof {
                        assert(r2@.subrange(1, r2@.len() as int) =~= r2@.skip(1));
                    }
                    let s2 = skip_ws_x(&r2[1..r2.len()]);
                    match parse_pair_x(s2) {
                        Some((p2, r3)) => {
                            let r4 = skip_ws_x(r3);
                            if r4.len() > 0 && r4[0] == '}' {
                                proof {
                                    assert(r4@.subrange(1, r4@.len() as int) =~= r4@.skip(1));
                                }
                                let rest = &r4[1..r4.len()];
                                let (k1, v1) = p1;
                                let (k2, v2) = p2;
                                if is_name_key(&k1) {
                                    match (v1, v2) {
                                        (JsonValue::Str(nm), JsonValue::Bool(c)) => {
                                            if is_completed_key(&k2) {
                                                let it = TodoItem {
                                                    name: chars_to_string(&nm),
                                                    completed: c,
                                                };
                                                Some((it, rest))
                                            } else {
                                                None
                                            }
                                        },
                                        _ => None,
                                    }
                                } else if is_completed_key(&k1) {
                                    match (v1, v2) {
                                        (JsonValue::Bool(c), JsonValue::Str(nm)) => {
                                            if is_name_key(&k2) {
                                                let it = TodoItem {
                                                    name: chars_to_string(&nm),
                                                    completed: c,
                                                };
                                                Some((it, rest))
                                            } else {
                                                None
                                            }
                                        },
                                        _ => None,
                                    }
                                } else {
                                    None
                                }
                            } else {
                                None
                            }
                        },
                        None => None,
                    }
                } else {
                    None
                }
            },
            None => None,
        }
    } else {
        None
    }
}

fn parse_items_x<'a>(s: &'a [char]) -> (r: Option<(Vec<TodoItem>, &'a [char])>)
    ensures
        match r {
            Some((items, rest)) => parse_items(s@) == Some(
                (items@.map_values(|t: TodoItem| t@), rest@),
            ),
            None => parse_items(s@) is None,
        },
    decreases s@.len(),
{
    match parse_item_x(s) {
        Some((it, r)) => {
            let r1 = skip_ws_x(r);
            proof {
                lemma_skip_ws_len(r@);
            }
            if r1.len() > 0 && r1[0] == ',' {
                proof {
                    assert(r1@.subrange(1, r1@.len() as int) =~= r1@.skip(1));
                    lemma_skip_ws_len(r1@.skip(1));
                }
                let s2 = skip_ws_x(&r1[1..r1.len()]);
                match parse_items_x(s2) {
                    Some((rest_items, r2)) => {
                        let mut items = rest_items;
                        items.insert(0, it);
                        proof {
                            assert(items@.map_values(|t: TodoItem| t@) =~= seq![
                                parse_item(s@).unwrap().0] + parse_items(s2@).unwrap().0);
                        }
                        Some((items, r2))
                    },
                    None => None,
                }
            } else if r1.len() > 0 && r1[0] == ']' {
                proof {
                    assert(r1@.subrange(1, r1@.len() as int) =~= r1@.skip(1));
                }
                let mut items: Vec<TodoItem> = Vec::new();
                items.push(it);
                proof {
                    assert(items@.map_values(|t: TodoItem| t@) =~= seq![parse_item(s@).unwrap().0]);
                }
                Some((items, &r1[1..r1.len()]))
            } else {
                None
            }
        },
        None => None,
    }
}

/// Reads a list back from the persisted format. Any input that `parse_list`
/// does not accept is rejected with `ParseError`.
pub fn from_json(s: &str) -> (r: Result<TodoList, TodoError>)
    ensures
        match r {
            Ok(list) => parse_list(s@) == Some(list@),
            Err(e) => e == TodoError::ParseError && parse_list(s@) is None,
        },
{
    let chars = str_to_chars(s);
    let s1 = skip_ws_x(chars.as_slice());
    if s1.len() > 0 && s1[0] == '[' {
        proof {
            assert(s1@.subrange(1, s1@.len() as int) =~= s1@.skip(1));
        }
        let s2 = skip_ws_x(&s1[1..s1.len()]);
        if s2.len() > 0 && s2[0] == ']' {
            proof {
                assert(s2@.subrange(1, s2@.len() as int) =~= s2@.skip(1));
            }
            let s3 = skip_ws_x(&s2[1..s2.len()]);
            if s3.len() == 0 {
                let list = TodoList::new(Vec::new());
                proof {
                    assert(list@ =~= Seq::<(Seq<char>, bool)>::empty());
                }
                Ok(list)
            } else {
                Err(TodoError::ParseError)
            }
        } else {
            match parse_items_x(s2) {
                Some((items, r)) => {
                    let r1 = skip_ws_x(r);
                    if r1.len() == 0 {
                        Ok(TodoList::new(items))
                    } else {
                        Err(TodoError::ParseError)
                    }
                },
                None => Err(TodoError::ParseError),
            }
        }
    } else {
        Err(TodoError::ParseError)
    }
}

// ---------------------------------------------------------------------------
// Round trip: reading back what the writer wrote yields the same list
// ---------------------------------------------------------------------------

proof fn lemma_parse_esc(x: Seq<char>, r: Seq<char>)
    ensures
        parse_str_body(esc(x) + seq!['"'] + r) == Some((x, r)),
    decreases x.len(),
{
    let s = esc(x) + seq!['"'] + r;
    if x.len() == 0 {
        assert(s =~= seq!['"'] + r);
        assert(s.skip(1) =~= r);
        assert(x =~= Seq::<char>::empty());
    } else {
        let c = x[0];
        let tail = esc(x.skip(1)) + seq!['"'] + r;
        lemma_parse_esc(x.skip(1), r);
        if esc_code(c) is Some {
            let e = esc_code(c).unwrap();
            assert(s =~= seq!['\\', e] + tail);
            assert(s[0] == '\\' && s[1] == e);
            assert(unesc(e) == Some(c));
            assert(s.skip(2) =~= tail);
            assert(seq![unesc(s[1]).unwrap()] + x.skip(1) =~= x);
        } else {
            assert(s =~= seq![c] + tail);
            assert(c != '"' && c != '\\');
            assert(s.skip(1) =~= tail);
            assert(seq![s[0]] + x.skip(1) =~= x);
        }
    }
}

proof fn lemma_parse_quote(x: Seq<char>, r: Seq<char>)
    ensures
        parse_string(quote(x) + r) == Some((x, r)),
{
    let s = quote(x) + r;
    assert(s[0] == '"');
    assert(s.skip(1) =~= esc(x) + seq!['"'] + r);
    lemma_parse_esc(x, r);
}

proof fn lemma_parse_bool_ser(b: bool, r: Seq<char>)
    ensures
        parse_bool(ser_bool(b) + r) == Some((b, r)),
{
    let s = ser_bool(b) + r;
    if b {
        assert(s.skip(4) =~= r);
    } else {
        assert(s.skip(5) =~= r);
    }
}

proof fn lemma_parse_item_ser(it: (Seq<char>, bool), r: Seq<char>)
    ensures
        parse_item(ser_item(it) + r) == Some((it, r)),
{
    let s = ser_item(it) + r;
    let w1 = seq![':'] + quote(it.0) + seq![','] + quote(completed_key()) + seq![':'] + ser_bool(
        it.1,
    ) + seq!['}'] + r;
    let z1 = quote(name_key()) + w1;
    assert(s =~= seq!['{'] + z1);
    assert(s[0] == '{');
    assert(s.skip(1) =~= z1);
    assert(z1[0] == '"');
    assert(skip_ws(z1) == z1);
    lemma_parse_quote(name_key(), w1);
    assert(w1[0] == ':');
    assert(skip_ws(w1) == w1);
    let w3 = seq![','] + quote(completed_key()) + seq![':'] + ser_bool(it.1) + seq!['}'] + r;
    assert(w1.skip(1) =~= quote(it.0) + w3);
    assert((quote(it.0) + w3)[0] == '"');
    assert(skip_ws(w1.skip(1)) == w1.skip(1));
    lemma_parse_quote(it.0, w3);
    assert(w3[0] == ',');
    assert(skip_ws(w3) == w3);
    let w4 = seq![':'] + ser_bool(it.1) + seq!['}'] + r;
    assert(w3.skip(1) =~= quote(completed_key()) + w4);
    assert((quote(completed_key()) + w4)[0] == '"');
    assert(skip_ws(w3.skip(1)) == w3.skip(1));
    lemma_parse_quote(completed_key(), w4);
    assert(w4[0] == ':');
    assert(skip_ws(w4) == w4);
    let w5 = seq!['}'] + r;
    assert(w4.skip(1) =~= ser_bool(it.1) + w5);
    assert((ser_bool(it.1) + w5)[0] != '"');
    assert(skip_ws(w4.skip(1)) == w4.skip(1));
    lemma_parse_bool_ser(it.1, w5);
    assert(w5[0] == '}');
    assert(skip_ws(w5) == w5);
    assert(w5.skip(1) =~= r);
    assert((it.0, it.1) == it);
}

proof fn lemma_parse_items_ser(l: Seq<(Seq<char>, bool)>, r: Seq<char>)
    requires
        l.len() > 0,
    ensures
        parse_items(ser_items(l) + seq![']'] + r) == Some((l, r)),
    decreases l.len(),
{
    let s = ser_items(l) + seq![']'] + r;
    if l.len() == 1 {
        let r0 = seq![']'] + r;
        assert(s =~= ser_item(l[0]) + r0);
        lemma_parse_item_ser(l[0], r0);
        assert(r0[0] == ']');
        assert(skip_ws(r0) == r0);
        assert(r0.skip(1) =~= r);
        assert(seq![l[0]] =~= l);
    } else {
        let t = seq![','] + (ser_items(l.skip(1)) + seq![']'] + r);
        assert(s =~= ser_item(l[0]) + t);
        lemma_parse_item_ser(l[0], t);
        assert(t[0] == ',');
        assert(skip_ws(t) == t);
        assert(t.skip(1) =~= ser_items(l.skip(1)) + seq![']'] + r);
        assert(ser_items(l.skip(1))[0] == '{');
        assert((ser_items(l.skip(1)) + seq![']'] + r)[0] == '{');
        assert(skip_ws(t.skip(1)) == t.skip(1));
        lemma_parse_items_ser(l.skip(1), r);
        assert(seq![l[0]] + l.skip(1) =~= l);
    }
}

/// The round trip law: reading back exactly what the writer produced
/// succeeds and yields the same list, order and field values preserved.
/// Saving that list again therefore writes the same characters.
pub proof fn lemma_round_trip(l: Seq<(Seq<char>, bool)>)
    ensures
        parse_list(ser_list(l)) == Some(l),
{
    let s = ser_list(l);
    assert(s[0] == '[');
    assert(skip_ws(s) == s);
    if l.len() == 0 {
        assert(s.skip(1) =~= seq![']']);
        assert(skip_ws(s.skip(1)) == s.skip(1));
        assert(s.skip(1).skip(1) =~= Seq::<char>::empty());
        assert(skip_ws(Seq::<char>::empty()).len() == 0);
        assert(l =~= Seq::<(Seq<char>, bool)>::empty());
    } else {
        assert(s.skip(1) =~= ser_items(l) + seq![']'] + Seq::<char>::empty());
        assert(ser_items(l)[0] == '{');
        assert((ser_items(l) + seq![']'] + Seq::<char>::empty())[0] == '{');
        assert(skip_ws(s.skip(1)) == s.skip(1));
        lemma_parse_items_ser(l, Seq::<char>::empty());
        assert(parse_items(s.skip(1)) == Some((l, Seq::<char>::empty())));
        assert(skip_ws(Seq::<char>::empty()).len() == 0);
    }
}

} // verus!
