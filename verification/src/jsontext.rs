//! JSON text for keys, scalar values, and whole objects.
//!
//! The record is emitted as one JSON object per line.  String contents are
//! escaped: quote and backslash get a backslash escape, control characters a
//! `\u00XX` escape; every other character stands for itself.
use crate::numtext::{dec_str, digit_char, push_dec_u64, push_ratio, ratio_str};
use crate::value::Value;
use vstd::prelude::*;
use vstd::string::StrSliceExecFns;

verus! {

/// The hexadecimal digit character for `d` (meaningful for `d < 16`).
pub open spec fn hex_char(d: nat) -> char {
    if d < 10 {
        digit_char(d)
    } else if d == 10 {
        'a'
    } else if d == 11 {
        'b'
    } else if d == 12 {
        'c'
    } else if d == 13 {
        'd'
    } else if d == 14 {
        'e'
    } else {
        'f'
    }
}

/// The escape of one character inside a JSON string literal.
pub open spec fn escape_char(c: char) -> Seq<char> {
    if c == '"' {
        seq!['\\', '"']
    } else if c == '\\' {
        seq!['\\', '\\']
    } else if (c as u32) < 32 {
        seq!['\\', 'u', '0', '0', hex_char((c as u32 / 16) as nat), hex_char(
            (c as u32 % 16) as nat,
        )]
    } else {
        seq![c]
    }
}

/// The escaped body of a JSON string literal.
pub open spec fn escape_string(s: Seq<char>) -> Seq<char>
    decreases s.len(),
{
    if s.len() == 0 {
        Seq::empty()
    } else {
        escape_char(s[0]) + escape_string(s.drop_first())
    }
}

pub proof fn lemma_escape_string_snoc(s: Seq<char>, c: char)
    ensures
        escape_string(s.push(c)) == escape_string(s) + escape_char(c),
    decreases s.len(),
{
    if s.len() == 0 {
        assert(s.push(c)[0] == c);
        assert(s.push(c).drop_first() =~= Seq::<char>::empty());
        assert(escape_string(s.push(c)) == escape_char(c) + escape_string(
            s.push(c).drop_first(),
        ));
        assert(escape_string(s.push(c).drop_first()) == Seq::<char>::empty());
        assert(escape_string(s) == Seq::<char>::empty());
        assert(escape_string(s.push(c)) =~= escape_string(s) + escape_char(c));
    } else {
        assert(s.push(c).drop_first() =~= s.drop_first().push(c));
        lemma_escape_string_snoc(s.drop_first(), c);
        assert(s.push(c)[0] == s[0]);
        assert(escape_string(s.push(c)) =~= escape_string(s) + escape_char(c));
    }
}

/// A quoted, escaped JSON string literal.
pub open spec fn quoted(s: Seq<char>) -> Seq<char> {
    seq!['"'] + escape_string(s) + seq!['"']
}

/// JSON text of one scalar value (meaningful for well-formed values).
pub open spec fn value_str(v: Value) -> Seq<char> {
    match v {
        Value::Uint(n) => dec_str(n as nat),
        Value::Ratio { num, den } => ratio_str(num as nat, den as nat),
        Value::Text(s) => quoted(s@),
        Value::Bool(b) => if b {
            seq!['t', 'r', 'u', 'e']
        } else {
            seq!['f', 'a', 'l', 's', 'e']
        },
    }
}

/// JSON text of one `"key":value` member.
pub open spec fn entry_str(e: (Seq<char>, Value)) -> Seq<char> {
    quoted(e.0) + seq![':'] + value_str(e.1)
}

/// JSON text of the comma-separated members of an object.
pub open spec fn entries_str(es: Seq<(Seq<char>, Value)>) -> Seq<char>
    decreases es.len(),
{
    if es.len() == 0 {
        Seq::empty()
    } else if es.len() == 1 {
        entry_str(es[0])
    } else {
        entries_str(es.drop_last()) + seq![','] + entry_str(es.last())
    }
}

/// JSON text of a whole object.
pub open spec fn object_str(es: Seq<(Seq<char>, Value)>) -> Seq<char> {
    seq!['{'] + entries_str(es) + seq!['}']
}

fn hex_to_char(d: u8) -> (c: char)
    requires
        d < 16,
    ensures
        c == hex_char(d as nat),
{
    match d {
        0 => '0',
        1 => '1',
        2 => '2',
        3 => '3',
        4 => '4',
        5 => '5',
        6 => '6',
        7 => '7',
        8 => '8',
        9 => '9',
        10 => 'a',
        11 => 'b',
        12 => 'c',
        13 => 'd',
        14 => 'e',
        _ => 'f',
    }
}

/// Appends the escaped body of `t` to `s`.
pub fn push_escaped(s: &mut String, t: &str)
    ensures
        final(s)@ == old(s)@ + escape_string(t@),
{
    let n = t.unicode_len();
    let mut i: usize = 0;
    assert(old(s)@ + escape_string(t@.take(0)) =~= old(s)@);
    while i < n
        invariant
            n == t@.len(),
            i <= n,
            s@ == old(s)@ + escape_string(t@.take(i as int)),
        decreases n - i,
    {
        let c = t.get_char(i);
        let code = c as u32;
        if c == '"' {
            s.push('\\');
            s.push('"');
        } else if c == '\\' {
            s.push('\\');
            s.push('\\');
        } else if code < 32 {
            s.push('\\');
            s.push('u');
            s.push('0');
            s.push('0');
            s.push(hex_to_char((code / 16) as u8));
            s.push(hex_to_char((code % 16) as u8));
        } else {
            s.push(c);
        }
        proof {
            lemma_escape_string_snoc(t@.take(i as int), c);
            assert(t@.take(i as int).push(c) =~= t@.take(i + 1 as int));
            assert(s@ =~= old(s)@ + escape_string(t@.take(i + 1 as int)));
        }
        i = i + 1;
    }
    proof {
        assert(t@.take(n as int) =~= t@);
    }
}

/// Appends a quoted, escaped JSON string literal holding `t` to `s`.
pub fn push_quoted(s: &mut String, t: &str)
    ensures
        final(s)@ == old(s)@ + quoted(t@),
{
    s.push('"');
    push_escaped(s, t);
    s.push('"');
    proof {
        assert(s@ =~= old(s)@ + quoted(t@));
    }
}

/// Appends the JSON text of one scalar value to `s`.
pub fn push_value(s: &mut String, v: &Value)
    requires
        v.wf(),
    ensures
        final(s)@ == old(s)@ + value_str(*v),
{
    match v {
        Value::Uint(n) => {
            push_dec_u64(s, *n);
        },
        Value::Ratio { num, den } => {
            push_ratio(s, *num, *den);
        },
        Value::Text(t) => {
            push_quoted(s, t.as_str());
        },
        Value::Bool(b) => {
            if *b {
                s.push('t');
                s.push('r');
                s.push('u');
                s.push('e');
                proof {
                    assert(s@ =~= old(s)@ + value_str(*v));
                }
            } else {
                s.push('f');
                s.push('a');
                s.push('l');
                s.push('s');
                s.push('e');
                proof {
                    assert(s@ =~= old(s)@ + value_str(*v));
                }
            }
        },
    }
}

} // verus!
