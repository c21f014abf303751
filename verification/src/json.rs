//! JSON rendering for the export surface.
//!
//! The two stores export their contents as JSON text. The exact character
//! sequence produced is defined by the spec functions here: strings are
//! escaped as JSON demands (quote, backslash, and control characters),
//! numbers are decimal, and objects list their fields in a fixed order.

use vstd::prelude::*;

use vstd::std_specs::iter::IteratorSpec;

use crate::numfmt::{spec_dec_signed, spec_hex_digit, i64_dec};

verus! {

broadcast use vstd::string::axiom_spec_iter;

/// The escape of one character inside a JSON string literal.
pub open spec fn spec_escape_char(c: char) -> Seq<char> {
    if c == '"' {
        "\\\""@
    } else if c == '\\' {
        "\\\\"@
    } else if c == '\n' {
        "\\n"@
    } else if c == '\r' {
        "\\r"@
    } else if c == '\t' {
        "\\t"@
    } else if (c as u32) < 0x20 {
        "\\u00"@ + seq![
            spec_hex_digit((c as u32 / 16) as int),
            spec_hex_digit((c as u32 % 16) as int),
        ]
    } else {
        seq![c]
    }
}

/// The escaped body of a JSON string literal.
pub open spec fn spec_json_escape(s: Seq<char>) -> Seq<char>
    decreases s.len(),
{
    if s.len() == 0 {
        Seq::empty()
    } else {
        spec_json_escape(s.drop_last()) + spec_escape_char(s.last())
    }
}

/// A whole JSON string literal: quotes around the escaped body.
pub open spec fn spec_json_string(s: Seq<char>) -> Seq<char> {
    "\""@ + spec_json_escape(s) + "\""@
}

/// The JSON text of a boolean.
pub open spec fn spec_json_bool(b: bool) -> Seq<char> {
    if b {
        "true"@
    } else {
        "false"@
    }
}

/// How the escaped body grows with the prefix it is applied to.
proof fn lemma_json_escape_step(s: Seq<char>, i: int)
    requires
        0 <= i < s.len(),
    ensures
        spec_json_escape(s.take(i + 1)) == spec_json_escape(s.take(i)) + spec_escape_char(s[i]),
{
    assert(s.take(i + 1).drop_last() =~= s.take(i));
    assert(s.take(i + 1).last() == s[i]);
}

/// Appends the escape of one character.
fn append_escaped_char(out: &mut String, c: char)
    ensures
        final(out)@ == old(out)@ + spec_escape_char(c),
{
    let ghost pre = out@;
    if c == '"' {
        out.append("\\\"");
    } else if c == '\\' {
        out.append("\\\\");
    } else if c == '\n' {
        out.append("\\n");
    } else if c == '\r' {
        out.append("\\r");
    } else if c == '\t' {
        out.append("\\t");
    } else if (c as u32) < 0x20 {
        out.append("\\u00");
        out.push(hex_digit_char((c as u32 / 16) as u64));
        out.push(hex_digit_char((c as u32 % 16) as u64));
        proof {
            assert(out@ =~= pre + spec_escape_char(c));
        }
    } else {
        out.push(c);
        proof {
            assert(out@ =~= pre + spec_escape_char(c));
        }
    }
}

/// A single hexadecimal digit as a character.
fn hex_digit_char(d: u64) -> (c: char)
    requires
        d < 16,
    ensures
        c == spec_hex_digit(d as int),
{
    if d == 0 {
        '0'
    } else if d == 1 {
        '1'
    } else if d == 2 {
        '2'
    } else if d == 3 {
        '3'
    } else if d == 4 {
        '4'
    } else if d == 5 {
        '5'
    } else if d == 6 {
        '6'
    } else if d == 7 {
        '7'
    } else if d == 8 {
        '8'
    } else if d == 9 {
        '9'
    } else if d == 10 {
        'a'
    } else if d == 11 {
        'b'
    } else if d == 12 {
        'c'
    } else if d == 13 {
        'd'
    } else if d == 14 {
        'e'
    } else {
        'f'
    }
}

/// Appends a string as a JSON string literal, escaping it.
pub fn append_json_string(out: &mut String, s: &str)
    ensures
        final(out)@ == old(out)@ + spec_json_string(s@),
{
    let ghost pre = out@;
    out.append("\"");
    let ghost body = s@;
    let mut it = s.chars();
    let ghost mut done: int = 0;
    proof {
        assert(body.take(0) =~= Seq::<char>::empty());
        assert(it.remaining() =~= body.skip(0));
    }
    loop
        invariant
            it.obeys_prophetic_iter_laws(),
            0 <= done <= body.len(),
            it.remaining() == body.skip(done),
            out@ == pre + "\""@ + spec_json_escape(body.take(done)),
        ensures
            done == body.len(),
            out@ == pre + "\""@ + spec_json_escape(body.take(done)),
        decreases body.len() - done,
    {
        let ghost it_pre = it;
        let r = it.next();
        proof {
            vstd::string::next_postcondition(&it_pre, &it, r);
        }
        match r {
            Some(c) => {
                proof {
                    assert(it_pre.remaining()[0] == body[done]);
                    assert(it_pre.remaining().drop_first() =~= body.skip(done + 1));
                    lemma_json_escape_step(body, done);
                }
                append_escaped_char(out, c);
                proof {
                    done = done + 1;
                }
            },
            None => {
                proof {
                    assert(body.skip(done).len() == 0);
                    assert(done == body.len());
                }
                break ;
            },
        }
    }
    proof {
        assert(body.take(body.len() as int) =~= body);
    }
    out.append("\"");
    proof {
        assert(out@ =~= pre + spec_json_string(s@));
    }
}

/// Renders a signed integer, appended.
pub fn append_json_int(out: &mut String, n: i64)
    ensures
        final(out)@ == old(out)@ + spec_dec_signed(n as int),
{
    let t = i64_dec(n);
    out.append(t.as_str());
}

/// Appends the JSON text of a boolean.
pub fn append_json_bool(out: &mut String, b: bool)
    ensures
        final(out)@ == old(out)@ + spec_json_bool(b),
{
    if b {
        out.append("true");
    } else {
        out.append("false");
    }
}

/// The items rendered by `f`, joined with commas.
pub open spec fn spec_json_join<T>(items: Seq<T>, f: spec_fn(T) -> Seq<char>) -> Seq<char>
    decreases items.len(),
{
    if items.len() == 0 {
        Seq::empty()
    } else if items.len() == 1 {
        f(items[0])
    } else {
        spec_json_join(items.drop_last(), f) + ","@ + f(items.last())
    }
}

/// A JSON array of the items rendered by `f`.
pub open spec fn spec_json_array<T>(items: Seq<T>, f: spec_fn(T) -> Seq<char>) -> Seq<char> {
    "["@ + spec_json_join(items, f) + "]"@
}

/// A JSON object whose members are rendered by `f` (which renders a whole
/// `key:value` member).
pub open spec fn spec_json_object<T>(items: Seq<T>, f: spec_fn(T) -> Seq<char>) -> Seq<char> {
    "{"@ + spec_json_join(items, f) + "}"@
}

/// How a comma-joined rendering grows with the prefix it is applied to.
pub proof fn lemma_json_join_step<T>(items: Seq<T>, f: spec_fn(T) -> Seq<char>, i: int)
    requires
        0 <= i < items.len(),
    ensures
        i == 0 ==> spec_json_join(items.take(1), f) == f(items[0]),
        i > 0 ==> spec_json_join(items.take(i + 1), f) == spec_json_join(items.take(i), f) + ","@
            + f(items[i]),
{
    assert(items.take(i + 1).drop_last() =~= items.take(i));
    assert(items.take(i + 1).last() == items[i]);
    if i == 0 {
        assert(items.take(1)[0] == items[0]);
    }
}

} // verus!
