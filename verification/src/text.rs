//! Small string helpers used throughout the library.
//!
//! Rule operators, metric names, rule ids and node ids are all plain strings;
//! the functions here compare them with contracts over their character views.

use vstd::prelude::*;

use vstd::std_specs::iter::IteratorSpec;

verus! {

broadcast use vstd::string::axiom_spec_iter;

/// Relies on `String::push` of std, which vstd leaves unspecified: it
/// appends exactly the given character.
pub assume_specification[ String::push ](s: &mut String, ch: char)
    ensures
        final(s)@ == old(s)@.push(ch),
;

/// Compares a `String` with a string slice, character for character.
pub fn string_eq_str(a: &String, b: &str) -> (r: bool)
    ensures
        r == (a@ == b@),
{
    let bs: String = b.to_owned();
    *a == bs
}

/// Compares two string slices, character for character.
pub fn str_eq(a: &str, b: &str) -> (r: bool)
    ensures
        r == (a@ == b@),
{
    let aa: String = a.to_owned();
    let bb: String = b.to_owned();
    aa == bb
}

/// Compares two `String`s, character for character.
pub fn string_eq(a: &String, b: &String) -> (r: bool)
    ensures
        r == (a@ == b@),
{
    *a == *b
}

/// Copies every string of a list into a fresh list.
pub fn clone_string_vec(v: &Vec<String>) -> (r: Vec<String>)
    ensures
        r@ == v@,
{
    let mut out: Vec<String> = Vec::new();
    let mut i: usize = 0;
    while i < v.len()
        invariant
            i <= v.len(),
            out@.len() == i,
            forall|j: int| 0 <= j < i ==> out@[j] == v@[j],
        decreases v.len() - i,
    {
        out.push(v[i].clone());
        i = i + 1;
    }
    proof {
        assert(out@ =~= v@);
    }
    out
}

/// Whether a list of strings holds one with the given view.
pub open spec fn spec_contains_string(v: Seq<String>, s: Seq<char>) -> bool {
    exists|i: int| 0 <= i < v.len() && v[i]@ == s
}

/// Looks a string up in a list of strings.
pub fn contains_string(v: &Vec<String>, s: &String) -> (r: bool)
    ensures
        r == spec_contains_string(v@, s@),
{
    let mut i: usize = 0;
    while i < v.len()
        invariant
            i <= v.len(),
            forall|j: int| 0 <= j < i ==> v@[j]@ != s@,
        decreases v.len() - i,
    {
        if string_eq(&v[i], s) {
            return true;
        }
        i = i + 1;
    }
    false
}

/// A character lowered: ASCII capitals map to their small forms, every
/// other character is unchanged.
pub open spec fn spec_lower_char(c: char) -> char {
    if 65 <= c as u32 <= 90 {
        (((c as u32) + 32) as u8) as char
    } else {
        c
    }
}

/// A string lowered character by character.
pub open spec fn spec_ascii_lower(s: Seq<char>) -> Seq<char> {
    Seq::new(s.len(), |i: int| spec_lower_char(s[i]))
}

/// Lowers one character.
fn lower_char(c: char) -> (r: char)
    ensures
        r == spec_lower_char(c),
{
    let u: u32 = c as u32;
    if 65 <= u && u <= 90 {
        ((u + 32) as u8) as char
    } else {
        c
    }
}

/// Lowers a string character by character; sensor labels are matched
/// case-insensitively over ASCII.
pub fn ascii_lowercase(s: &str) -> (r: String)
    ensures
        r@ == spec_ascii_lower(s@),
{
    let ghost body = s@;
    let mut out = String::new();
    let mut it = s.chars();
    let ghost mut done: int = 0;
    proof {
        assert(it.remaining() =~= body.skip(0));
    }
    loop
        invariant
            it.obeys_prophetic_iter_laws(),
            0 <= done <= body.len(),
            it.remaining() == body.skip(done),
            out@ =~= spec_ascii_lower(body.take(done)),
        ensures
            done == body.len(),
            out@ =~= spec_ascii_lower(body.take(done)),
        decreases body.len() - done,
    {
        let ghost it_pre = it;
        let r = it.next();
        proof {
            vstd::string::next_postcondition(&it_pre, &it, r);
        }
        match r {
            Some(c) => {
                proof {
                    assert(it_pre.remaining()[0] == body[done]);
                    assert(it_pre.remaining().drop_first() =~= body.skip(done + 1));
                }
                out.push(lower_char(c));
                proof {
                    done = done + 1;
                    assert(out@ =~= spec_ascii_lower(body.take(done)));
                }
            },
            None => {
                proof {
                    assert(body.skip(done).len() == 0);
                }
                break ;
            },
        }
    }
    proof {
        assert(body.take(body.len() as int) =~= body);
    }
    out
}

/// The characters of a string, as a list.
pub fn chars_vec(s: &str) -> (r: Vec<char>)
    ensures
        r@ == s@,
{
    let ghost body = s@;
    let mut out: Vec<char> = Vec::new();
    let mut it = s.chars();
    let ghost mut done: int = 0;
    proof {
        assert(it.remaining() =~= body.skip(0));
    }
    loop
        invariant
            it.obeys_prophetic_iter_laws(),
            0 <= done <= body.len(),
            it.remaining() == body.skip(done),
            out@ =~= body.take(done),
        ensures
            done == body.len(),
            out@ =~= body.take(done),
        decreases body.len() - done,
    {
        let ghost it_pre = it;
        let r = it.next();
        proof {
            vstd::string::next_postcondition(&it_pre, &it, r);
        }
        match r {
            Some(c) => {
                proof {
                    assert(it_pre.remaining()[0] == body[done]);
                    assert(it_pre.remaining().drop_first() =~= body.skip(done + 1));
                }
                out.push(c);
                proof {
                    done = done + 1;
                    assert(out@ =~= body.take(done));
                }
            },
            None => {
                proof {
                    assert(body.skip(done).len() == 0);
                }
                break ;
            },
        }
    }
    proof {
        assert(body.take(body.len() as int) =~= body);
    }
    out
}

/// Whether `needle` occurs somewhere in `hay`, as contiguous characters.
pub open spec fn spec_contains_seq(hay: Seq<char>, needle: Seq<char>) -> bool {
    exists|i: int|
        0 <= i <= hay.len() - needle.len() && (#[trigger] hay.subrange(i, i + needle.len()))
            == needle
}

/// Searches `hay` for `needle` as a contiguous substring.
pub fn contains_substr(hay: &str, needle: &str) -> (r: bool)
    ensures
        r == spec_contains_seq(hay@, needle@),
{
    let h = chars_vec(hay);
    let n = chars_vec(needle);
    let hlen: usize = h.len();
    let nlen: usize = n.len();
    if nlen > hlen {
        return false;
    }
    if nlen == 0 {
        proof {
            assert(hay@.subrange(0, 0 + needle@.len() as int) =~= needle@);
        }
        return true;
    }
    let last_start: usize = hlen - nlen;
    let mut i: usize = 0;
    while i <= last_start
        invariant
            h@ == hay@,
            n@ == needle@,
            hlen == h@.len(),
            nlen == n@.len(),
            1 <= nlen <= hlen,
            last_start == hlen - nlen,
            i <= last_start + 1,
            forall|ii: int|
                0 <= ii < i ==> #[trigger] hay@.subrange(ii, ii + needle@.len()) != needle@,
        decreases last_start + 1 - i,
    {
        let mut j: usize = 0;
        let mut matches: bool = true;
        while j < nlen
            invariant
                h@ == hay@,
                n@ == needle@,
                hlen == h@.len(),
                nlen == n@.len(),
                i + nlen <= hlen,
                j <= nlen,
                matches ==> forall|jj: int| 0 <= jj < j ==> h@[i + jj] == #[trigger] n@[jj],
                !matches ==> hay@.subrange(i as int, i + needle@.len()) != needle@,
            decreases nlen - j,
        {
            if h[i + j] != n[j] {
                proof {
                    let sub = hay@.subrange(i as int, i + needle@.len());
                    assert(sub[j as int] == h@[i + j]);
                    assert(sub != needle@);
                }
                matches = false;
                j = nlen;
            } else {
                j = j + 1;
            }
        }
        if matches {
            proof {
                let sub = hay@.subrange(i as int, i + needle@.len());
                assert forall|jj: int| 0 <= jj < needle@.len() implies sub[jj] == needle@[jj] by {
                    assert(h@[i + jj] == n@[jj]);
                }
                assert(sub =~= needle@);
            }
            return true;
        }
        i = i + 1;
    }
    proof {
        assert forall|ii: int|
            0 <= ii <= hay@.len() - needle@.len() implies #[trigger] hay@.subrange(
            ii,
            ii + needle@.len(),
        ) != needle@ by {
            assert(ii < i);
        }
    }
    false
}

} // verus!
