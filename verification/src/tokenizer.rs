//! The tokenizer: scans the document text and yields, in document order,
//! one `(key, value)` property token per line that has the shape
//! `KEY:VALUE`, where the key is one or more uppercase ASCII letters or
//! hyphens anchored at the start of the line, and the value is the run of
//! word characters and horizontal whitespace that follows the colon.
//! A word character here is an ASCII letter, digit or underscore. Lines
//! of any other shape are silently skipped, and a value is captured only
//! up to its first character outside that class.

use vstd::prelude::*;

use crate::records::Property;
use crate::records::Tok;

verus! {

/// A character that may stand in a property key: an uppercase ASCII
/// letter or a hyphen.
pub open spec fn is_key_char(c: char) -> bool {
    ('A' <= c && c <= 'Z') || c == '-'
}

/// A character that may stand in a property value: an ASCII letter,
/// digit or underscore, or horizontal whitespace (space, tab, vertical
/// tab or form feed).
pub open spec fn is_value_char(c: char) -> bool {
    ('A' <= c && c <= 'Z') || ('a' <= c && c <= 'z') || ('0' <= c && c <= '9') || c == '_' || c
        == ' ' || c == '\t' || c == '\u{b}' || c == '\u{c}'
}

/// The first position at or after `i` whose character is not a key
/// character (or the end of the text).
pub open spec fn key_run_end(s: Seq<char>, i: int) -> int
    decreases s.len() - i,
{
    if i < 0 || i >= s.len() {
        i
    } else if is_key_char(s[i]) {
        key_run_end(s, i + 1)
    } else {
        i
    }
}

/// The first position at or after `i` whose character is not a value
/// character (or the end of the text).
pub open spec fn value_run_end(s: Seq<char>, i: int) -> int
    decreases s.len() - i,
{
    if i < 0 || i >= s.len() {
        i
    } else if is_value_char(s[i]) {
        value_run_end(s, i + 1)
    } else {
        i
    }
}

/// The position where the next line starts: one past the first newline
/// at or after `i`, or the end of the text if no newline follows.
pub open spec fn next_line(s: Seq<char>, i: int) -> int
    decreases s.len() - i,
{
    if i < 0 || i >= s.len() {
        i
    } else if s[i] == '\n' {
        i + 1
    } else {
        next_line(s, i + 1)
    }
}

/// From inside the text, the next line start lies strictly beyond `i`
/// and never beyond the end of the text.
pub proof fn lemma_next_line_bounds(s: Seq<char>, i: int)
    requires
        0 <= i < s.len(),
    ensures
        i < next_line(s, i) <= s.len(),
    decreases s.len() - i,
{
    if s[i] != '\n' {
        if i + 1 < s.len() {
            lemma_next_line_bounds(s, i + 1);
        } else {
            assert(next_line(s, i + 1) == i + 1);
        }
    }
}

/// The token that the line starting at position `i` yields, if any: a
/// key of one or more key characters anchored at `i`, then a colon,
/// then the value run after the colon.
pub open spec fn line_token(s: Seq<char>, i: int) -> Option<Tok> {
    let k = key_run_end(s, i);
    if k > i && k < s.len() && s[k] == ':' {
        Some((s.subrange(i, k), s.subrange(k + 1, value_run_end(s, k + 1))))
    } else {
        None
    }
}

/// The ordered sequence of property tokens of the text from position `i`
/// (a line start) on.
pub open spec fn spec_tokens(s: Seq<char>, i: int) -> Seq<Tok>
    decreases s.len() - i,
    via spec_tokens_decreases
{
    if i < 0 || i >= s.len() {
        Seq::empty()
    } else {
        let rest = spec_tokens(s, next_line(s, i));
        match line_token(s, i) {
            Some(t) => seq![t] + rest,
            None => rest,
        }
    }
}

#[via_fn]
proof fn spec_tokens_decreases(s: Seq<char>, i: int) {
    if 0 <= i < s.len() {
        lemma_next_line_bounds(s, i);
    }
}

/// The tokens of the whole document text.
pub open spec fn spec_tokenize(s: Seq<char>) -> Seq<Tok> {
    spec_tokens(s, 0)
}

/// Whether `c` is a key character.
fn key_char(c: char) -> (b: bool)
    ensures
        b == is_key_char(c),
{
    ('A' <= c && c <= 'Z') || c == '-'
}

/// Whether `c` is a value character.
fn value_char(c: char) -> (b: bool)
    ensures
        b == is_value_char(c),
{
    ('A' <= c && c <= 'Z') || ('a' <= c && c <= 'z') || ('0' <= c && c <= '9') || c == '_' || c
        == ' ' || c == '\t' || c == '\u{b}' || c == '\u{c}'
}

/// Scan the document text into its ordered sequence of property tokens.
pub fn tokenize(input: &str) -> (r: Vec<Property>)
    ensures
        r.deep_view() == spec_tokenize(input@),
{
    let ghost s = input@;
    let n = input.unicode_len();
    let mut out: Vec<Property> = Vec::new();
    let mut i: usize = 0;
    proof {
        assert(out.deep_view() =~= Seq::<Tok>::empty());
        assert(out.deep_view() + spec_tokens(s, 0) =~= spec_tokenize(s));
    }
    while i < n
        invariant
            n == s.len(),
            s == input@,
            0 <= i <= n,
            out.deep_view() + spec_tokens(s, i as int) == spec_tokenize(s),
        decreases n - i,
    {
        let ghost i0 = i as int;
        let ghost before = out.deep_view();

        // Find the end of the key run that starts this line.
        let mut k: usize = i;
        while k < n && key_char(input.get_char(k))
            invariant
                n == s.len(),
                s == input@,
                i <= k <= n,
                key_run_end(s, i as int) == key_run_end(s, k as int),
            decreases n - k,
        {
            k += 1;
        }
        assert(key_run_end(s, i0) == k as int);

        if k > i && k < n && input.get_char(k) == ':' {
            // Find the end of the value run after the colon.
            let mut v: usize = k + 1;
            while v < n && value_char(input.get_char(v))
                invariant
                    n == s.len(),
                    s == input@,
                    k + 1 <= v <= n,
                    value_run_end(s, k + 1) == value_run_end(s, v as int),
                decreases n - v,
            {
                v += 1;
            }
            assert(value_run_end(s, k + 1) == v as int);

            let key = input.substring_char(i, k).to_owned();
            let value = input.substring_char(k + 1, v).to_owned();
            let ghost t = (key@, value@);
            proof {
                assert(line_token(s, i0) == Some::<Tok>(t));
            }
            out.push(Property { key, value });
            proof {
                assert(out.deep_view() =~= before.push(t));
                assert(before.push(t) + spec_tokens(s, next_line(s, i0)) =~= before + (seq![t]
                    + spec_tokens(s, next_line(s, i0))));
            }
        } else {
            proof {
                assert(line_token(s, i0) is None);
            }
        }
        proof {
            assert(out.deep_view() + spec_tokens(s, next_line(s, i0)) == spec_tokenize(s));
        }

        // Move to the start of the next line.
        let mut j: usize = i;
        while j < n && input.get_char(j) != '\n'
            invariant
                n == s.len(),
                s == input@,
                i <= j <= n,
                next_line(s, i as int) == next_line(s, j as int),
            decreases n - j,
        {
            j += 1;
        }
        if j < n {
            assert(next_line(s, i0) == j + 1);
            i = j + 1;
        } else {
            assert(next_line(s, i0) == n as int);
            i = n;
        }
    }
    proof {
        assert(spec_tokens(s, i as int) =~= Seq::<Tok>::empty());
        assert(out.deep_view() =~= spec_tokenize(s));
    }
    out
}

} // verus!
