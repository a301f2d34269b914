//! The request line: a method and a path, separated by white space.

use vstd::prelude::*;
use vstd::string::{StrSliceExecFns, StringExecFns};

verus! {

/// Whether `c` is white space as `char::is_whitespace` of the standard
/// library judges it: whether `c` has the Unicode property `White_Space`.
pub uninterp spec fn white_space(c: char) -> bool;

/// Calls `char::is_whitespace`. Nothing is proved of this function: its
/// contract only gives the answer of the standard library the name
/// [`white_space`], so that the words of a line can be spoken of.
#[verifier::external_body]
fn is_whitespace(c: char) -> (b: bool)
    ensures
        b == white_space(c),
{
    c.is_whitespace()
}

/// What the server reads of a request: its method and the path it asks for.
#[derive(Debug, Clone, PartialEq)]
pub struct Request {
    pub method: String,
    pub path: String,
}

/// The first position at or after `from` that holds no white space, or the
/// length of `s` if only white space follows.
pub open spec fn skip_blank(s: Seq<char>, from: int) -> int
    decreases s.len() - from,
{
    if 0 <= from < s.len() && white_space(s[from]) {
        skip_blank(s, from + 1)
    } else {
        from
    }
}

/// The first position at or after `from` that holds white space, or the
/// length of `s` if none follows.
pub open spec fn skip_word(s: Seq<char>, from: int) -> int
    decreases s.len() - from,
{
    if 0 <= from < s.len() && !white_space(s[from]) {
        skip_word(s, from + 1)
    } else {
        from
    }
}

/// The first two words of `s`, a word being a longest run of characters that
/// are not white space; `None` if `s` has fewer than two words.
pub open spec fn first_two_words(s: Seq<char>) -> Option<(Seq<char>, Seq<char>)> {
    let a = skip_blank(s, 0);
    let b = skip_word(s, a);
    let c = skip_blank(s, b);
    let d = skip_word(s, c);
    if a < s.len() && c < s.len() {
        Some((s.subrange(a, b), s.subrange(c, d)))
    } else {
        None
    }
}

/// Computes [`skip_blank`] on the characters of `line`.
fn scan_blank(line: &str, len: usize, from: usize) -> (to: usize)
    requires
        len == line@.len(),
        from <= len,
    ensures
        to == skip_blank(line@, from as int),
        from <= to <= len,
{
    let mut i: usize = from;
    while i < len
        invariant
            len == line@.len(),
            from <= i <= len,
            skip_blank(line@, i as int) == skip_blank(line@, from as int),
        decreases len - i,
    {
        if !is_whitespace(line.get_char(i)) {
            return i;
        }
        i += 1;
    }
    i
}

/// Computes [`skip_word`] on the characters of `line`.
fn scan_word(line: &str, len: usize, from: usize) -> (to: usize)
    requires
        len == line@.len(),
        from <= len,
    ensures
        to == skip_word(line@, from as int),
        from <= to <= len,
{
    let mut i: usize = from;
    while i < len
        invariant
            len == line@.len(),
            from <= i <= len,
            skip_word(line@, i as int) == skip_word(line@, from as int),
        decreases len - i,
    {
        if is_whitespace(line.get_char(i)) {
            return i;
        }
        i += 1;
    }
    i
}

/// Reads the request line: the first word is the method, the second is the
/// path, and whatever follows is ignored. Returns `None` exactly when the
/// line has fewer than two words.
pub fn parse_request(line: &str) -> (r: Option<Request>)
    ensures
        match first_two_words(line@) {
            Some((method, path)) => r matches Some(request) && request.method@ == method
                && request.path@ == path,
            None => r is None,
        },
{
    let len = line.unicode_len();
    let a = scan_blank(line, len, 0);
    let b = scan_word(line, len, a);
    let c = scan_blank(line, len, b);
    let d = scan_word(line, len, c);
    if a < len && c < len {
        let method = String::from_str(line.substring_char(a, b));
        let path = String::from_str(line.substring_char(c, d));
        Some(Request { method, path })
    } else {
        None
    }
}

} // verus!
