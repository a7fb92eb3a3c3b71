//! The raw response: headers, a blank line, and the body that is handed back.

use vstd::prelude::*;
use crate::error::Error;
use crate::text::{chars_of, string_of};

verus! {

/// How many characters the blank line that ends the headers takes.
pub const DELIMITER_LEN: usize = 4;

/// True when carriage return, line feed, carriage return, line feed stand in `raw`
/// from place `i` on.
pub open spec fn delimiter_at(raw: Seq<char>, i: int) -> bool {
    &&& 0 <= i
    &&& i + DELIMITER_LEN <= raw.len()
    &&& raw[i] == '\r'
    &&& raw[i + 1] == '\n'
    &&& raw[i + 2] == '\r'
    &&& raw[i + 3] == '\n'
}

/// True when the first blank line of `raw` begins at place `i`.
pub open spec fn first_delimiter_at(raw: Seq<char>, i: int) -> bool {
    &&& delimiter_at(raw, i)
    &&& forall|j: int| 0 <= j < i ==> !delimiter_at(raw, j)
}

/// What follows the first blank line of `raw`; `None` when `raw` holds no blank line.
pub open spec fn body_of(raw: Seq<char>) -> Option<Seq<char>> {
    if exists|i: int| first_delimiter_at(raw, i) {
        let first = choose|i: int| first_delimiter_at(raw, i);
        Some(raw.skip(first + DELIMITER_LEN))
    } else {
        None
    }
}

/// Where the first blank line begins at place `i`, the body is what follows it there,
/// whatever blank lines come later.
pub proof fn lemma_body_after_first(raw: Seq<char>, i: int)
    requires
        first_delimiter_at(raw, i),
    ensures
        body_of(raw) == Some(raw.skip(i + DELIMITER_LEN)),
{
    let first = choose|k: int| first_delimiter_at(raw, k);
    assert(first == i);
}

/// A text without a blank line has no body.
pub proof fn lemma_no_delimiter_no_body(raw: Seq<char>)
    requires
        forall|i: int| !delimiter_at(raw, i),
    ensures
        body_of(raw) is None,
{
}

/// A text with a blank line anywhere has a body.
pub proof fn lemma_delimiter_gives_body(raw: Seq<char>, i: int)
    requires
        delimiter_at(raw, i),
    ensures
        body_of(raw) is Some,
    decreases i,
{
    if forall|j: int| 0 <= j < i ==> !delimiter_at(raw, j) {
        assert(first_delimiter_at(raw, i));
    } else {
        let j = choose|j: int| 0 <= j < i && delimiter_at(raw, j);
        lemma_delimiter_gives_body(raw, j);
    }
}

/// The search for the first blank line passes over a line that holds no carriage
/// return, where the text after its line end does not begin with one.
pub proof fn lemma_first_delimiter_after_line(line: Seq<char>, rest: Seq<char>, k: int)
    requires
        !line.contains('\r'),
        rest.len() > 0 ==> rest[0] != '\r',
        first_delimiter_at(rest, k),
    ensures
        first_delimiter_at(line + seq!['\r', '\n'] + rest, line.len() + 2 + k),
{
    let text = line + seq!['\r', '\n'] + rest;
    let n = line.len() as int;
    assert forall|j: int| 0 <= j < n + 2 + k implies !delimiter_at(text, j) by {
        if j >= n + 2 {
            assert(!delimiter_at(rest, j - n - 2));
        }
    }
    assert(delimiter_at(text, n + 2 + k));
}

/// A line that holds no carriage return and is followed by a blank line ends where
/// the first blank line begins.
pub proof fn lemma_first_delimiter_ends_line(line: Seq<char>, rest: Seq<char>)
    requires
        !line.contains('\r'),
    ensures
        first_delimiter_at(line + seq!['\r', '\n', '\r', '\n'] + rest, line.len() as int),
{
    let text = line + seq!['\r', '\n', '\r', '\n'] + rest;
    assert forall|j: int| 0 <= j < line.len() implies !delimiter_at(text, j) by {}
}

/// Takes the body out of a raw response: everything after the first blank line.
/// The status line and the headers are dropped unread. A response without a blank
/// line is refused.
pub fn split_body(raw: &str) -> (r: Result<String, Error>)
    ensures
        match r {
            Ok(body) => body_of(raw@) == Some(body@),
            Err(e) => e == Error::InvalidResponse && body_of(raw@) is None,
        },
{
    let v = chars_of(raw);
    let n: usize = v.len();
    if n < DELIMITER_LEN {
        return Err(Error::InvalidResponse);
    }
    let last: usize = n - DELIMITER_LEN;
    let mut i: usize = 0;
    while i <= last
        invariant
            n == v@.len(),
            v@ == raw@,
            last == n - DELIMITER_LEN,
            i <= last + 1,
            forall|j: int| 0 <= j < i ==> !delimiter_at(v@, j),
        decreases last + 1 - i,
    {
        if v[i] == '\r' && v[i + 1] == '\n' && v[i + 2] == '\r' && v[i + 3] == '\n' {
            proof {
                lemma_body_after_first(v@, i as int);
            }
            return Ok(string_of(&v, i + DELIMITER_LEN, n));
        }
        i += 1;
    }
    assert forall|j: int| !delimiter_at(v@, j) by {}
    Err(Error::InvalidResponse)
}

} // verus!
