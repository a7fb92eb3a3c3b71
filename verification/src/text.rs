//! Texts as vectors of characters: taking a string apart and putting one together.

use vstd::prelude::*;

verus! {

/// The characters of `s`, in order, as a vector that can be indexed in constant time.
pub fn chars_of(s: &str) -> (v: Vec<char>)
    ensures
        v@ == s@,
{
    let mut v: Vec<char> = Vec::new();
    for c in it: s.chars()
        invariant
            v@ == it.seq().take(it.index()),
            it.seq() == s@,
    {
        v.push(c);
    }
    v
}

/// Appends one character to `out`.
///
/// Calls `String::push`, which std documents as appending the given `char` to the
/// end of the string; the contract says exactly that and is not proved here.
#[verifier::external_body]
pub(crate) fn push_char(out: &mut String, c: char)
    ensures
        final(out)@ == old(out)@.push(c),
{
    out.push(c);
}

/// Appends the characters `v[from..to]` to `out`.
pub fn push_range(out: &mut String, v: &Vec<char>, from: usize, to: usize)
    requires
        from <= to <= v@.len(),
    ensures
        final(out)@ == old(out)@ + v@.subrange(from as int, to as int),
{
    let mut i: usize = from;
    while i < to
        invariant
            from <= i <= to <= v@.len(),
            out@ == old(out)@ + v@.subrange(from as int, i as int),
        decreases to - i,
    {
        push_char(out, v[i]);
        i += 1;
    }
}

/// The characters `v[from..to]` as a new string.
pub fn string_of(v: &Vec<char>, from: usize, to: usize) -> (s: String)
    requires
        from <= to <= v@.len(),
    ensures
        s@ == v@.subrange(from as int, to as int),
{
    let mut s = String::new();
    push_range(&mut s, v, from, to);
    s
}

/// Tells whether `v[from..to]` begins with `pattern`.
pub fn starts_with(v: &Vec<char>, from: usize, to: usize, pattern: &Vec<char>) -> (b: bool)
    requires
        from <= to <= v@.len(),
    ensures
        b == pattern@.is_prefix_of(v@.subrange(from as int, to as int)),
{
    let n: usize = pattern.len();
    if n > to - from {
        return false;
    }
    let ghost window = v@.subrange(from as int, to as int);
    let mut k: usize = 0;
    while k < n
        invariant
            from <= to <= v@.len(),
            n == pattern@.len(),
            n <= to - from,
            k <= n,
            window == v@.subrange(from as int, to as int),
            forall|j: int| 0 <= j < k ==> pattern@[j] == window[j],
        decreases n - k,
    {
        if v[from + k] != pattern[k] {
            return false;
        }
        k += 1;
    }
    true
}

/// The place of the first `c` in `v[from..to]`, counted from the start of `v`.
pub fn find_char(v: &Vec<char>, from: usize, to: usize, c: char) -> (r: Option<usize>)
    requires
        from <= to <= v@.len(),
    ensures
        match r {
            Some(i) => from <= i < to && v@.subrange(from as int, to as int).index_of_first(c)
                == Some(i - from),
            None => v@.subrange(from as int, to as int).index_of_first(c) is None,
        },
{
    let ghost window = v@.subrange(from as int, to as int);
    let mut i: usize = from;
    while i < to
        invariant
            from <= i <= to <= v@.len(),
            window == v@.subrange(from as int, to as int),
            forall|j: int| 0 <= j < i - from ==> window[j] != c,
        decreases to - i,
    {
        if v[i] == c {
            proof {
                assert(window[i - from] == c);
                window.index_of_first_ensures(c);
            }
            return Some(i);
        }
        i += 1;
    }
    proof {
        window.index_of_first_ensures(c);
    }
    None
}

} // verus!
