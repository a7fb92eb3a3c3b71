//! Whitespace, and what is left of a text without it at either end.

use vstd::prelude::*;

verus! {

/// The characters that count as whitespace: those with the Unicode property `White_Space`.
pub open spec fn is_space(c: char) -> bool {
    ||| '\u{9}' <= c <= '\u{d}'
    ||| c == ' '
    ||| c == '\u{85}'
    ||| c == '\u{a0}'
    ||| c == '\u{1680}'
    ||| '\u{2000}' <= c <= '\u{200a}'
    ||| c == '\u{2028}'
    ||| c == '\u{2029}'
    ||| c == '\u{202f}'
    ||| c == '\u{205f}'
    ||| c == '\u{3000}'
}

/// True when `s` holds nothing but whitespace.
pub open spec fn is_blank(s: Seq<char>) -> bool {
    forall|i: int| 0 <= i < s.len() ==> is_space(#[trigger] s[i])
}

/// `s` without its leading whitespace.
pub open spec fn trim_start(s: Seq<char>) -> Seq<char>
    decreases s.len(),
{
    if s.len() > 0 && is_space(s.first()) {
        trim_start(s.drop_first())
    } else {
        s
    }
}

/// `s` without its trailing whitespace.
pub open spec fn trim_end(s: Seq<char>) -> Seq<char>
    decreases s.len(),
{
    if s.len() > 0 && is_space(s.last()) {
        trim_end(s.drop_last())
    } else {
        s
    }
}

/// `s` without its leading and trailing whitespace.
pub open spec fn trimmed(s: Seq<char>) -> Seq<char> {
    trim_end(trim_start(s))
}

/// Tells whether `c` is whitespace.
pub fn is_whitespace(c: char) -> (b: bool)
    ensures
        b == is_space(c),
{
    (c >= '\u{9}' && c <= '\u{d}') || c == ' ' || c == '\u{85}' || c == '\u{a0}' || c == '\u{1680}'
        || (c >= '\u{2000}' && c <= '\u{200a}') || c == '\u{2028}' || c == '\u{2029}' || c
        == '\u{202f}' || c == '\u{205f}' || c == '\u{3000}'
}

/// The bounds of `v` without its leading and trailing whitespace.
pub fn trim_bounds(v: &Vec<char>) -> (r: (usize, usize))
    ensures
        r.0 <= r.1 <= v@.len(),
        v@.subrange(r.0 as int, r.1 as int) == trimmed(v@),
{
    let mut start: usize = 0;
    while start < v.len() && is_whitespace(v[start])
        invariant
            start <= v@.len(),
            is_blank(v@.take(start as int)),
        decreases v@.len() - start,
    {
        start += 1;
    }
    let ghost tail = v@.skip(start as int);
    proof {
        lemma_trim_start_skips(v@.take(start as int), tail);
        assert(v@.take(start as int) + tail =~= v@);
    }
    let mut end: usize = v.len();
    while end > start && is_whitespace(v[end - 1])
        invariant
            start <= end <= v@.len(),
            is_blank(v@.subrange(end as int, v@.len() as int)),
        decreases end,
    {
        proof {
            let cut = v@.subrange(end as int, v@.len() as int);
            let longer = v@.subrange(end - 1, v@.len() as int);
            assert forall|i: int| 0 <= i < longer.len() implies is_space(#[trigger] longer[i]) by {
                if i > 0 {
                    assert(longer[i] == cut[i - 1]);
                }
            }
        }
        end -= 1;
    }
    proof {
        let kept = v@.subrange(start as int, end as int);
        let cut = v@.subrange(end as int, v@.len() as int);
        lemma_trim_end_cuts(kept, cut);
        assert(kept + cut =~= tail);
    }
    (start, end)
}

/// Whitespace in front is trimmed away with the rest of the leading whitespace.
pub proof fn lemma_trim_start_skips(blank: Seq<char>, s: Seq<char>)
    requires
        is_blank(blank),
    ensures
        trim_start(blank + s) == trim_start(s),
    decreases blank.len(),
{
    if blank.len() > 0 {
        assert((blank + s).drop_first() =~= blank.drop_first() + s);
        lemma_trim_start_skips(blank.drop_first(), s);
    }
}

/// Whitespace at the end is trimmed away with the rest of the trailing whitespace.
pub proof fn lemma_trim_end_cuts(s: Seq<char>, blank: Seq<char>)
    requires
        is_blank(blank),
    ensures
        trim_end(s + blank) == trim_end(s),
    decreases blank.len(),
{
    if blank.len() > 0 {
        assert((s + blank).drop_last() =~= s + blank.drop_last());
        lemma_trim_end_cuts(s, blank.drop_last());
    }
}

/// Trimming the end stops at a character that is no whitespace: what stands up to
/// that character stays, and what follows it is trimmed by itself.
pub proof fn lemma_trim_end_after(a: Seq<char>, b: Seq<char>)
    requires
        a.len() > 0,
        !is_space(a.last()),
    ensures
        trim_end(a + b) == a + trim_end(b),
    decreases b.len(),
{
    if b.len() > 0 && is_space(b.last()) {
        assert((a + b).drop_last() =~= a + b.drop_last());
        lemma_trim_end_after(a, b.drop_last());
    }
}

/// What trimming the end leaves holds only characters of the text, and does not end
/// in whitespace.
pub proof fn lemma_trim_end_is_prefix(s: Seq<char>)
    ensures
        trim_end(s).is_prefix_of(s),
        trim_end(s).len() > 0 ==> !is_space(trim_end(s).last()),
    decreases s.len(),
{
    if s.len() > 0 && is_space(s.last()) {
        lemma_trim_end_is_prefix(s.drop_last());
    }
}

/// Trimming the end changes a text exactly when it ends in whitespace.
pub proof fn lemma_trim_end_changes(s: Seq<char>)
    ensures
        trim_end(s) == s <==> s.len() == 0 || !is_space(s.last()),
{
    if s.len() > 0 && is_space(s.last()) {
        lemma_trim_end_is_prefix(s.drop_last());
    }
}

/// Trimming keeps a text that neither begins nor ends with whitespace.
pub proof fn lemma_trimmed_keeps(s: Seq<char>)
    requires
        s.len() > 0 ==> !is_space(s.first()) && !is_space(s.last()),
    ensures
        trimmed(s) == s,
{
}

/// Whitespace before and after a text makes no difference to what trimming leaves.
pub proof fn lemma_trimmed_ignores_padding(lead: Seq<char>, s: Seq<char>, trail: Seq<char>)
    requires
        is_blank(lead),
        is_blank(trail),
    ensures
        trimmed(lead + s + trail) == trimmed(s),
    decreases s.len(),
{
    assert(lead + s + trail =~= lead + (s + trail));
    lemma_trim_start_skips(lead, s + trail);
    if s.len() == 0 {
        lemma_trim_start_skips(trail, s);
    } else if is_space(s.first()) {
        let none = Seq::<char>::empty();
        assert((s + trail).drop_first() =~= none + s.drop_first() + trail);
        lemma_trimmed_ignores_padding(none, s.drop_first(), trail);
    } else {
        lemma_trim_end_cuts(s, trail);
    }
}

} // verus!
