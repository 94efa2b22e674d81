//! Sequences of characters: conversions between strings and vectors of
//! characters, and the position of the first occurrence of a character.

use vstd::prelude::*;

verus! {

/// `String::push` of the standard library: the character is appended to the
/// end of the string.
pub assume_specification[ String::push ](s: &mut String, c: char)
    ensures
        final(s)@ == old(s)@.push(c),
;

/// The position of the first `c` in `s`, or the length of `s` where `s` holds
/// no `c`.
pub open spec fn first_index(s: Seq<char>, c: char) -> int
    decreases s.len(),
{
    if s.len() == 0 || s[0] == c {
        0
    } else {
        1 + first_index(s.drop_first(), c)
    }
}

/// `first_index(s, c)` lies within `s` or at its end, no `c` stands before
/// it, and where it lies within `s` a `c` stands at it.
pub proof fn lemma_first_index(s: Seq<char>, c: char)
    ensures
        0 <= first_index(s, c) <= s.len(),
        forall|k: int| 0 <= k < first_index(s, c) ==> s[k] != c,
        first_index(s, c) < s.len() ==> s[first_index(s, c)] == c,
        first_index(s, c) == s.len() <==> !s.contains(c),
    decreases s.len(),
{
    if s.len() == 0 || s[0] == c {
    } else {
        let tail = s.drop_first();
        lemma_first_index(tail, c);
        assert forall|k: int| 0 <= k < first_index(s, c) implies s[k] != c by {
            if k > 0 {
                assert(s[k] == tail[k - 1]);
            }
        }
        if first_index(s, c) == s.len() {
            assert forall|k: int| 0 <= k < s.len() implies s[k] != c by {}
        } else {
            assert(s[first_index(s, c)] == tail[first_index(tail, c)]);
        }
    }
}

/// A position with no `c` before it, and with a `c` at it unless it is the
/// end of `s`, is `first_index(s, c)`.
pub proof fn lemma_first_index_is(s: Seq<char>, c: char, i: int)
    requires
        0 <= i <= s.len(),
        forall|k: int| 0 <= k < i ==> s[k] != c,
        i < s.len() ==> s[i] == c,
    ensures
        first_index(s, c) == i,
{
    lemma_first_index(s, c);
}

/// The number of times that `c` stands in `s`.
pub open spec fn occurrences(s: Seq<char>, c: char) -> nat
    decreases s.len(),
{
    if s.len() == 0 {
        0
    } else if s[0] == c {
        1 + occurrences(s.drop_first(), c)
    } else {
        occurrences(s.drop_first(), c)
    }
}

/// A sequence without `c` holds it zero times. One with `c` holds it once
/// more than what follows its first `c` does.
pub proof fn lemma_occurrences_after_first(s: Seq<char>, c: char)
    ensures
        first_index(s, c) >= s.len() ==> occurrences(s, c) == 0,
        first_index(s, c) < s.len() ==> occurrences(s, c) == 1 + occurrences(
            s.skip(first_index(s, c) + 1),
            c,
        ),
    decreases s.len(),
{
    if s.len() == 0 {
    } else if s[0] == c {
        assert(s.skip(1) =~= s.drop_first());
    } else {
        let tail = s.drop_first();
        let i = first_index(tail, c);
        lemma_occurrences_after_first(tail, c);
        lemma_first_index(tail, c);
        if i < tail.len() {
            assert(tail.skip(i + 1) =~= s.skip(i + 2));
        }
    }
}

/// The characters of `s`, in order.
pub(crate) fn to_chars(s: &str) -> (chars: Vec<char>)
    ensures
        chars@ == s@,
{
    let mut chars: Vec<char> = Vec::new();
    for c in it: s.chars()
        invariant
            it.seq() == s@,
            chars@ == s@.take(it.index()),
    {
        chars.push(c);
    }
    chars
}

/// The string made of `chars[from..to]`.
pub(crate) fn substring(chars: &Vec<char>, from: usize, to: usize) -> (s: String)
    requires
        from <= to <= chars.len(),
    ensures
        s@ == chars@.subrange(from as int, to as int),
{
    let mut s = String::new();
    let mut i: usize = from;
    while i < to
        invariant
            from <= i <= to <= chars.len(),
            s@ == chars@.subrange(from as int, i as int),
        decreases to - i,
    {
        s.push(chars[i]);
        i += 1;
    }
    s
}

/// The first position in `from..to` at which `chars` holds `c`, or `to` where
/// it holds none there.
pub(crate) fn find(chars: &Vec<char>, from: usize, to: usize, c: char) -> (at: usize)
    requires
        from <= to <= chars.len(),
    ensures
        from <= at <= to,
        at - from == first_index(chars@.subrange(from as int, to as int), c),
{
    let mut i: usize = from;
    while i < to && chars[i] != c
        invariant
            from <= i <= to <= chars.len(),
            forall|k: int| from <= k < i ==> chars@[k] != c,
        decreases to - i,
    {
        i += 1;
    }
    proof {
        lemma_first_index_is(chars@.subrange(from as int, to as int), c, i - from);
    }
    i
}

} // verus!
