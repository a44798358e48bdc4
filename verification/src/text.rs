//! Text as sequences of characters: reading a string's characters, searching
//! them, and building strings back from them.

use vstd::prelude::*;

verus! {

/// `String::push` appends one character to the end of the string and leaves
/// what was there before untouched. Stated of the standard library, not proved.
pub assume_specification[ String::push ](s: &mut String, c: char)
    ensures
        final(s)@ == old(s)@.push(c),
;

/// The position of the first `c` in `s` at or after `from`, or the length of
/// `s` when there is none.
pub open spec fn find(s: Seq<char>, c: char, from: int) -> int
    decreases s.len() - from,
{
    if 0 <= from < s.len() && s[from] != c {
        find(s, c, from + 1)
    } else if from < s.len() {
        from
    } else {
        s.len() as int
    }
}

/// `find` lands on the first occurrence: everything between `from` and the
/// result differs from `c`, and the result holds `c` unless it is the length.
pub proof fn lemma_find(s: Seq<char>, c: char, from: int)
    requires
        0 <= from <= s.len(),
    ensures
        from <= find(s, c, from) <= s.len(),
        find(s, c, from) < s.len() ==> s[find(s, c, from)] == c,
        forall|i: int| from <= i < find(s, c, from) ==> #[trigger] s[i] != c,
    decreases s.len() - from,
{
    if from < s.len() && s[from] != c {
        lemma_find(s, c, from + 1);
    }
}

/// A position that holds `c`, with no `c` between `from` and it, is what
/// `find` returns; so is the length, when no `c` stands at or after `from`.
pub proof fn lemma_find_is(s: Seq<char>, c: char, from: int, at: int)
    requires
        0 <= from <= at <= s.len(),
        forall|i: int| from <= i < at ==> #[trigger] s[i] != c,
        at < s.len() ==> s[at] == c,
    ensures
        find(s, c, from) == at,
    decreases at - from,
{
    if from < at {
        lemma_find_is(s, c, from + 1, at);
    }
}

/// The characters of a string, in order.
pub fn chars_of(s: &str) -> (v: Vec<char>)
    ensures
        v@ == s@,
{
    let mut v: Vec<char> = Vec::new();
    for c in it: s.chars()
        invariant
            v@ == s@.subrange(0, it.index() as int),
            it.seq() == s@,
    {
        v.push(c);
    }
    v
}

/// The string made of the characters of `s`.
pub fn string_of(s: &[char]) -> (r: String)
    ensures
        r@ == s@,
{
    let mut r = String::new();
    let mut i: usize = 0;
    while i < s.len()
        invariant
            i <= s.len(),
            r@ == s@.subrange(0, i as int),
        decreases s.len() - i,
    {
        r.push(s[i]);
        i = i + 1;
        assert(r@ =~= s@.subrange(0, i as int));
    }
    assert(r@ =~= s@);
    r
}

/// The first position at or after `from` where `s` holds `c`, or the length
/// of `s`.
pub fn find_char(s: &[char], c: char, from: usize) -> (at: usize)
    ensures
        at == find(s@, c, from as int),
        at <= s.len(),
        from <= s.len() ==> from <= at,
{
    if from >= s.len() {
        return s.len();
    }
    let mut i: usize = from;
    while i < s.len() && s[i] != c
        invariant
            from <= i <= s.len(),
            forall|k: int| from <= k < i ==> #[trigger] s@[k] != c,
        decreases s.len() - i,
    {
        i = i + 1;
    }
    proof {
        lemma_find_is(s@, c, from as int, i as int);
    }
    i
}

} // verus!
