//! Character-level scanning: the pieces of the specification grammar that do
//! not know what a directive is.

use vstd::prelude::*;

verus! {

/// White space in the sense of Unicode's `White_Space` property.
pub open spec fn is_space(c: char) -> bool {
    let u = c as u32;
    ||| 0x09 <= u <= 0x0D
    ||| u == 0x20
    ||| u == 0x85
    ||| u == 0xA0
    ||| u == 0x1680
    ||| 0x2000 <= u <= 0x200A
    ||| u == 0x2028
    ||| u == 0x2029
    ||| u == 0x202F
    ||| u == 0x205F
    ||| u == 0x3000
}

/// The position of the first `c` in `s`, or the length of `s` where it holds
/// none.
pub open spec fn first_index_of(s: Seq<char>, c: char) -> nat
    decreases s.len(),
{
    if s.len() == 0 || s[0] == c {
        0
    } else {
        1 + first_index_of(s.drop_first(), c)
    }
}

/// The pieces between the separators of `s`. A sequence without a separator
/// is one piece, so there is always at least one.
pub open spec fn split(s: Seq<char>, sep: char) -> Seq<Seq<char>>
    decreases s.len(),
{
    let i = first_index_of(s, sep);
    if i >= s.len() {
        seq![s]
    } else {
        seq![s.take(i as int)] + split(s.skip(i as int + 1), sep)
    }
}

/// `s` without the white space at its two ends.
pub open spec fn trimmed(s: Seq<char>) -> Seq<char>
    decreases s.len(),
{
    if s.len() > 0 && is_space(s[0]) {
        trimmed(s.drop_first())
    } else if s.len() > 0 && is_space(s.last()) {
        trimmed(s.drop_last())
    } else {
        s
    }
}

/// `first_index_of` is the one position before which no `c` stands and at
/// which, unless it is the end, a `c` does.
pub proof fn lemma_first_index_of(s: Seq<char>, c: char, i: int)
    requires
        0 <= i <= s.len(),
        forall|k: int| 0 <= k < i ==> s[k] != c,
        i < s.len() ==> s[i] == c,
    ensures
        first_index_of(s, c) == i,
    decreases s.len(),
{
    if i > 0 {
        lemma_first_index_of(s.drop_first(), c, i - 1);
    }
}

/// The first position found is in range, holds the character sought unless
/// it is the end, and nothing before it does.
pub proof fn lemma_first_index_of_bounds(s: Seq<char>, c: char)
    ensures
        first_index_of(s, c) <= s.len(),
        first_index_of(s, c) < s.len() ==> s[first_index_of(s, c) as int] == c,
        forall|k: int| 0 <= k < first_index_of(s, c) ==> s[k] != c,
    decreases s.len(),
{
    if s.len() > 0 && s[0] != c {
        let rest = s.drop_first();
        lemma_first_index_of_bounds(rest, c);
        assert forall|k: int| 0 <= k < first_index_of(s, c) implies s[k] != c by {
            if k > 0 {
                assert(s[k] == rest[k - 1]);
            }
        }
    }
}

/// The shape of a split: there is at least one piece, and the first is all
/// that stands before the first separator. Without a separator it is the only
/// piece; else the pieces behind it are the split of what follows that
/// separator.
pub proof fn lemma_split_first(s: Seq<char>, sep: char)
    ensures
        split(s, sep).len() >= 1,
        split(s, sep)[0] == s.take(first_index_of(s, sep) as int),
        first_index_of(s, sep) >= s.len() ==> split(s, sep) == seq![s],
        first_index_of(s, sep) < s.len() ==> split(s, sep).skip(1) == split(
            s.skip(first_index_of(s, sep) as int + 1),
            sep,
        ),
{
    lemma_first_index_of_bounds(s, sep);
    let i = first_index_of(s, sep);
    if i >= s.len() {
        assert(s.take(i as int) == s);
    } else {
        let rest = split(s.skip(i as int + 1), sep);
        assert((seq![s.take(i as int)] + rest).skip(1) == rest);
    }
}

/// The pieces with the separator put between them.
pub open spec fn joined(pieces: Seq<Seq<char>>, sep: char) -> Seq<char>
    decreases pieces.len(),
{
    if pieces.len() == 0 {
        Seq::empty()
    } else if pieces.len() == 1 {
        pieces[0]
    } else {
        pieces[0] + seq![sep] + joined(pieces.drop_first(), sep)
    }
}

/// Splitting loses nothing and cuts at every separator: the pieces joined
/// give the sequence back, and no piece holds the separator.
pub proof fn lemma_split_joined(s: Seq<char>, sep: char)
    ensures
        joined(split(s, sep), sep) == s,
        forall|i: int| 0 <= i < split(s, sep).len() ==> !(#[trigger] split(s, sep)[i]).contains(sep),
    decreases s.len(),
{
    lemma_first_index_of_bounds(s, sep);
    lemma_split_first(s, sep);
    let i = first_index_of(s, sep) as int;
    let pieces = split(s, sep);
    if i < s.len() {
        let rest = s.skip(i + 1);
        lemma_split_joined(rest, sep);
        lemma_split_first(rest, sep);
        assert(pieces.drop_first() == split(rest, sep));
        assert(s.take(i) + seq![sep] + rest == s);
        assert forall|k: int| 0 <= k < pieces.len() implies !(#[trigger] pieces[k]).contains(
            sep,
        ) by {
            if k > 0 {
                assert(pieces[k] == split(rest, sep)[k - 1]);
            }
        }
    }
}

/// What trimming leaves is a stretch of the sequence with nothing but white
/// space before and behind it, and with no white space at its own ends.
pub proof fn lemma_trimmed(s: Seq<char>) -> (r: (int, int))
    ensures
        0 <= r.0 <= r.1 <= s.len(),
        trimmed(s) == s.subrange(r.0, r.1),
        forall|k: int| 0 <= k < r.0 ==> is_space(s[k]),
        forall|k: int| r.1 <= k < s.len() ==> is_space(s[k]),
        r.0 < r.1 ==> !is_space(s[r.0]) && !is_space(s[r.1 - 1]),
    decreases s.len(),
{
    if s.len() > 0 && is_space(s[0]) {
        let rest = s.drop_first();
        let (a, b) = lemma_trimmed(rest);
        assert(rest.subrange(a, b) == s.subrange(a + 1, b + 1));
        assert forall|k: int| 0 <= k < a + 1 implies is_space(s[k]) by {
            if k > 0 {
                assert(s[k] == rest[k - 1]);
            }
        }
        assert forall|k: int| b + 1 <= k < s.len() implies is_space(s[k]) by {
            assert(s[k] == rest[k - 1]);
        }
        if a < b {
            assert(s[a + 1] == rest[a] && s[b] == rest[b - 1]);
        }
        (a + 1, b + 1)
    } else if s.len() > 0 && is_space(s.last()) {
        let rest = s.drop_last();
        let (a, b) = lemma_trimmed(rest);
        assert(rest.subrange(a, b) == s.subrange(a, b));
        assert forall|k: int| 0 <= k < a implies is_space(s[k]) by {
            assert(s[k] == rest[k]);
        }
        assert forall|k: int| b <= k < s.len() implies is_space(s[k]) by {
            if k < rest.len() {
                assert(s[k] == rest[k]);
            }
        }
        if a < b {
            assert(s[a] == rest[a] && s[b - 1] == rest[b - 1]);
        }
        (a, b)
    } else {
        assert(s.subrange(0, s.len() as int) == s);
        (0, s.len() as int)
    }
}

/// Decides whether a character is white space.
pub fn is_space_char(c: char) -> (r: bool)
    ensures
        r == is_space(c),
{
    let u: u32 = c as u32;
    (0x09 <= u && u <= 0x0D) || u == 0x20 || u == 0x85 || u == 0xA0 || u == 0x1680 || (0x2000 <= u
        && u <= 0x200A) || u == 0x2028 || u == 0x2029 || u == 0x202F || u == 0x205F || u == 0x3000
}

/// Copies the characters of a string into a vector, so that they can be
/// indexed in constant time.
pub fn chars_of(s: &str) -> (v: Vec<char>)
    ensures
        v@ == s@,
{
    let mut v: Vec<char> = Vec::new();
    for c in it: s.chars()
        invariant
            v@ == it.seq().take(it.index()),
    {
        v.push(c);
    }
    v
}

/// Compares the range `chars[from..to]` with a word.
pub fn range_is(chars: &[char], from: usize, to: usize, word: &str) -> (r: bool)
    requires
        from <= to <= chars.len(),
    ensures
        r == (chars@.subrange(from as int, to as int) == word@),
{
    let n: usize = word.unicode_len();
    if to - from != n {
        return false;
    }
    let mut i: usize = 0;
    while i < n
        invariant
            from <= to <= chars.len(),
            n == to - from,
            n == word@.len(),
            i <= n,
            forall|k: int| 0 <= k < i ==> chars@[from + k] == word@[k],
        decreases n - i,
    {
        if chars[from + i] != word.get_char(i) {
            assert(chars@.subrange(from as int, to as int)[i as int] != word@[i as int]);
            return false;
        }
        i += 1;
    }
    assert(chars@.subrange(from as int, to as int) =~= word@);
    true
}

/// Decides whether `target` starts with `prefix`.
pub fn starts_with(target: &[char], prefix: &str) -> (r: bool)
    ensures
        r == prefix@.is_prefix_of(target@),
{
    let mut i: usize = 0;
    for c in it: prefix.chars()
        invariant
            i == it.index(),
            i <= target.len(),
            it.seq() == prefix@,
            forall|k: int| 0 <= k < i ==> target@[k] == prefix@[k],
    {
        if i >= target.len() || target[i] != c {
            proof {
                assert(i < prefix@.len());
                assert(c == prefix@[i as int]);
                if prefix@.len() <= target@.len() {
                    assert(target@.subrange(0, prefix@.len() as int)[i as int] == target@[i as int]);
                }
            }
            return false;
        }
        i += 1;
    }
    assert(prefix@ =~= target@.subrange(0, prefix@.len() as int));
    true
}

/// Finds the first `c` in `chars[from..to]`; returns `to` where there is
/// none.
pub fn find_char(chars: &[char], from: usize, to: usize, c: char) -> (at: usize)
    requires
        from <= to <= chars.len(),
    ensures
        from <= at <= to,
        at - from == first_index_of(chars@.subrange(from as int, to as int), c),
        forall|k: int| from <= k < at ==> chars@[k] != c,
        at < to ==> chars@[at as int] == c,
{
    let mut at: usize = from;
    while at < to && chars[at] != c
        invariant
            from <= at <= to <= chars.len(),
            forall|k: int| from <= k < at ==> chars@[k] != c,
        decreases to - at,
    {
        at += 1;
    }
    proof {
        lemma_first_index_of(chars@.subrange(from as int, to as int), c, at - from);
    }
    at
}

/// Finds the range left of `chars[from..to]` once the white space at both
/// ends is taken away.
pub fn trim_range(chars: &[char], from: usize, to: usize) -> (r: (usize, usize))
    requires
        from <= to <= chars.len(),
    ensures
        from <= r.0 <= r.1 <= to,
        chars@.subrange(r.0 as int, r.1 as int) == trimmed(
            chars@.subrange(from as int, to as int),
        ),
{
    let mut a: usize = from;
    while a < to && is_space_char(chars[a])
        invariant
            from <= a <= to <= chars.len(),
            trimmed(chars@.subrange(a as int, to as int)) == trimmed(
                chars@.subrange(from as int, to as int),
            ),
        decreases to - a,
    {
        assert(chars@.subrange(a as int, to as int).drop_first() == chars@.subrange(
            a + 1,
            to as int,
        ));
        a += 1;
    }
    let mut b: usize = to;
    while a < b && is_space_char(chars[b - 1])
        invariant
            from <= a <= b <= to <= chars.len(),
            a < to ==> !is_space(chars@[a as int]),
            trimmed(chars@.subrange(a as int, b as int)) == trimmed(
                chars@.subrange(from as int, to as int),
            ),
        decreases b - a,
    {
        assert(chars@.subrange(a as int, b as int).drop_last() == chars@.subrange(
            a as int,
            b - 1,
        ));
        b -= 1;
    }
    (a, b)
}

} // verus!
