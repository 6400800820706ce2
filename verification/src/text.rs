//! Text as sequences of characters: conversion from and to strings,
//! trimming, and searching.

use vstd::prelude::*;

verus! {

/// `String::push` appends one character to the end of the string.
pub assume_specification[ String::push ](s: &mut String, c: char)
    ensures
        final(s)@ == old(s)@.push(c),
;

/// The characters of `s`, in order.
pub fn chars_of(s: &str) -> (chars: Vec<char>)
    ensures
        chars@ == s@,
{
    broadcast use vstd::string::axiom_spec_iter;

    let mut chars: Vec<char> = Vec::new();
    for c in iter: s.chars()
        invariant
            iter.seq() == s@,
            chars@ == s@.take(iter.index()),
    {
        chars.push(c);
    }
    chars
}

/// The string made of `chars`, in order.
pub fn string_of(chars: &[char]) -> (s: String)
    ensures
        s@ == chars@,
{
    let mut s = String::new();
    let mut i: usize = 0;
    while i < chars.len()
        invariant
            i <= chars@.len(),
            s@ == chars@.take(i as int),
        decreases chars@.len() - i,
    {
        s.push(chars[i]);
        i += 1;
    }
    s
}

/// Appends the characters `part[from..to]` to `out`.
pub fn push_range(out: &mut Vec<char>, part: &[char], from: usize, to: usize)
    requires
        from <= to <= part@.len(),
    ensures
        final(out)@ == old(out)@ + part@.subrange(from as int, to as int),
{
    let mut i: usize = from;
    while i < to
        invariant
            from <= i <= to <= part@.len(),
            out@ == old(out)@ + part@.subrange(from as int, i as int),
        decreases to - i,
    {
        out.push(part[i]);
        i += 1;
    }
}

/// Tells whether two texts are the same.
pub fn same_chars(a: &[char], b: &[char]) -> (r: bool)
    ensures
        r == (a@ == b@),
{
    if a.len() != b.len() {
        return false;
    }
    let mut i: usize = 0;
    while i < a.len()
        invariant
            a@.len() == b@.len(),
            i <= a@.len(),
            forall|j: int| 0 <= j < i ==> a@[j] == b@[j],
        decreases a@.len() - i,
    {
        if a[i] != b[i] {
            return false;
        }
        i += 1;
    }
    assert(a@ =~= b@);
    true
}

/// Whether `c` is white space: a character with the Unicode property
/// `White_Space`.
pub open spec fn is_whitespace(c: char) -> bool {
    let code = c as u32;
    ||| 0x09 <= code <= 0x0d
    ||| code == 0x20
    ||| code == 0x85
    ||| code == 0xa0
    ||| code == 0x1680
    ||| 0x2000 <= code <= 0x200a
    ||| code == 0x2028
    ||| code == 0x2029
    ||| code == 0x202f
    ||| code == 0x205f
    ||| code == 0x3000
}

/// Tells whether `c` is white space.
pub fn is_whitespace_char(c: char) -> (r: bool)
    ensures
        r == is_whitespace(c),
{
    let code: u32 = c as u32;
    (0x09 <= code && code <= 0x0d) || code == 0x20 || code == 0x85 || code == 0xa0 || code
        == 0x1680 || (0x2000 <= code && code <= 0x200a) || code == 0x2028 || code == 0x2029 || code
        == 0x202f || code == 0x205f || code == 0x3000
}

/// `s` without the white space it begins with.
pub open spec fn trim_start(s: Seq<char>) -> Seq<char>
    decreases s.len(),
{
    if s.len() > 0 && is_whitespace(s.first()) {
        trim_start(s.drop_first())
    } else {
        s
    }
}

/// `s` without the white space it ends with.
pub open spec fn trim_end(s: Seq<char>) -> Seq<char>
    decreases s.len(),
{
    if s.len() > 0 && is_whitespace(s.last()) {
        trim_end(s.drop_last())
    } else {
        s
    }
}

/// `s` without the white space around it.
pub open spec fn trim(s: Seq<char>) -> Seq<char> {
    trim_end(trim_start(s))
}

/// Finds what is left of `chars` once the white space around it is gone:
/// the result `(from, to)` bounds that part.
pub fn trim_bounds(chars: &[char]) -> (bounds: (usize, usize))
    ensures
        bounds.0 <= bounds.1 <= chars@.len(),
        chars@.subrange(bounds.0 as int, bounds.1 as int) == trim(chars@),
{
    let mut from: usize = 0;
    assert(chars@.skip(0) == chars@);
    while from < chars.len() && is_whitespace_char(chars[from])
        invariant
            from <= chars@.len(),
            trim_start(chars@) == trim_start(chars@.skip(from as int)),
        decreases chars@.len() - from,
    {
        assert(chars@.skip(from as int).drop_first() == chars@.skip(from as int + 1));
        from += 1;
    }
    assert(trim_start(chars@) == chars@.skip(from as int));
    let mut to: usize = chars.len();
    assert(chars@.skip(from as int) == chars@.subrange(from as int, to as int));
    while from < to && is_whitespace_char(chars[to - 1])
        invariant
            from <= to <= chars@.len(),
            trim(chars@) == trim_end(chars@.subrange(from as int, to as int)),
        decreases to - from,
    {
        assert(chars@.subrange(from as int, to as int).drop_last() == chars@.subrange(
            from as int,
            to as int - 1,
        ));
        to -= 1;
    }
    (from, to)
}

/// What `trim_start` takes away is white space, and what it leaves does
/// not begin with white space.
pub proof fn lemma_trim_start(s: Seq<char>)
    ensures
        exists|a: int|
            0 <= a <= s.len() && trim_start(s) == s.skip(a) && (forall|i: int|
                0 <= i < a ==> is_whitespace(s[i])) && (a < s.len() ==> !is_whitespace(s[a])),
    decreases s.len(),
{
    if s.len() > 0 && is_whitespace(s.first()) {
        let rest = s.drop_first();
        lemma_trim_start(rest);
        let a = choose|a: int|
            0 <= a <= rest.len() && trim_start(rest) == rest.skip(a) && (forall|i: int|
                0 <= i < a ==> is_whitespace(rest[i])) && (a < rest.len() ==> !is_whitespace(
                rest[a],
            ));
        assert(rest.skip(a) == s.skip(a + 1));
        assert forall|i: int| 0 <= i < a + 1 implies is_whitespace(s[i]) by {
            if i > 0 {
                assert(s[i] == rest[i - 1]);
            }
        }
        assert(a + 1 < s.len() ==> s[a + 1] == rest[a]);
        assert(0 <= a + 1 <= s.len() && trim_start(s) == s.skip(a + 1) && (forall|i: int|
            0 <= i < a + 1 ==> is_whitespace(s[i])) && (a + 1 < s.len() ==> !is_whitespace(
            s[a + 1],
        )));
    } else {
        assert(s.skip(0) == s);
        assert(0 <= 0 <= s.len() && trim_start(s) == s.skip(0) && (forall|i: int|
            0 <= i < 0 ==> is_whitespace(s[i])) && (0 < s.len() ==> !is_whitespace(s[0])));
    }
}

/// What `trim_end` takes away is white space, and what it leaves does not
/// end with white space.
pub proof fn lemma_trim_end(s: Seq<char>)
    ensures
        exists|b: int|
            0 <= b <= s.len() && trim_end(s) == s.take(b) && (forall|i: int|
                b <= i < s.len() ==> is_whitespace(s[i])) && (b > 0 ==> !is_whitespace(s[b - 1])),
    decreases s.len(),
{
    if s.len() > 0 && is_whitespace(s.last()) {
        let rest = s.drop_last();
        lemma_trim_end(rest);
        let b = choose|b: int|
            0 <= b <= rest.len() && trim_end(rest) == rest.take(b) && (forall|i: int|
                b <= i < rest.len() ==> is_whitespace(rest[i])) && (b > 0 ==> !is_whitespace(
                rest[b - 1],
            ));
        assert(rest.take(b) == s.take(b));
        assert forall|i: int| b <= i < s.len() implies is_whitespace(s[i]) by {
            if i < rest.len() {
                assert(s[i] == rest[i]);
            }
        }
        assert(b > 0 ==> s[b - 1] == rest[b - 1]);
        assert(0 <= b <= s.len() && trim_end(s) == s.take(b) && (forall|i: int|
            b <= i < s.len() ==> is_whitespace(s[i])) && (b > 0 ==> !is_whitespace(s[b - 1])));
    } else {
        let b = s.len() as int;
        assert(s.take(b) == s);
        assert(0 <= b <= s.len() && trim_end(s) == s.take(b) && (forall|i: int|
            b <= i < s.len() ==> is_whitespace(s[i])) && (b > 0 ==> !is_whitespace(s[b - 1])));
    }
}

/// Trimming cuts white space, and only white space, from both ends: the
/// result is a part of the text with nothing but white space before and
/// behind it, and it neither begins nor ends with white space.
pub proof fn law_trim(s: Seq<char>)
    ensures
        exists|a: int, b: int|
            0 <= a <= b <= s.len() && trim(s) == s.subrange(a, b) && (forall|i: int|
                0 <= i < a || b <= i < s.len() ==> is_whitespace(s[i])) && (a < b ==> !is_whitespace(
                s[a],
            ) && !is_whitespace(s[b - 1])),
{
    lemma_trim_start(s);
    let a = choose|a: int|
        0 <= a <= s.len() && trim_start(s) == s.skip(a) && (forall|i: int|
            0 <= i < a ==> is_whitespace(s[i])) && (a < s.len() ==> !is_whitespace(s[a]));
    let rest = s.skip(a);
    lemma_trim_end(rest);
    let k = choose|k: int|
        0 <= k <= rest.len() && trim_end(rest) == rest.take(k) && (forall|i: int|
            k <= i < rest.len() ==> is_whitespace(rest[i])) && (k > 0 ==> !is_whitespace(
            rest[k - 1],
        ));
    let b = a + k;
    assert(rest.take(k) == s.subrange(a, b));
    assert forall|i: int| 0 <= i < a || b <= i < s.len() implies is_whitespace(s[i]) by {
        if b <= i {
            assert(s[i] == rest[i - a]);
        }
    }
    if a < b {
        assert(s[b - 1] == rest[k - 1]);
    }
    assert(0 <= a <= b <= s.len() && trim(s) == s.subrange(a, b) && (forall|i: int|
        0 <= i < a || b <= i < s.len() ==> is_whitespace(s[i])) && (a < b ==> !is_whitespace(s[a])
        && !is_whitespace(s[b - 1])));
}

/// Trimming leaves alone what neither begins nor ends with white space.
pub proof fn lemma_trim_clean(s: Seq<char>)
    requires
        s.len() > 0 ==> !is_whitespace(s.first()) && !is_whitespace(s.last()),
    ensures
        trim(s) == s,
{
}

/// The place of the first `c` in `s`, if there is one.
pub open spec fn find_char(s: Seq<char>, c: char) -> Option<int>
    decreases s.len(),
{
    if s.len() == 0 {
        None
    } else if s.first() == c {
        Some(0)
    } else {
        match find_char(s.drop_first(), c) {
            Some(i) => Some(i + 1),
            None => None,
        }
    }
}

/// `find_char` gives the least index that holds `c`, and `None` exactly
/// when no index does.
pub proof fn lemma_find_char(s: Seq<char>, c: char)
    ensures
        match find_char(s, c) {
            Some(i) => 0 <= i < s.len() && s[i] == c && forall|j: int| 0 <= j < i ==> s[j] != c,
            None => forall|j: int| 0 <= j < s.len() ==> s[j] != c,
        },
    decreases s.len(),
{
    if s.len() > 0 && s.first() != c {
        let rest = s.drop_first();
        lemma_find_char(rest, c);
        match find_char(rest, c) {
            Some(i) => {
                assert(s[i + 1] == rest[i]);
                assert forall|j: int| 0 <= j < i + 1 implies s[j] != c by {
                    if j > 0 {
                        assert(s[j] == rest[j - 1]);
                    }
                }
            },
            None => {
                assert forall|j: int| 0 <= j < s.len() implies s[j] != c by {
                    if j > 0 {
                        assert(s[j] == rest[j - 1]);
                    }
                }
            },
        }
    }
}

/// The least index that holds `c` is what `find_char` gives.
pub proof fn lemma_find_char_at(s: Seq<char>, c: char, i: int)
    requires
        0 <= i < s.len(),
        s[i] == c,
        forall|j: int| 0 <= j < i ==> s[j] != c,
    ensures
        find_char(s, c) == Some(i),
{
    lemma_find_char(s, c);
}

/// No index holds `c`, so `find_char` gives `None`.
pub proof fn lemma_find_char_none(s: Seq<char>, c: char)
    requires
        forall|j: int| 0 <= j < s.len() ==> s[j] != c,
    ensures
        find_char(s, c) is None,
{
    lemma_find_char(s, c);
}

/// The parts of `s` between its separators `sep`, in order: one more part
/// than `s` holds separators.
pub open spec fn split(s: Seq<char>, sep: char) -> Seq<Seq<char>>
    decreases s.len(),
{
    match find_char(s, sep) {
        None => seq![s],
        Some(k) => {
            proof {
                lemma_find_char(s, sep);
            }
            seq![s.take(k)] + split(s.skip(k + 1), sep)
        },
    }
}

/// Whether `s` ends with `tail`.
pub open spec fn ends_with(s: Seq<char>, tail: Seq<char>) -> bool {
    tail.len() <= s.len() && s.skip(s.len() - tail.len()) == tail
}

/// Tells whether `chars` ends with `tail`.
pub fn has_suffix(chars: &[char], tail: &[char]) -> (r: bool)
    ensures
        r == ends_with(chars@, tail@),
{
    if tail.len() > chars.len() {
        return false;
    }
    let shift: usize = chars.len() - tail.len();
    let mut i: usize = 0;
    while i < tail.len()
        invariant
            shift + tail@.len() == chars@.len(),
            chars@.len() <= usize::MAX,
            i <= tail@.len(),
            forall|j: int| 0 <= j < i ==> chars@[shift + j] == tail@[j],
        decreases tail@.len() - i,
    {
        if chars[shift + i] != tail[i] {
            assert(chars@.skip(shift as int)[i as int] != tail@[i as int]);
            return false;
        }
        i += 1;
    }
    assert(chars@.skip(shift as int) =~= tail@);
    true
}

/// Finds the first `c` in `chars[from..to]`; the index returned counts from
/// `from`.
pub fn find_char_in(chars: &[char], from: usize, to: usize, c: char) -> (found: Option<usize>)
    requires
        from <= to <= chars@.len(),
    ensures
        match found {
            Some(i) => find_char(chars@.subrange(from as int, to as int), c) == Some(i as int),
            None => find_char(chars@.subrange(from as int, to as int), c) is None,
        },
{
    let ghost part = chars@.subrange(from as int, to as int);
    let mut i: usize = from;
    while i < to
        invariant
            from <= i <= to <= chars@.len(),
            part == chars@.subrange(from as int, to as int),
            forall|j: int| 0 <= j < i - from ==> part[j] != c,
        decreases to - i,
    {
        if chars[i] == c {
            proof {
                assert(part[i - from] == c);
                lemma_find_char_at(part, c, i - from);
            }
            return Some(i - from);
        }
        i += 1;
    }
    proof {
        lemma_find_char_none(part, c);
    }
    None
}

/// Whether `pat` stands in `s` at the index `i`.
pub open spec fn occurs_at(s: Seq<char>, pat: Seq<char>, i: int) -> bool {
    0 <= i && i + pat.len() <= s.len() && s.subrange(i, i + pat.len()) == pat
}

/// Whether `pat` stands somewhere in `s`.
pub open spec fn contains(s: Seq<char>, pat: Seq<char>) -> bool {
    exists|i: int| occurs_at(s, pat, i)
}

/// The first place where `pat` stands in `s`, if it stands anywhere.
pub open spec fn first_occurrence(s: Seq<char>, pat: Seq<char>) -> Option<int> {
    if contains(s, pat) {
        Some(choose|i: int| occurs_at(s, pat, i) && forall|j: int| 0 <= j < i ==> !occurs_at(s, pat, j))
    } else {
        None
    }
}

/// Where `pat` occurs, it has a first occurrence.
pub proof fn lemma_least_occurrence(s: Seq<char>, pat: Seq<char>, i: int)
    requires
        occurs_at(s, pat, i),
    ensures
        exists|k: int|
            0 <= k <= i && occurs_at(s, pat, k) && forall|j: int| 0 <= j < k ==> !occurs_at(s, pat, j),
    decreases i,
{
    if exists|j: int| 0 <= j < i && occurs_at(s, pat, j) {
        let j = choose|j: int| 0 <= j < i && occurs_at(s, pat, j);
        lemma_least_occurrence(s, pat, j);
        let k = choose|k: int|
            0 <= k <= j && occurs_at(s, pat, k) && forall|l: int| 0 <= l < k ==> !occurs_at(s, pat, l);
        assert(0 <= k <= i && occurs_at(s, pat, k) && forall|l: int|
            0 <= l < k ==> !occurs_at(s, pat, l));
    } else {
        assert(0 <= i <= i && occurs_at(s, pat, i) && forall|l: int|
            0 <= l < i ==> !occurs_at(s, pat, l));
    }
}

/// The first occurrence is an occurrence, and none stands before it.
pub proof fn lemma_first_occurrence_occurs(s: Seq<char>, pat: Seq<char>)
    ensures
        match first_occurrence(s, pat) {
            Some(i) => occurs_at(s, pat, i) && forall|j: int| 0 <= j < i ==> !occurs_at(s, pat, j),
            None => !contains(s, pat),
        },
{
    if contains(s, pat) {
        let i = choose|i: int| occurs_at(s, pat, i);
        lemma_least_occurrence(s, pat, i);
    }
}

/// An occurrence with none before it is the first occurrence.
pub proof fn lemma_first_occurrence(s: Seq<char>, pat: Seq<char>, i: int)
    requires
        occurs_at(s, pat, i),
        forall|j: int| 0 <= j < i ==> !occurs_at(s, pat, j),
    ensures
        first_occurrence(s, pat) == Some(i),
{
    let k = choose|k: int| occurs_at(s, pat, k) && forall|j: int| 0 <= j < k ==> !occurs_at(s, pat, j);
    assert(k == i) by {
        if k < i {
            assert(!occurs_at(s, pat, k));
        }
        if i < k {
            assert(!occurs_at(s, pat, i));
        }
    }
}

/// `line` without the carriage return it ends with, if it ends with one.
pub open spec fn without_return(line: Seq<char>) -> Seq<char> {
    if line.len() > 0 && line.last() == '\r' {
        line.drop_last()
    } else {
        line
    }
}

/// The lines of `s`. A line ends with a line feed, or with a carriage
/// return and a line feed; neither belongs to the line. What follows the
/// last line feed is a line too, unless it is empty.
pub open spec fn lines(s: Seq<char>) -> Seq<Seq<char>>
    decreases s.len(),
{
    if s.len() == 0 {
        Seq::empty()
    } else {
        match find_char(s, '\n') {
            None => seq![s],
            Some(k) => {
                proof {
                    lemma_find_char(s, '\n');
                }
                seq![without_return(s.take(k))] + lines(s.skip(k + 1))
            },
        }
    }
}

/// `s` with every occurrence of `pat` replaced by `with`, the occurrences
/// taken from left to right and not overlapping. An empty `pat` occurs
/// nowhere.
pub open spec fn replace_all(s: Seq<char>, pat: Seq<char>, with: Seq<char>) -> Seq<char>
    decreases s.len(),
{
    if pat.len() == 0 || s.len() < pat.len() {
        s
    } else if occurs_at(s, pat, 0) {
        with + replace_all(s.skip(pat.len() as int), pat, with)
    } else {
        seq![s.first()] + replace_all(s.drop_first(), pat, with)
    }
}

/// An occurrence in `s` without its first character is an occurrence in
/// `s`, one place further on.
pub proof fn lemma_occurs_shift(s: Seq<char>, pat: Seq<char>, j: int)
    requires
        s.len() > 0,
    ensures
        occurs_at(s.drop_first(), pat, j) <==> occurs_at(s, pat, j + 1) && j >= 0,
{
    if 0 <= j && j + 1 + pat.len() <= s.len() {
        assert(s.drop_first().subrange(j, j + pat.len()) == s.subrange(j + 1, j + 1 + pat.len()));
    }
}

/// Where `pat` does not occur, nothing is replaced.
pub proof fn lemma_replace_none(s: Seq<char>, pat: Seq<char>, with: Seq<char>)
    requires
        !contains(s, pat),
    ensures
        replace_all(s, pat, with) == s,
    decreases s.len(),
{
    if pat.len() != 0 && s.len() >= pat.len() {
        assert(!occurs_at(s, pat, 0));
        let rest = s.drop_first();
        assert forall|j: int| !occurs_at(rest, pat, j) by {
            lemma_occurs_shift(s, pat, j);
            assert(!occurs_at(s, pat, j + 1));
        }
        lemma_replace_none(rest, pat, with);
        assert(seq![s.first()] + rest =~= s);
    }
}

/// Up to the first occurrence of `pat` nothing changes; there `with` takes
/// its place, and the replacing goes on behind it.
pub proof fn lemma_replace_first(s: Seq<char>, pat: Seq<char>, with: Seq<char>, k: int)
    requires
        pat.len() > 0,
        occurs_at(s, pat, k),
        forall|j: int| 0 <= j < k ==> !occurs_at(s, pat, j),
    ensures
        replace_all(s, pat, with) == s.take(k) + with + replace_all(
            s.skip(k + pat.len()),
            pat,
            with,
        ),
    decreases k,
{
    if k == 0 {
        assert(s.take(0) + with =~= with);
    } else {
        let rest = s.drop_first();
        assert(!occurs_at(s, pat, 0));
        lemma_occurs_shift(s, pat, k - 1);
        assert forall|j: int| 0 <= j < k - 1 implies !occurs_at(rest, pat, j) by {
            lemma_occurs_shift(s, pat, j);
        }
        lemma_replace_first(rest, pat, with, k - 1);
        assert(rest.skip(k - 1 + pat.len()) == s.skip(k + pat.len()));
        assert(seq![s.first()] + rest.take(k - 1) =~= s.take(k));
        assert(seq![s.first()] + (rest.take(k - 1) + with + replace_all(
            s.skip(k + pat.len()),
            pat,
            with,
        )) =~= s.take(k) + with + replace_all(s.skip(k + pat.len()), pat, with));
    }
}

/// Tells whether `pat` stands in `text` at the index `at`.
pub fn matches_at(text: &[char], pat: &[char], at: usize) -> (r: bool)
    ensures
        r == occurs_at(text@, pat@, at as int),
{
    if at > text.len() || pat.len() > text.len() - at {
        return false;
    }
    let mut i: usize = 0;
    while i < pat.len()
        invariant
            at + pat@.len() <= text@.len(),
            text@.len() <= usize::MAX,
            i <= pat@.len(),
            forall|j: int| 0 <= j < i ==> text@[at + j] == pat@[j],
        decreases pat@.len() - i,
    {
        if text[at + i] != pat[i] {
            assert(text@.subrange(at as int, at + pat@.len())[i as int] != pat@[i as int]);
            return false;
        }
        i += 1;
    }
    assert(text@.subrange(at as int, at + pat@.len()) =~= pat@);
    true
}

/// Finds the first place at or behind `from` where `pat` stands in
/// `text`; the index returned counts from `from`.
pub fn find_from(text: &[char], pat: &[char], from: usize) -> (found: Option<usize>)
    requires
        from <= text@.len(),
    ensures
        match found {
            Some(i) => first_occurrence(text@.skip(from as int), pat@) == Some(i as int) && from + i
                + pat@.len() <= text@.len(),
            None => first_occurrence(text@.skip(from as int), pat@) is None,
        },
{
    let ghost rest = text@.skip(from as int);
    if pat.len() > text.len() - from {
        assert(!contains(rest, pat@));
        return None;
    }
    let last: usize = text.len() - pat.len();
    let mut i: usize = from;
    loop
        invariant
            last + pat@.len() == text@.len(),
            from <= i <= last,
            rest == text@.skip(from as int),
            forall|j: int| 0 <= j < i - from ==> !occurs_at(rest, pat@, j),
        decreases last - i,
    {
        let here = matches_at(text, pat, i);
        proof {
            if i - from + pat@.len() <= rest.len() {
                assert(rest.subrange(i - from, i - from + pat@.len()) == text@.subrange(
                    i as int,
                    i + pat@.len(),
                ));
            }
        }
        if here {
            proof {
                lemma_first_occurrence(rest, pat@, i - from);
            }
            return Some(i - from);
        }
        if i == last {
            assert(!contains(rest, pat@));
            return None;
        }
        i += 1;
    }
}

/// Finds the first place where `pat` stands in `text`.
pub fn find(text: &[char], pat: &[char]) -> (found: Option<usize>)
    ensures
        match found {
            Some(i) => first_occurrence(text@, pat@) == Some(i as int),
            None => first_occurrence(text@, pat@) is None,
        },
{
    assert(text@.skip(0) == text@);
    find_from(text, pat, 0)
}

/// Tells whether `pat` stands somewhere in `text`.
pub fn includes(text: &[char], pat: &[char]) -> (r: bool)
    ensures
        r == contains(text@, pat@),
{
    find(text, pat).is_some()
}

/// Splits `text` into its lines.
pub fn split_lines(text: &[char]) -> (parts: Vec<Vec<char>>)
    ensures
        parts@.len() == lines(text@).len(),
        forall|i: int| 0 <= i < parts@.len() ==> (#[trigger] parts@[i])@ == lines(text@)[i],
{
    let mut parts: Vec<Vec<char>> = Vec::new();
    let total: usize = text.len();
    let mut at: usize = 0;
    assert(text@.skip(0) == text@);
    while at < total
        invariant
            at <= total,
            total == text@.len(),
            lines(text@).len() == parts@.len() + lines(text@.skip(at as int)).len(),
            forall|i: int| 0 <= i < parts@.len() ==> (#[trigger] parts@[i])@ == lines(text@)[i],
            forall|i: int|
                0 <= i < lines(text@.skip(at as int)).len() ==> lines(text@.skip(at as int))[i]
                    == lines(text@)[parts@.len() + i],
        decreases total - at,
    {
        let ghost rest = text@.skip(at as int);
        let ghost before = parts@;
        proof {
            lemma_find_char(rest, '\n');
            assert(rest == text@.subrange(at as int, total as int));
        }
        let mut line: Vec<char> = Vec::new();
        match find_char_in(text, at, total, '\n') {
            None => {
                push_range(&mut line, text, at, total);
                assert(line@ =~= rest);
                assert(lines(rest) == seq![rest]);
                parts.push(line);
                at = total;
                assert(lines(text@.skip(at as int)).len() == 0);
            },
            Some(k) => {
                let end: usize = if k > 0 && text[at + k - 1] == '\r' {
                    at + k - 1
                } else {
                    at + k
                };
                push_range(&mut line, text, at, end);
                assert(rest.take(k as int) == text@.subrange(at as int, at + k));
                assert(line@ =~= without_return(rest.take(k as int)));
                assert(rest.skip(k as int + 1) == text@.skip(at + k + 1));
                assert(lines(rest) == seq![without_return(rest.take(k as int))] + lines(
                    text@.skip(at + k + 1),
                ));
                parts.push(line);
                at = at + k + 1;
            },
        }
        assert(parts@.len() == before.len() + 1);
        assert forall|i: int| 0 <= i < parts@.len() implies (#[trigger] parts@[i])@ == lines(
            text@,
        )[i] by {
            if i < before.len() {
                assert(parts@[i] == before[i]);
            } else {
                assert(lines(rest)[0] == lines(text@)[before.len() as int]);
            }
        }
        assert forall|i: int| 0 <= i < lines(text@.skip(at as int)).len() implies lines(
            text@.skip(at as int),
        )[i] == lines(text@)[parts@.len() + i] by {
            assert(lines(text@.skip(at as int))[i] == lines(rest)[i + 1]);
            assert(lines(rest)[i + 1] == lines(text@)[before.len() + (i + 1)]);
        }
    }
    assert(lines(text@.skip(at as int)).len() == 0);
    parts
}

/// Replaces every occurrence of `pat` in `text` by `with`.
pub fn replace(text: &[char], pat: &[char], with: &[char]) -> (out: Vec<char>)
    ensures
        out@ == replace_all(text@, pat@, with@),
{
    let mut out: Vec<char> = Vec::new();
    if pat.len() == 0 {
        push_range(&mut out, text, 0, text.len());
        assert(out@ =~= text@);
        return out;
    }
    let total: usize = text.len();
    let mut i: usize = 0;
    assert(text@.skip(0) == text@);
    while i < total && pat.len() <= total - i
        invariant
            i <= text@.len(),
            pat@.len() > 0,
            total == text@.len(),
            replace_all(text@, pat@, with@) == out@ + replace_all(text@.skip(i as int), pat@, with@),
        decreases text@.len() - i,
    {
        let ghost rest = text@.skip(i as int);
        let ghost done = out@;
        if matches_at(text, pat, i) {
            assert(rest.subrange(0, pat@.len() as int) == text@.subrange(
                i as int,
                i + pat@.len(),
            ));
            push_range(&mut out, with, 0, with.len());
            assert(with@.subrange(0, with@.len() as int) == with@);
            assert(rest.skip(pat@.len() as int) == text@.skip(i + pat@.len()));
            i += pat.len();
            assert(done + (with@ + replace_all(text@.skip(i as int), pat@, with@)) == out@
                + replace_all(text@.skip(i as int), pat@, with@));
        } else {
            assert(rest.subrange(0, pat@.len() as int) == text@.subrange(
                i as int,
                i + pat@.len(),
            ));
            out.push(text[i]);
            assert(rest.drop_first() == text@.skip(i + 1));
            assert(rest.first() == text@[i as int]);
            i += 1;
            assert(done + (seq![rest.first()] + replace_all(text@.skip(i as int), pat@, with@))
                == out@ + replace_all(text@.skip(i as int), pat@, with@));
        }
    }
    let ghost tail = text@.skip(i as int);
    assert(replace_all(tail, pat@, with@) == tail);
    push_range(&mut out, text, i, total);
    out
}

} // verus!
