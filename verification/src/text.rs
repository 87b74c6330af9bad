//! Character-level string helpers: conversion between `&str` and `Vec<char>`,
//! and canonicalization of a URL string (dropping its query and fragment).

use vstd::prelude::*;

verus! {

/// Relies on `str::chars` together with `Iterator::collect` for `Vec`:
/// the result holds the characters of the string, in order.
#[verifier::external_body]
pub(crate) fn str_to_chars(s: &str) -> (r: Vec<char>)
    ensures
        r@ == s@,
{
    s.chars().collect()
}

/// Relies on `Iterator::collect` for `String` (`FromIterator<char>`):
/// the result is the string holding exactly the given characters, in order.
#[verifier::external_body]
pub(crate) fn chars_to_string(v: &Vec<char>) -> (r: String)
    ensures
        r@ == v@,
{
    v.iter().collect()
}

/// A character that starts the query or the fragment of a URL.
pub open spec fn is_cut_char(c: char) -> bool {
    c == '?' || c == '#'
}

/// Index of the first character that starts a query or fragment,
/// or the length of the string when there is none.
pub open spec fn cut_index(s: Seq<char>) -> int
    decreases s.len(),
{
    if s.len() == 0 {
        0
    } else if is_cut_char(s[0]) {
        0
    } else {
        1 + cut_index(s.skip(1))
    }
}

/// The canonical form of a URL string: everything before the first `?` or `#`.
pub open spec fn spec_canonical(s: Seq<char>) -> Seq<char> {
    s.take(cut_index(s))
}

/// The cut index lies within the string, nothing before it is a cut
/// character, and the character at it (if any) is one.
pub proof fn lemma_cut_index_bounds(s: Seq<char>)
    ensures
        0 <= cut_index(s) <= s.len(),
        forall|j: int| 0 <= j < cut_index(s) ==> !is_cut_char(s[j]),
        cut_index(s) < s.len() ==> is_cut_char(s[cut_index(s)]),
    decreases s.len(),
{
    if s.len() == 0 {
    } else if is_cut_char(s[0]) {
    } else {
        lemma_cut_index_bounds(s.skip(1));
        assert forall|j: int| 0 <= j < cut_index(s) implies !is_cut_char(s[j]) by {
            if j >= 1 {
                assert(s[j] == s.skip(1)[j - 1]);
            }
        }
        if cut_index(s) < s.len() {
            assert(s[cut_index(s)] == s.skip(1)[cut_index(s.skip(1))]);
        }
    }
}

/// The cut index is the unique position with no cut character before it
/// and a cut character (or the end of the string) at it.
pub proof fn lemma_cut_index_is(s: Seq<char>, i: int)
    requires
        0 <= i <= s.len(),
        forall|j: int| 0 <= j < i ==> !is_cut_char(s[j]),
        i < s.len() ==> is_cut_char(s[i]),
    ensures
        cut_index(s) == i,
    decreases s.len(),
{
    if s.len() == 0 {
    } else if i == 0 {
    } else {
        assert(!is_cut_char(s[0]));
        assert forall|j: int| 0 <= j < i - 1 implies !is_cut_char(s.skip(1)[j]) by {
            assert(s.skip(1)[j] == s[j + 1]);
        }
        if i - 1 < s.skip(1).len() {
            assert(s.skip(1)[i - 1] == s[i]);
        }
        lemma_cut_index_is(s.skip(1), i - 1);
    }
}

/// Canonicalization is idempotent: canonicalizing a canonical URL
/// changes nothing.
pub proof fn lemma_canonical_idempotent(s: Seq<char>)
    ensures
        spec_canonical(spec_canonical(s)) == spec_canonical(s),
{
    let c = spec_canonical(s);
    lemma_cut_index_bounds(s);
    assert forall|j: int| 0 <= j < c.len() implies !is_cut_char(c[j]) by {
        assert(c[j] == s[j]);
    }
    lemma_cut_index_is(c, c.len() as int);
    assert(spec_canonical(c) =~= c);
}

/// Index of the first occurrence of `sep`, or the length of the string
/// when it does not occur.
pub open spec fn first_index(s: Seq<char>, sep: char) -> nat
    decreases s.len(),
{
    if s.len() == 0 {
        0
    } else if s[0] == sep {
        0
    } else {
        1 + first_index(s.skip(1), sep)
    }
}

/// The segments of `s` split on `sep`: always at least one segment,
/// and the separator itself never appears inside a segment.
pub open spec fn spec_split(s: Seq<char>, sep: char) -> Seq<Seq<char>>
    decreases s.len(),
{
    let i = first_index(s, sep) as int;
    if i >= s.len() {
        seq![s]
    } else {
        seq![s.take(i)] + spec_split(s.skip(i + 1), sep)
    }
}

/// The first index is the unique position without the separator before it
/// and with the separator (or the end of the string) at it.
pub proof fn lemma_first_index_is(s: Seq<char>, sep: char, i: int)
    requires
        0 <= i <= s.len(),
        forall|j: int| 0 <= j < i ==> s[j] != sep,
        i < s.len() ==> s[i] == sep,
    ensures
        first_index(s, sep) == i,
    decreases s.len(),
{
    if s.len() == 0 {
    } else if i == 0 {
    } else {
        assert forall|j: int| 0 <= j < i - 1 implies s.skip(1)[j] != sep by {
            assert(s.skip(1)[j] == s[j + 1]);
        }
        if i - 1 < s.skip(1).len() {
            assert(s.skip(1)[i - 1] == s[i]);
        }
        lemma_first_index_is(s.skip(1), sep, i - 1);
    }
}

/// Index of the first occurrence of `sep` at or after `start`,
/// or the length of the vector when there is none.
pub fn find_char_from(chars: &Vec<char>, sep: char, start: usize) -> (k: usize)
    requires
        start <= chars@.len(),
    ensures
        start <= k <= chars@.len(),
        forall|j: int| start <= j < k ==> chars@[j] != sep,
        k < chars@.len() ==> chars@[k as int] == sep,
{
    let mut i: usize = start;
    while i < chars.len()
        invariant
            start <= i <= chars@.len(),
            forall|j: int| start <= j < i ==> chars@[j] != sep,
        decreases chars@.len() - i,
    {
        if chars[i] == sep {
            return i;
        }
        i = i + 1;
    }
    i
}

/// The characters of `chars` from `from` (inclusive) to `to` (exclusive).
pub fn subvec(chars: &Vec<char>, from: usize, to: usize) -> (r: Vec<char>)
    requires
        from <= to <= chars@.len(),
    ensures
        r@ == chars@.subrange(from as int, to as int),
{
    let mut r: Vec<char> = Vec::new();
    let mut i: usize = from;
    while i < to
        invariant
            from <= i <= to <= chars@.len(),
            r@ == chars@.subrange(from as int, i as int),
        decreases to - i,
    {
        r.push(chars[i]);
        proof {
            assert(chars@.subrange(from as int, i + 1 as int) =~= chars@.subrange(
                from as int,
                i as int,
            ).push(chars@[i as int]));
        }
        i = i + 1;
    }
    r
}

/// Splits `chars` on the separator. The result always holds at least one
/// string, and concatenating the result with the separator between the
/// parts gives back `chars`.
pub fn split_chars(chars: &Vec<char>, sep: char) -> (r: Vec<String>)
    ensures
        r.deep_view() == spec_split(chars@, sep),
{
    let mut res: Vec<String> = Vec::new();
    let mut start: usize = 0;
    let n = chars.len();
    proof {
        assert(chars@.skip(0) =~= chars@);
        assert(res.deep_view() + spec_split(chars@, sep) =~~= spec_split(chars@, sep));
    }
    loop
        invariant
            start <= n,
            n == chars@.len(),
            spec_split(chars@, sep) == res.deep_view() + spec_split(chars@.skip(start as int), sep),
        decreases n - start,
    {
        let k = find_char_from(chars, sep, start);
        proof {
            let rest = chars@.skip(start as int);
            assert forall|j: int| 0 <= j < k - start implies rest[j] != sep by {
                assert(rest[j] == chars@[j + start]);
            }
            if k < n {
                assert(rest[k - start] == chars@[k as int]);
            }
            lemma_first_index_is(rest, sep, k - start);
        }
        let piece = subvec(chars, start, k);
        let piece_str = chars_to_string(&piece);
        if k == n {
            proof {
                let rest = chars@.skip(start as int);
                assert(rest =~= chars@.subrange(start as int, n as int));
                assert(spec_split(rest, sep) == seq![rest]);
            }
            res.push(piece_str);
            proof {
                assert(res.deep_view() =~~= spec_split(chars@, sep));
            }
            return res;
        } else {
            proof {
                let rest = chars@.skip(start as int);
                let i = (k - start) as int;
                assert(rest.take(i) =~= chars@.subrange(start as int, k as int));
                assert(rest.skip(i + 1) =~= chars@.skip(k + 1 as int));
                assert(spec_split(rest, sep) == seq![rest.take(i)] + spec_split(
                    rest.skip(i + 1),
                    sep,
                ));
            }
            let ghost old_res = res.deep_view();
            res.push(piece_str);
            proof {
                assert(res.deep_view() =~= old_res.push(chars@.subrange(
                    start as int,
                    k as int,
                )));
                assert(res.deep_view() + spec_split(chars@.skip(k + 1 as int), sep) =~~= spec_split(
                    chars@,
                    sep,
                ));
            }
            start = k + 1;
        }
    }
}

/// Index of the first `?` or `#` in the vector, or its length when there is none.
fn find_cut(chars: &Vec<char>) -> (k: usize)
    ensures
        k <= chars@.len(),
        forall|j: int| 0 <= j < k ==> !is_cut_char(chars@[j]),
        k < chars@.len() ==> is_cut_char(chars@[k as int]),
{
    let mut i: usize = 0;
    while i < chars.len()
        invariant
            i <= chars@.len(),
            forall|j: int| 0 <= j < i ==> !is_cut_char(chars@[j]),
        decreases chars@.len() - i,
    {
        let c = chars[i];
        if c == '?' || c == '#' {
            return i;
        }
        i = i + 1;
    }
    i
}

/// The canonical form of a URL: the prefix before the first `?` or `#`.
/// Used as the deduplication key of the record store.
pub fn canonicalize(url: &str) -> (r: String)
    ensures
        r@ == spec_canonical(url@),
{
    let chars = str_to_chars(url);
    let k = find_cut(&chars);
    proof {
        lemma_cut_index_is(url@, k as int);
    }
    let mut out: Vec<char> = Vec::new();
    let mut i: usize = 0;
    while i < k
        invariant
            i <= k <= chars@.len(),
            chars@ == url@,
            out@ == url@.take(i as int),
        decreases k - i,
    {
        out.push(chars[i]);
        proof {
            assert(url@.take(i + 1 as int) =~= url@.take(i as int).push(url@[i as int]));
        }
        i = i + 1;
    }
    chars_to_string(&out)
}

} // verus!
