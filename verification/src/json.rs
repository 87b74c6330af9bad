//! The serializer: renders the record store as one JSON array of
//! objects, with verified string escaping and canonicalized dates.
//!
//! Each record becomes `{"author":…,"first_review_date":…,
//! "pr_open_date":…,"pr_url":…}`; the two dates are the raw API
//! timestamps reformatted to RFC 2822, and a missing first review is the
//! empty string.

use vstd::prelude::*;
use crate::dates::{display_date, spec_display_date};
use crate::record::{PullRequestRecord, ReviewEntry};
use crate::store::Store;
use crate::text::{chars_to_string, str_to_chars};

verus! {

/// The lowercase hexadecimal digit for a value below sixteen.
pub open spec fn hex_digit(n: int) -> char {
    if n == 0 {
        '0'
    } else if n == 1 {
        '1'
    } else if n == 2 {
        '2'
    } else if n == 3 {
        '3'
    } else if n == 4 {
        '4'
    } else if n == 5 {
        '5'
    } else if n == 6 {
        '6'
    } else if n == 7 {
        '7'
    } else if n == 8 {
        '8'
    } else if n == 9 {
        '9'
    } else if n == 10 {
        'a'
    } else if n == 11 {
        'b'
    } else if n == 12 {
        'c'
    } else if n == 13 {
        'd'
    } else if n == 14 {
        'e'
    } else {
        'f'
    }
}

/// How one character appears inside a JSON string literal: quotes and
/// backslashes are escaped, the common control characters take their
/// short escapes, the remaining control characters take `\u00XX`, and
/// everything else stands as itself.
pub open spec fn escape_char(c: char) -> Seq<char> {
    if c == '"' {
        seq!['\\', '"']
    } else if c == '\\' {
        seq!['\\', '\\']
    } else if c == '\u{8}' {
        seq!['\\', 'b']
    } else if c == '\u{c}' {
        seq!['\\', 'f']
    } else if c == '\n' {
        seq!['\\', 'n']
    } else if c == '\r' {
        seq!['\\', 'r']
    } else if c == '\t' {
        seq!['\\', 't']
    } else if (c as u32) < 32 {
        seq!['\\', 'u', '0', '0', hex_digit((c as u32) as int / 16), hex_digit((c as u32) as int % 16)]
    } else {
        seq![c]
    }
}

/// The body of a JSON string literal holding the given characters.
pub open spec fn spec_escape(s: Seq<char>) -> Seq<char>
    decreases s.len(),
{
    if s.len() == 0 {
        Seq::<char>::empty()
    } else {
        escape_char(s[0]) + spec_escape(s.skip(1))
    }
}

/// A complete JSON string literal for the given characters.
pub open spec fn spec_quoted(s: Seq<char>) -> Seq<char> {
    seq!['"'] + spec_escape(s) + seq!['"']
}

/// Escaping a string one character longer appends that character's
/// escape.
pub proof fn lemma_escape_push(a: Seq<char>, x: char)
    ensures
        spec_escape(a.push(x)) == spec_escape(a) + escape_char(x),
    decreases a.len(),
{
    if a.len() == 0 {
        assert(a.push(x)[0] == x);
        assert(a.push(x).skip(1) =~= Seq::<char>::empty());
        assert(spec_escape(Seq::<char>::empty()) == Seq::<char>::empty());
        assert(spec_escape(a.push(x)) == escape_char(x) + Seq::<char>::empty());
        assert(escape_char(x) + Seq::<char>::empty() =~= escape_char(x));
        assert(Seq::<char>::empty() + escape_char(x) =~= escape_char(x));
    } else {
        assert(a.push(x)[0] == a[0]);
        assert(a.push(x).skip(1) =~= a.skip(1).push(x));
        lemma_escape_push(a.skip(1), x);
        assert(spec_escape(a) == escape_char(a[0]) + spec_escape(a.skip(1)));
        assert(spec_escape(a.push(x)) == escape_char(a[0]) + (spec_escape(a.skip(1))
            + escape_char(x)));
        assert(escape_char(a[0]) + (spec_escape(a.skip(1)) + escape_char(x)) =~= (escape_char(a[0])
            + spec_escape(a.skip(1))) + escape_char(x));
    }
}

/// The lowercase hexadecimal digit character for a value below sixteen.
fn hex_char(n: u32) -> (c: char)
    requires
        n < 16,
    ensures
        c == hex_digit(n as int),
{
    if n == 0 {
        '0'
    } else if n == 1 {
        '1'
    } else if n == 2 {
        '2'
    } else if n == 3 {
        '3'
    } else if n == 4 {
        '4'
    } else if n == 5 {
        '5'
    } else if n == 6 {
        '6'
    } else if n == 7 {
        '7'
    } else if n == 8 {
        '8'
    } else if n == 9 {
        '9'
    } else if n == 10 {
        'a'
    } else if n == 11 {
        'b'
    } else if n == 12 {
        'c'
    } else if n == 13 {
        'd'
    } else if n == 14 {
        'e'
    } else {
        'f'
    }
}

/// Appends the characters of a string slice.
fn push_literal(out: &mut Vec<char>, s: &str)
    ensures
        final(out)@ == old(out)@ + s@,
{
    let v = str_to_chars(s);
    let mut i: usize = 0;
    while i < v.len()
        invariant
            i <= v@.len(),
            v@ == s@,
            out@ == old(out)@ + s@.take(i as int),
        decreases v@.len() - i,
    {
        out.push(v[i]);
        proof {
            assert(s@.take(i + 1 as int) =~= s@.take(i as int).push(s@[i as int]));
            assert(old(out)@ + s@.take(i as int).push(s@[i as int]) =~= (old(out)@ + s@.take(
                i as int,
            )).push(s@[i as int]));
        }
        i = i + 1;
    }
    proof {
        assert(s@.take(s@.len() as int) =~= s@);
    }
}

/// Appends a complete JSON string literal holding the given string.
fn push_quoted(out: &mut Vec<char>, s: &str)
    ensures
        final(out)@ == old(out)@ + spec_quoted(s@),
{
    out.push('"');
    let v = str_to_chars(s);
    let ghost mid = out@;
    let mut i: usize = 0;
    while i < v.len()
        invariant
            i <= v@.len(),
            v@ == s@,
            out@ == mid + spec_escape(s@.take(i as int)),
        decreases v@.len() - i,
    {
        let c = v[i];
        let ghost before = out@;
        if c == '"' {
            out.push('\\');
            out.push('"');
        } else if c == '\\' {
            out.push('\\');
            out.push('\\');
        } else if c == '\u{8}' {
            out.push('\\');
            out.push('b');
        } else if c == '\u{c}' {
            out.push('\\');
            out.push('f');
        } else if c == '\n' {
            out.push('\\');
            out.push('n');
        } else if c == '\r' {
            out.push('\\');
            out.push('r');
        } else if c == '\t' {
            out.push('\\');
            out.push('t');
        } else {
            let code = c as u32;
            if code < 32 {
                out.push('\\');
                out.push('u');
                out.push('0');
                out.push('0');
                out.push(hex_char(code / 16));
                out.push(hex_char(code % 16));
            } else {
                out.push(c);
            }
        }
        proof {
            assert(out@ =~= before + escape_char(s@[i as int]));
            lemma_escape_push(s@.take(i as int), s@[i as int]);
            assert(s@.take(i + 1 as int) =~= s@.take(i as int).push(s@[i as int]));
            assert(mid + (spec_escape(s@.take(i as int)) + escape_char(s@[i as int])) =~= (mid
                + spec_escape(s@.take(i as int))) + escape_char(s@[i as int]));
        }
        i = i + 1;
    }
    proof {
        assert(s@.take(s@.len() as int) =~= s@);
    }
    out.push('"');
    proof {
        assert(out@ =~= old(out)@ + spec_quoted(s@));
    }
}

/// Whether a record can be serialized: it has been fetched, and its
/// dates reformat to RFC 2822.
pub open spec fn record_ok(r: PullRequestRecord) -> bool {
    &&& r.fetched()
    &&& spec_display_date(r.open_date.unwrap()@) is Some
    &&& (r.first_review_date matches Some(d) ==> spec_display_date(d@) is Some)
}

/// The serialized first-review-date field: the reformatted timestamp,
/// or the empty string when no review was recorded.
pub open spec fn spec_first_review_field(r: PullRequestRecord) -> Seq<char> {
    match r.first_review_date {
        Option::None => Seq::<char>::empty(),
        Option::Some(d) => spec_display_date(d@).unwrap(),
    }
}

/// How the first-review date reaches the serialized record. Given the
/// record a merge produced from a record with no first review yet: with
/// an empty reviews list the serialized first-review-date field is the
/// empty string; with a non-empty list it is the first entry's
/// timestamp, reformatted to RFC 2822.
pub proof fn lemma_first_review_serialized(
    base: PullRequestRecord,
    merged_rec: PullRequestRecord,
    reviews: Seq<ReviewEntry>,
)
    requires
        base.first_review_date is None,
        reviews.len() == 0 ==> merged_rec.first_review_date == base.first_review_date,
        reviews.len() > 0 ==> merged_rec.first_review_date == Some(reviews[0].submitted_at),
        reviews.len() > 0 ==> spec_display_date(reviews[0].submitted_at@) is Some,
    ensures
        reviews.len() == 0 ==> spec_first_review_field(merged_rec) == Seq::<char>::empty(),
        reviews.len() > 0 ==> Some(spec_first_review_field(merged_rec)) == spec_display_date(
            reviews[0].submitted_at@,
        ),
{
}

/// One record's JSON object, from its four field values.
pub open spec fn spec_record_json(
    url: Seq<char>,
    author: Seq<char>,
    open_disp: Seq<char>,
    first_disp: Seq<char>,
) -> Seq<char> {
    "{\"author\":"@ + spec_quoted(author) + ",\"first_review_date\":"@ + spec_quoted(first_disp)
        + ",\"pr_open_date\":"@ + spec_quoted(open_disp) + ",\"pr_url\":"@ + spec_quoted(url)
        + "}"@
}

/// One record's JSON object.
pub open spec fn spec_record_json_of(r: PullRequestRecord) -> Seq<char> {
    spec_record_json(
        r.canonical_url@,
        r.author.unwrap()@,
        spec_display_date(r.open_date.unwrap()@).unwrap(),
        spec_first_review_field(r),
    )
}

/// The comma-separated record objects, without the surrounding brackets.
pub open spec fn spec_records_inner(rs: Seq<PullRequestRecord>) -> Seq<char>
    decreases rs.len(),
{
    if rs.len() == 0 {
        Seq::<char>::empty()
    } else if rs.len() == 1 {
        spec_record_json_of(rs[0])
    } else {
        spec_record_json_of(rs[0]) + ","@ + spec_records_inner(rs.skip(1))
    }
}

/// The full serialized store: a JSON array of record objects, in the
/// store's insertion order.
pub open spec fn spec_serialize(rs: Seq<PullRequestRecord>) -> Seq<char> {
    "["@ + spec_records_inner(rs) + "]"@
}

/// Serializing one more record appends a comma (after the first record)
/// and that record's object.
pub proof fn lemma_records_inner_push(rs: Seq<PullRequestRecord>, r: PullRequestRecord)
    ensures
        rs.len() == 0 ==> spec_records_inner(rs.push(r)) == spec_record_json_of(r),
        rs.len() > 0 ==> spec_records_inner(rs.push(r)) == spec_records_inner(rs) + ","@
            + spec_record_json_of(r),
    decreases rs.len(),
{
    if rs.len() == 0 {
        assert(rs.push(r)[0] == r);
    } else if rs.len() == 1 {
        assert(rs.push(r)[0] == rs[0]);
        assert(rs.push(r).skip(1) =~= seq![r]);
        assert(spec_records_inner(seq![r]) == spec_record_json_of(seq![r][0]));
        assert(seq![r][0] == r);
    } else {
        assert(rs.push(r)[0] == rs[0]);
        assert(rs.push(r).skip(1) =~= rs.skip(1).push(r));
        lemma_records_inner_push(rs.skip(1), r);
        assert(spec_record_json_of(rs[0]) + ","@ + (spec_records_inner(rs.skip(1)) + ","@
            + spec_record_json_of(r)) =~= (spec_record_json_of(rs[0]) + ","@ + spec_records_inner(
            rs.skip(1),
        )) + ","@ + spec_record_json_of(r));
    }
}

/// Serializes the store as a JSON array, one object per record in
/// insertion order. Callers hand over the store only after the fetch
/// pass, when every record carries its author and open date. Yields
/// nothing exactly when some record's timestamp does not reformat to
/// RFC 2822 (the fatal case: no fallback and no partial output).
#[verifier::rlimit(100)]
pub fn serialize(store: &Store) -> (r: Option<String>)
    requires
        forall|i: int| 0 <= i < store.records@.len() ==> store.records@[i].fetched(),
    ensures
        r is Some <==> (forall|i: int|
            0 <= i < store.records@.len() ==> record_ok(store.records@[i])),
        r matches Some(s) ==> s@ == spec_serialize(store.records@),
{
    let mut out: Vec<char> = Vec::new();
    push_literal(&mut out, "[");
    let n = store.len();
    let mut i: usize = 0;
    while i < n
        invariant
            n == store.records@.len(),
            i <= n,
            forall|j: int| 0 <= j < n ==> store.records@[j].fetched(),
            forall|j: int| 0 <= j < i ==> record_ok(store.records@[j]),
            out@ == "["@ + spec_records_inner(store.records@.take(i as int)),
        decreases n - i,
    {
        let rec = store.index(i);
        let open_raw: &String = rec.open_date.as_ref().unwrap();
        let open_disp: String = match display_date(open_raw.as_str()) {
            Some(s) => s,
            None => {
                proof {
                    assert(!record_ok(store.records@[i as int]));
                }
                return None;
            },
        };
        let first_disp: String = match rec.first_review_date.as_ref() {
            Some(d) => match display_date(d.as_str()) {
                Some(s) => s,
                None => {
                    proof {
                        assert(!record_ok(store.records@[i as int]));
                    }
                    return None;
                },
            },
            None => String::new(),
        };
        let author: &String = rec.author.as_ref().unwrap();
        let ghost before = out@;
        if i > 0 {
            push_literal(&mut out, ",");
        }
        push_literal(&mut out, "{\"author\":");
        push_quoted(&mut out, author.as_str());
        push_literal(&mut out, ",\"first_review_date\":");
        push_quoted(&mut out, first_disp.as_str());
        push_literal(&mut out, ",\"pr_open_date\":");
        push_quoted(&mut out, open_disp.as_str());
        push_literal(&mut out, ",\"pr_url\":");
        push_quoted(&mut out, rec.canonical_url.as_str());
        push_literal(&mut out, "}");
        proof {
            assert(record_ok(store.records@[i as int]));
            if i > 0 {
                assert(out@ =~= before + ","@ + spec_record_json_of(store.records@[i as int]));
            } else {
                assert(out@ =~= before + spec_record_json_of(store.records@[i as int]));
            }
            lemma_records_inner_push(store.records@.take(i as int), store.records@[i as int]);
            assert(store.records@.take(i + 1 as int) =~= store.records@.take(i as int).push(
                store.records@[i as int],
            ));
            assert(out@ =~= "["@ + spec_records_inner(store.records@.take(i + 1 as int)));
        }
        i = i + 1;
    }
    push_literal(&mut out, "]");
    proof {
        assert(store.records@.take(n as int) =~= store.records@);
        assert(out@ =~= spec_serialize(store.records@));
    }
    Some(chars_to_string(&out))
}

} // verus!
