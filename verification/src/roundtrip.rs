//! A parser for the serializer's output, and the proof that parsing a
//! serialized store recovers every record's field strings.
//!
//! The grammar is exactly what the serializer emits: a JSON array of
//! objects whose four string fields appear in a fixed key order.

use vstd::prelude::*;
use crate::dates::spec_display_date;
use crate::json::{
    escape_char,
    hex_digit,
    spec_escape,
    spec_first_review_field,
    spec_quoted,
    spec_record_json,
    spec_record_json_of,
    spec_records_inner,
    spec_serialize,
};
use crate::record::PullRequestRecord;

verus! {

/// The value of a lowercase hexadecimal digit character.
pub open spec fn unhex(c: char) -> Option<int> {
    if c == '0' {
        Some(0int)
    } else if c == '1' {
        Some(1int)
    } else if c == '2' {
        Some(2int)
    } else if c == '3' {
        Some(3int)
    } else if c == '4' {
        Some(4int)
    } else if c == '5' {
        Some(5int)
    } else if c == '6' {
        Some(6int)
    } else if c == '7' {
        Some(7int)
    } else if c == '8' {
        Some(8int)
    } else if c == '9' {
        Some(9int)
    } else if c == 'a' {
        Some(10int)
    } else if c == 'b' {
        Some(11int)
    } else if c == 'c' {
        Some(12int)
    } else if c == 'd' {
        Some(13int)
    } else if c == 'e' {
        Some(14int)
    } else if c == 'f' {
        Some(15int)
    } else {
        None
    }
}

/// Prepends one decoded character to a successful parse.
pub open spec fn cons_parse(c: char, rest: Option<(Seq<char>, Seq<char>)>) -> Option<
    (Seq<char>, Seq<char>),
> {
    match rest {
        Option::None => Option::None,
        Option::Some(p) => Option::Some((seq![c] + p.0, p.1)),
    }
}

/// Parses the body of a JSON string literal (everything after the
/// opening quote): the decoded characters and the input after the
/// closing quote.
pub open spec fn parse_string_body(s: Seq<char>) -> Option<(Seq<char>, Seq<char>)>
    decreases s.len(),
{
    if s.len() == 0 {
        Option::None
    } else if s[0] == '"' {
        Option::Some((Seq::<char>::empty(), s.skip(1)))
    } else if s[0] == '\\' {
        if s.len() < 2 {
            Option::None
        } else {
            let e = s[1];
            if e == '"' {
                cons_parse('"', parse_string_body(s.skip(2)))
            } else if e == '\\' {
                cons_parse('\\', parse_string_body(s.skip(2)))
            } else if e == 'b' {
                cons_parse('\u{8}', parse_string_body(s.skip(2)))
            } else if e == 'f' {
                cons_parse('\u{c}', parse_string_body(s.skip(2)))
            } else if e == 'n' {
                cons_parse('\n', parse_string_body(s.skip(2)))
            } else if e == 'r' {
                cons_parse('\r', parse_string_body(s.skip(2)))
            } else if e == 't' {
                cons_parse('\t', parse_string_body(s.skip(2)))
            } else if e == 'u' {
                if s.len() < 6 {
                    Option::None
                } else if s[2] == '0' && s[3] == '0' && unhex(s[4]) is Some && unhex(
                    s[5],
                ) is Some {
                    let code = 16 * unhex(s[4]).unwrap() + unhex(s[5]).unwrap();
                    if code < 32 {
                        cons_parse(((code as u32) as char), parse_string_body(s.skip(6)))
                    } else {
                        Option::None
                    }
                } else {
                    Option::None
                }
            } else {
                Option::None
            }
        }
    } else {
        cons_parse(s[0], parse_string_body(s.skip(1)))
    }
}

/// Parses a complete JSON string literal: the decoded characters and the
/// input after the closing quote.
pub open spec fn parse_string(s: Seq<char>) -> Option<(Seq<char>, Seq<char>)> {
    if s.len() >= 1 && s[0] == '"' {
        parse_string_body(s.skip(1))
    } else {
        Option::None
    }
}

/// Decoding inverts the hexadecimal digit of a value below sixteen.
proof fn lemma_unhex_hex(d: int)
    requires
        0 <= d < 16,
    ensures
        unhex(hex_digit(d)) == Some(d),
{
}

/// Unescaping inverts escaping: parsing an escaped string followed by
/// its closing quote recovers the string and what follows the quote.
pub proof fn lemma_parse_escape_round(x: Seq<char>, rest: Seq<char>)
    ensures
        parse_string_body(spec_escape(x) + (seq!['"'] + rest)) == Some((x, rest)),
    decreases x.len(),
{
    let s = spec_escape(x) + (seq!['"'] + rest);
    if x.len() == 0 {
        assert(spec_escape(x) == Seq::<char>::empty());
        assert(s =~= seq!['"'] + rest);
        assert(s[0] == '"');
        assert(s.skip(1) =~= rest);
        assert((Seq::<char>::empty(), rest) == (x, rest));
    } else {
        let c = x[0];
        let e = escape_char(c);
        assert(spec_escape(x) == e + spec_escape(x.skip(1)));
        let s2 = spec_escape(x.skip(1)) + (seq!['"'] + rest);
        assert(s =~= e + s2);
        lemma_parse_escape_round(x.skip(1), rest);
        assert(seq![c] + x.skip(1) =~= x);
        if c == '"' || c == '\\' || c == '\u{8}' || c == '\u{c}' || c == '\n' || c == '\r' || c
            == '\t' {
            assert(e.len() == 2);
            assert(s[0] == e[0] && s[1] == e[1]);
            assert(s[0] == '\\');
            assert(s.skip(2) =~= s2);
        } else if (c as u32) < 32 {
            let code = (c as u32) as int;
            assert(e == seq!['\\', 'u', '0', '0', hex_digit(code / 16), hex_digit(code % 16)]);
            assert(e.len() == 6);
            assert(s[0] == e[0] && s[1] == e[1] && s[2] == e[2] && s[3] == e[3] && s[4] == e[4]
                && s[5] == e[5]);
            lemma_unhex_hex(code / 16);
            lemma_unhex_hex(code % 16);
            assert(16 * (code / 16) + code % 16 == code);
            vstd::utf8::char_u32_cast(c, c as u32);
            assert(((code as u32) as char) == c);
            assert(s.skip(6) =~= s2);
        } else {
            assert(e == seq![c]);
            assert(s[0] == c);
            assert(s[0] != '"' && s[0] != '\\');
            assert(s.skip(1) =~= s2);
        }
    }
}

/// Parsing a quoted string recovers the string and what follows it.
pub proof fn lemma_parse_quoted_round(x: Seq<char>, rest: Seq<char>)
    ensures
        parse_string(spec_quoted(x) + rest) == Some((x, rest)),
{
    let s = spec_quoted(x) + rest;
    assert(s[0] == '"');
    assert(s.skip(1) =~= spec_escape(x) + (seq!['"'] + rest));
    lemma_parse_escape_round(x, rest);
}

/// Consumes an expected literal prefix.
pub open spec fn expect(s: Seq<char>, lit: Seq<char>) -> Option<Seq<char>> {
    if lit.len() <= s.len() && s.take(lit.len() as int) == lit {
        Option::Some(s.skip(lit.len() as int))
    } else {
        Option::None
    }
}

/// Consuming a literal off a string that starts with it leaves the rest.
proof fn lemma_expect_round(lit: Seq<char>, rest: Seq<char>)
    ensures
        expect(lit + rest, lit) == Some(rest),
{
    assert((lit + rest).take(lit.len() as int) =~= lit);
    assert((lit + rest).skip(lit.len() as int) =~= rest);
}

/// The four string fields parsed out of one record object, in the order
/// they appear: author, first review date, open date, URL.
pub open spec fn parse_record(s: Seq<char>) -> Option<
    ((Seq<char>, Seq<char>, Seq<char>, Seq<char>), Seq<char>),
> {
    match expect(s, "{\"author\":"@) {
        Option::None => Option::None,
        Option::Some(s1) => match parse_string(s1) {
            Option::None => Option::None,
            Option::Some((author, s2)) => match expect(s2, ",\"first_review_date\":"@) {
                Option::None => Option::None,
                Option::Some(s3) => match parse_string(s3) {
                    Option::None => Option::None,
                    Option::Some((first, s4)) => match expect(s4, ",\"pr_open_date\":"@) {
                        Option::None => Option::None,
                        Option::Some(s5) => match parse_string(s5) {
                            Option::None => Option::None,
                            Option::Some((open, s6)) => match expect(s6, ",\"pr_url\":"@) {
                                Option::None => Option::None,
                                Option::Some(s7) => match parse_string(s7) {
                                    Option::None => Option::None,
                                    Option::Some((url, s8)) => match expect(s8, "}"@) {
                                        Option::None => Option::None,
                                        Option::Some(s9) => Option::Some(
                                            ((author, first, open, url), s9),
                                        ),
                                    },
                                },
                            },
                        },
                    },
                },
            },
        },
    }
}

/// Parsing one serialized record object recovers its four fields and
/// what follows the object.
pub proof fn lemma_parse_record_round(
    url: Seq<char>,
    author: Seq<char>,
    open_disp: Seq<char>,
    first_disp: Seq<char>,
    rest: Seq<char>,
)
    ensures
        parse_record(spec_record_json(url, author, open_disp, first_disp) + rest) == Some(
            ((author, first_disp, open_disp, url), rest),
        ),
{
    let l1 = "{\"author\":"@;
    let l2 = ",\"first_review_date\":"@;
    let l3 = ",\"pr_open_date\":"@;
    let l4 = ",\"pr_url\":"@;
    let l5 = "}"@;
    let s = spec_record_json(url, author, open_disp, first_disp) + rest;
    let r8 = l5 + rest;
    let r7 = spec_quoted(url) + r8;
    let r6 = l4 + r7;
    let r5 = spec_quoted(open_disp) + r6;
    let r4 = l3 + r5;
    let r3 = spec_quoted(first_disp) + r4;
    let r2 = l2 + r3;
    let r1 = spec_quoted(author) + r2;
    assert(s =~= l1 + r1);
    lemma_expect_round(l1, r1);
    lemma_parse_quoted_round(author, r2);
    lemma_expect_round(l2, r3);
    lemma_parse_quoted_round(first_disp, r4);
    lemma_expect_round(l3, r5);
    lemma_parse_quoted_round(open_disp, r6);
    lemma_expect_round(l4, r7);
    lemma_parse_quoted_round(url, r8);
    lemma_expect_round(l5, rest);
}

/// A non-empty comma-separated run of record objects closed by `]`.
pub open spec fn parse_items(s: Seq<char>) -> Option<
    Seq<(Seq<char>, Seq<char>, Seq<char>, Seq<char>)>,
>
    decreases s.len(),
{
    match parse_record(s) {
        Option::None => Option::None,
        Option::Some((f, s2)) => {
            if s2 == "]"@ {
                Option::Some(seq![f])
            } else if 1 <= s2.len() < s.len() && s2[0] == ',' {
                match parse_items(s2.skip(1)) {
                    Option::None => Option::None,
                    Option::Some(fs) => Option::Some(seq![f] + fs),
                }
            } else {
                Option::None
            }
        },
    }
}

/// The parse of a complete serialized store: the field quadruples of its
/// records, in order.
pub open spec fn spec_parse(s: Seq<char>) -> Option<
    Seq<(Seq<char>, Seq<char>, Seq<char>, Seq<char>)>,
> {
    match expect(s, "["@) {
        Option::None => Option::None,
        Option::Some(s1) => if s1 == "]"@ {
            Option::Some(Seq::empty())
        } else {
            parse_items(s1)
        },
    }
}

/// The field strings one record serializes to: author, first review
/// date (empty when absent), open date, canonical URL — the two dates
/// reformatted to RFC 2822.
pub open spec fn spec_fields_of(r: PullRequestRecord) -> (
    Seq<char>,
    Seq<char>,
    Seq<char>,
    Seq<char>,
) {
    (
        r.author.unwrap()@,
        spec_first_review_field(r),
        spec_display_date(r.open_date.unwrap()@).unwrap(),
        r.canonical_url@,
    )
}

proof fn lemma_parse_items_round(rs: Seq<PullRequestRecord>)
    requires
        rs.len() > 0,
    ensures
        parse_items(spec_records_inner(rs) + "]"@) == Some(
            Seq::new(rs.len(), |i: int| spec_fields_of(rs[i])),
        ),
    decreases rs.len(),
{
    reveal_strlit(",");
    reveal_strlit("]");
    reveal_strlit("{\"author\":");
    let s = spec_records_inner(rs) + "]"@;
    let r = rs[0];
    let j0 = spec_record_json_of(r);
    assert(j0.len() >= 10) by {
        assert(j0 == "{\"author\":"@ + spec_quoted(r.author.unwrap()@)
            + ",\"first_review_date\":"@ + spec_quoted(spec_first_review_field(r))
            + ",\"pr_open_date\":"@ + spec_quoted(
            spec_display_date(r.open_date.unwrap()@).unwrap(),
        ) + ",\"pr_url\":"@ + spec_quoted(r.canonical_url@) + "}"@);
    }
    if rs.len() == 1 {
        assert(spec_records_inner(rs) == j0);
        lemma_parse_record_round(
            r.canonical_url@,
            r.author.unwrap()@,
            spec_display_date(r.open_date.unwrap()@).unwrap(),
            spec_first_review_field(r),
            "]"@,
        );
        assert(parse_record(s) == Some((spec_fields_of(r), "]"@)));
        assert(seq![spec_fields_of(r)] =~~= Seq::new(rs.len(), |i: int| spec_fields_of(rs[i])));
    } else {
        let tail = rs.skip(1);
        let s2 = ","@ + (spec_records_inner(tail) + "]"@);
        assert(spec_records_inner(rs) == j0 + ","@ + spec_records_inner(tail));
        assert(s =~= j0 + s2);
        lemma_parse_record_round(
            r.canonical_url@,
            r.author.unwrap()@,
            spec_display_date(r.open_date.unwrap()@).unwrap(),
            spec_first_review_field(r),
            s2,
        );
        assert(parse_record(s) == Some((spec_fields_of(r), s2)));
        assert(s2[0] == ',');
        assert(s2 != "]"@) by {
            assert("]"@[0] == ']');
        }
        assert(s2.len() < s.len());
        assert(s2.skip(1) =~= spec_records_inner(tail) + "]"@);
        lemma_parse_items_round(tail);
        assert(seq![spec_fields_of(r)] + Seq::new(tail.len(), |i: int| spec_fields_of(tail[i]))
            =~~= Seq::new(rs.len(), |i: int| spec_fields_of(rs[i])));
    }
}

/// The serializer round trip: parsing a serialized store recovers, for
/// every record in order, the author, the first-review date (empty when
/// absent), the open date and the canonical URL, the dates in their
/// RFC 2822 form.
pub proof fn lemma_serialize_round_trip(rs: Seq<PullRequestRecord>)
    ensures
        spec_parse(spec_serialize(rs)) == Some(Seq::new(rs.len(), |i: int| spec_fields_of(rs[i]))),
{
    reveal_strlit("[");
    reveal_strlit("]");
    reveal_strlit("{\"author\":");
    let inner = spec_records_inner(rs);
    let s = spec_serialize(rs);
    assert(s =~= "["@ + (inner + "]"@));
    lemma_expect_round("["@, inner + "]"@);
    if rs.len() == 0 {
        assert(inner == Seq::<char>::empty());
        assert(inner + "]"@ =~= "]"@);
        assert(Seq::new(0, |i: int| spec_fields_of(rs[i])) =~~= Seq::<
            (Seq<char>, Seq<char>, Seq<char>, Seq<char>),
        >::empty());
    } else {
        let r = rs[0];
        assert(spec_record_json_of(r).len() >= 10) by {
            assert(spec_record_json_of(r) == "{\"author\":"@ + spec_quoted(r.author.unwrap()@)
                + ",\"first_review_date\":"@ + spec_quoted(spec_first_review_field(r))
                + ",\"pr_open_date\":"@ + spec_quoted(
                spec_display_date(r.open_date.unwrap()@).unwrap(),
            ) + ",\"pr_url\":"@ + spec_quoted(r.canonical_url@) + "}"@);
        }
        assert(inner.len() >= 10) by {
            if rs.len() == 1 {
                assert(inner == spec_record_json_of(r));
            } else {
                assert(inner == spec_record_json_of(r) + ","@ + spec_records_inner(rs.skip(1)));
            }
        }
        assert(inner + "]"@ != "]"@) by {
            assert((inner + "]"@).len() > 1);
        }
        lemma_parse_items_round(rs);
    }
}

} // verus!
