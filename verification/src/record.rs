use vstd::prelude::*;

use crate::date::Date;
use crate::date::date_valid;

verus! {

/// The fields that splitting `s` on `sep` yields, with the semantics of
/// Rust's `str::split` on a single separator character: the empty string
/// splits to one empty field, and every separator ends one field and
/// starts the next.
pub open spec fn spec_split(s: Seq<char>, sep: char) -> Seq<Seq<char>>
    decreases s.len(),
{
    if s.len() == 0 {
        seq![Seq::<char>::empty()]
    } else {
        let rest = spec_split(s.drop_last(), sep);
        if s.last() == sep {
            rest.push(Seq::<char>::empty())
        } else {
            rest.update(rest.len() - 1, rest.last().push(s.last()))
        }
    }
}

/// A split always yields at least one field.
pub proof fn lemma_spec_split_len(s: Seq<char>, sep: char)
    ensures
        spec_split(s, sep).len() >= 1,
    decreases s.len(),
{
    if s.len() > 0 {
        lemma_spec_split_len(s.drop_last(), sep);
    }
}

/// The views of a vector of strings.
pub open spec fn strings_model(ps: Seq<String>) -> Seq<Seq<char>> {
    ps.map_values(|p: String| p@)
}

/// Splits `s` on `sep`, exactly as `spec_split` describes.
pub fn split_on(s: &str, sep: char) -> (parts: Vec<String>)
    ensures
        strings_model(parts@) == spec_split(s@, sep),
{
    let len = s.unicode_len();
    let mut parts: Vec<String> = Vec::new();
    let mut cur = String::new();
    let mut i: usize = 0;
    proof {
        assert(strings_model(parts@).push(cur@) =~= spec_split(s@.take(0), sep));
    }
    while i < len
        invariant
            i <= len,
            len == s@.len(),
            strings_model(parts@).push(cur@) == spec_split(s@.take(i as int), sep),
        decreases len - i,
    {
        let ghost prefix = s@.take(i as int);
        let ghost next = s@.take(i as int + 1);
        proof {
            assert(next.drop_last() =~= prefix);
            assert(next.last() == s@[i as int]);
        }
        let c = s.get_char(i);
        if c == sep {
            parts.push(cur);
            cur = String::new();
            proof {
                assert(strings_model(parts@).push(cur@) =~= spec_split(next, sep));
            }
        } else {
            let piece = s.substring_char(i, i + 1);
            proof {
                assert(piece@ =~= seq![s@[i as int]]);
                lemma_spec_split_len(prefix, sep);
            }
            cur.append(piece);
            proof {
                let rest = spec_split(prefix, sep);
                assert(cur@ =~= rest.last().push(s@[i as int]));
                assert(strings_model(parts@).push(cur@) =~= spec_split(next, sep));
            }
        }
        i = i + 1;
    }
    proof {
        assert(s@.take(len as int) =~= s@);
    }
    parts.push(cur);
    proof {
        assert(strings_model(parts@) =~= spec_split(s@, sep));
    }
    parts
}

/// The value of a decimal digit character, or -1 for any other character.
pub open spec fn digit_value(c: char) -> int {
    if c == '0' {
        0
    } else if c == '1' {
        1
    } else if c == '2' {
        2
    } else if c == '3' {
        3
    } else if c == '4' {
        4
    } else if c == '5' {
        5
    } else if c == '6' {
        6
    } else if c == '7' {
        7
    } else if c == '8' {
        8
    } else if c == '9' {
        9
    } else {
        -1
    }
}

/// Every character of `t` is a decimal digit.
pub open spec fn all_digits(t: Seq<char>) -> bool {
    forall|i: int| 0 <= i < t.len() ==> #[trigger] digit_value(t[i]) >= 0
}

/// The number that a string of decimal digits denotes.
pub open spec fn chars_value(t: Seq<char>) -> int
    decreases t.len(),
{
    if t.len() == 0 {
        0
    } else {
        chars_value(t.drop_last()) * 10 + digit_value(t.last())
    }
}

fn digit_val(c: char) -> (r: i32)
    ensures
        r as int == digit_value(c),
{
    match c {
        '0' => 0,
        '1' => 1,
        '2' => 2,
        '3' => 3,
        '4' => 4,
        '5' => 5,
        '6' => 6,
        '7' => 7,
        '8' => 8,
        '9' => 9,
        _ => -1,
    }
}

/// Reads a two-digit field: `Some` exactly when both characters are
/// decimal digits, carrying the denoted value.
fn parse_two(s: &str) -> (r: Option<u32>)
    requires
        s@.len() == 2,
    ensures
        (r is Some) <==> all_digits(s@),
        r matches Some(v) ==> v as int == chars_value(s@) && v <= 99,
{
    let c0 = s.get_char(0);
    let c1 = s.get_char(1);
    let d0 = digit_val(c0);
    let d1 = digit_val(c1);
    if d0 < 0 || d1 < 0 {
        return None;
    }
    proof {
        assert forall|i: int| 0 <= i < s@.len() implies #[trigger] digit_value(s@[i]) >= 0 by {
            if i == 0 {
            } else {
                assert(i == 1);
            }
        }
        assert(s@.drop_last() =~= seq![s@[0]]);
        assert(seq![s@[0]].drop_last() =~= Seq::<char>::empty());
        assert(chars_value(Seq::<char>::empty()) == 0);
        assert(chars_value(seq![s@[0]]) == digit_value(s@[0]));
        assert(chars_value(s@) == digit_value(s@[0]) * 10 + digit_value(s@[1]));
    }
    Some((d0 as u32) * 10 + (d1 as u32))
}

/// Reads a four-digit field: `Some` exactly when all four characters are
/// decimal digits, carrying the denoted value.
fn parse_four(s: &str) -> (r: Option<u32>)
    requires
        s@.len() == 4,
    ensures
        (r is Some) <==> all_digits(s@),
        r matches Some(v) ==> v as int == chars_value(s@) && v <= 9999,
{
    let c0 = s.get_char(0);
    let c1 = s.get_char(1);
    let c2 = s.get_char(2);
    let c3 = s.get_char(3);
    let d0 = digit_val(c0);
    let d1 = digit_val(c1);
    let d2 = digit_val(c2);
    let d3 = digit_val(c3);
    if d0 < 0 || d1 < 0 || d2 < 0 || d3 < 0 {
        return None;
    }
    proof {
        assert forall|i: int| 0 <= i < s@.len() implies #[trigger] digit_value(s@[i]) >= 0 by {
            if i == 0 {
            } else if i == 1 {
            } else if i == 2 {
            } else {
                assert(i == 3);
            }
        }
        let t1 = seq![s@[0]];
        let t2 = seq![s@[0], s@[1]];
        let t3 = seq![s@[0], s@[1], s@[2]];
        assert(t1.drop_last() =~= Seq::<char>::empty());
        assert(t2.drop_last() =~= t1);
        assert(t3.drop_last() =~= t2);
        assert(s@.drop_last() =~= t3);
        assert(chars_value(Seq::<char>::empty()) == 0);
        assert(chars_value(t1) == digit_value(s@[0]));
        assert(chars_value(t2) == digit_value(s@[0]) * 10 + digit_value(s@[1]));
        assert(chars_value(t3) == chars_value(t2) * 10 + digit_value(s@[2]));
        assert(chars_value(s@) == chars_value(t3) * 10 + digit_value(s@[3]));
    }
    Some((((d0 as u32) * 10 + (d1 as u32)) * 10 + (d2 as u32)) * 10 + (d3 as u32))
}

/// The date that the three leading fields of a log file name denote:
/// `Some` exactly when they are a four-digit year and two-digit month
/// and day that form a well-formed calendar date.
pub open spec fn spec_parse_date(t0: Seq<char>, t1: Seq<char>, t2: Seq<char>) -> Option<Date> {
    if t0.len() == 4 && t1.len() == 2 && t2.len() == 2 && all_digits(t0) && all_digits(t1)
        && all_digits(t2) {
        let d = Date {
            year: chars_value(t0) as i32,
            month: chars_value(t1) as u8,
            day: chars_value(t2) as u8,
        };
        if d.valid() {
            Some(d)
        } else {
            None
        }
    } else {
        None
    }
}

/// Reads a `yyyy`, `mm`, `dd` triple as a calendar date, exactly as
/// `spec_parse_date` describes.
pub fn parse_date(p0: &str, p1: &str, p2: &str) -> (r: Option<Date>)
    ensures
        r == spec_parse_date(p0@, p1@, p2@),
{
    if p0.unicode_len() != 4 || p1.unicode_len() != 2 || p2.unicode_len() != 2 {
        return None;
    }
    let y = match parse_four(p0) {
        Some(v) => v,
        None => {
            return None;
        },
    };
    let m = match parse_two(p1) {
        Some(v) => v,
        None => {
            return None;
        },
    };
    let dd = match parse_two(p2) {
        Some(v) => v,
        None => {
            return None;
        },
    };
    let d = Date { year: y as i32, month: m as u8, day: dd as u8 };
    if date_valid(d) {
        Some(d)
    } else {
        None
    }
}

/// Compares two string slices by their characters.
pub fn str_eq(a: &str, b: &str) -> (r: bool)
    ensures
        r == (a@ == b@),
{
    let alen = a.unicode_len();
    let blen = b.unicode_len();
    if alen != blen {
        return false;
    }
    let mut i: usize = 0;
    while i < alen
        invariant
            i <= alen,
            alen == a@.len(),
            alen == b@.len(),
            forall|k: int| 0 <= k < i ==> a@[k] == b@[k],
        decreases alen - i,
    {
        if a.get_char(i) != b.get_char(i) {
            return false;
        }
        i = i + 1;
    }
    proof {
        assert(a@ =~= b@);
    }
    true
}

/// The record fields that a log file's base name denotes: `Some` exactly
/// when the name splits on `-` into at least five fields, the fourth is
/// the literal marker `cowork`, and the first three form a well-formed
/// date; the author is the fifth field, taken verbatim.
pub open spec fn spec_parse_name(s: Seq<char>) -> Option<(Date, Seq<char>)> {
    let parts = spec_split(s, '-');
    if parts.len() < 5 {
        None
    } else if parts[3] != "cowork"@ {
        None
    } else {
        match spec_parse_date(parts[0], parts[1], parts[2]) {
            Some(d) => Some((d, parts[4])),
            None => None,
        }
    }
}

/// Parses a log file's base name into its date and author, exactly as
/// `spec_parse_name` describes.
pub fn parse_file_name(stem: &str) -> (r: Option<(Date, String)>)
    ensures
        match spec_parse_name(stem@) {
            Some(p) => r matches Some(pair) && pair.0 == p.0 && pair.1@ == p.1,
            None => r is None,
        },
{
    let parts = split_on(stem, '-');
    if parts.len() < 5 {
        return None;
    }
    if !str_eq(parts[3].as_str(), "cowork") {
        return None;
    }
    match parse_date(parts[0].as_str(), parts[1].as_str(), parts[2].as_str()) {
        Some(d) => Some((d, parts[4].clone())),
        None => None,
    }
}

/// One parsed work-log record: a date, an author and the file's text.
#[derive(Debug, PartialEq)]
pub struct Review {
    pub date: Date,
    pub coworker: String,
    pub content: String,
}

/// The mathematical value of a record.
pub ghost struct ReviewModel {
    pub date: Date,
    pub coworker: Seq<char>,
    pub content: Seq<char>,
}

impl Review {
    /// The record's mathematical value.
    pub open spec fn model(self) -> ReviewModel {
        ReviewModel { date: self.date, coworker: self.coworker@, content: self.content@ }
    }

    /// A well-formed record carries a well-formed date.
    pub open spec fn wf(self) -> bool {
        self.date.valid()
    }
}

/// The views of a vector of records.
pub open spec fn reviews_model(rs: Seq<Review>) -> Seq<ReviewModel> {
    rs.map_values(|r: Review| r.model())
}

/// Builds the record for one log file from its base name and its text:
/// `Some` exactly when the name meets the naming contract, with the
/// parsed date, the author field and the given text.
pub fn review_from_file_name(stem: &str, content: String) -> (r: Option<Review>)
    ensures
        match spec_parse_name(stem@) {
            Some(p) => r matches Some(rev) && rev.model() == (ReviewModel {
                date: p.0,
                coworker: p.1,
                content: content@,
            }) && rev.wf(),
            None => r is None,
        },
{
    match parse_file_name(stem) {
        Some((date, coworker)) => Some(Review { date, coworker, content }),
        None => None,
    }
}

} // verus!
