//! The text of the C sources that hold RGB-to-spectrum coefficient tables:
//! where the scale line and the coefficient triples stand in them.

use vstd::prelude::*;

verus! {

/// `c` is white space in the sense of Unicode's `White_Space` property, as
/// `char::is_whitespace` and the `\s` class of regular expressions take it.
pub open spec fn is_white_space_spec(c: char) -> bool {
    ||| '\t' <= c <= '\r'
    ||| c == ' '
    ||| c == '\u{85}'
    ||| c == '\u{a0}'
    ||| c == '\u{1680}'
    ||| '\u{2000}' <= c <= '\u{200a}'
    ||| c == '\u{2028}'
    ||| c == '\u{2029}'
    ||| c == '\u{202f}'
    ||| c == '\u{205f}'
    ||| c == '\u{3000}'
}

/// Whether `c` is white space.
pub fn is_white_space(c: char) -> (r: bool)
    ensures
        r == is_white_space_spec(c),
{
    ('\t' <= c && c <= '\r') || c == ' ' || c == '\u{85}' || c == '\u{a0}' || c == '\u{1680}' || (
    '\u{2000}' <= c && c <= '\u{200a}') || c == '\u{2028}' || c == '\u{2029}' || c == '\u{202f}'
        || c == '\u{205f}' || c == '\u{3000}'
}

/// `c` may stand in a number of a coefficient table: a digit, a sign, a
/// decimal point or an exponent mark.
pub open spec fn is_number_char_spec(c: char) -> bool {
    c == '-' || c == 'e' || c == '.' || ('0' <= c <= '9')
}

/// Whether `c` may stand in a number of a coefficient table.
pub fn is_number_char(c: char) -> (r: bool)
    ensures
        r == is_number_char_spec(c),
{
    c == '-' || c == 'e' || c == '.' || ('0' <= c && c <= '9')
}

/// The end of the run of white space that starts at `i` in `s`.
pub open spec fn white_space_end(s: Seq<char>, i: int) -> int
    decreases s.len() - i,
{
    if 0 <= i < s.len() && is_white_space_spec(s[i]) {
        white_space_end(s, i + 1)
    } else {
        i
    }
}

/// The end of the run of number characters that starts at `i` in `s`.
pub open spec fn number_end(s: Seq<char>, i: int) -> int
    decreases s.len() - i,
{
    if 0 <= i < s.len() && is_number_char_spec(s[i]) {
        number_end(s, i + 1)
    } else {
        i
    }
}

/// A table entry field at `i`: white space, a number and a comma. Gives the
/// start and the end of the number and the index after the comma.
pub open spec fn field_at(s: Seq<char>, i: int) -> Option<(int, int, int)> {
    let a = white_space_end(s, i);
    let b = number_end(s, a);
    if a == i || b == a || b >= s.len() || s[b] != ',' {
        None
    } else {
        Some((a, b, b + 1))
    }
}

/// A table entry at `p`: `{`, three fields, white space and `}`, as the
/// pattern `\{\s+([-e0-9.]+),\s+([-e0-9.]+),\s+([-e0-9.]+),\s+}`
/// matches it. Gives the spans of the three numbers and the index after
/// the `}`.
pub open spec fn entry_at(s: Seq<char>, p: int) -> Option<(int, int, int, int, int, int, int)> {
    if !(0 <= p < s.len() && s[p] == '{') {
        None
    } else {
        match field_at(s, p + 1) {
            None => None,
            Some(f1) => match field_at(s, f1.2) {
                None => None,
                Some(f2) => match field_at(s, f2.2) {
                    None => None,
                    Some(f3) => {
                        let e = white_space_end(s, f3.2);
                        if e == f3.2 || e >= s.len() || s[e] != '}' {
                            None
                        } else {
                            Some((f1.0, f1.1, f2.0, f2.1, f3.0, f3.1, e + 1))
                        }
                    },
                },
            },
        }
    }
}

/// The spans of the numbers of the table entries found in `s` from `from`
/// on, left to right: the leftmost entry, then the leftmost one after its
/// end, and so on.
pub open spec fn entries_from(s: Seq<char>, from: int) -> Seq<(int, int, int, int, int, int)>
    decreases s.len() - from,
{
    if from < 0 || from >= s.len() {
        seq![]
    } else {
        match entry_at(s, from) {
            Some(m) => if from < m.6 <= s.len() {
                seq![(m.0, m.1, m.2, m.3, m.4, m.5)] + entries_from(s, m.6)
            } else {
                seq![]
            },
            None => entries_from(s, from + 1),
        }
    }
}

proof fn lemma_white_space_end_bounds(s: Seq<char>, i: int)
    requires
        0 <= i <= s.len(),
    ensures
        i <= white_space_end(s, i) <= s.len(),
    decreases s.len() - i,
{
    if i < s.len() && is_white_space_spec(s[i]) {
        lemma_white_space_end_bounds(s, i + 1);
    }
}

proof fn lemma_number_end_bounds(s: Seq<char>, i: int)
    requires
        0 <= i <= s.len(),
    ensures
        i <= number_end(s, i) <= s.len(),
    decreases s.len() - i,
{
    if i < s.len() && is_number_char_spec(s[i]) {
        lemma_number_end_bounds(s, i + 1);
    }
}

proof fn lemma_field_at_bounds(s: Seq<char>, i: int)
    requires
        0 <= i <= s.len(),
        field_at(s, i) is Some,
    ensures
        ({
            let f = field_at(s, i).unwrap();
            i < f.0 < f.1 < f.2 <= s.len()
        }),
{
    lemma_white_space_end_bounds(s, i);
    lemma_number_end_bounds(s, white_space_end(s, i));
}

/// The three numbers of a table entry lie after the `{` that opens it, in
/// this order, are not empty, and end before the entry does.
pub proof fn lemma_entry_at_bounds(s: Seq<char>, p: int)
    requires
        entry_at(s, p) is Some,
    ensures
        ({
            let m = entry_at(s, p).unwrap();
            &&& p < m.0 < m.1 < m.2 < m.3 < m.4 < m.5 < m.6 <= s.len()
        }),
{
    let f1 = field_at(s, p + 1).unwrap();
    lemma_field_at_bounds(s, p + 1);
    let f2 = field_at(s, f1.2).unwrap();
    lemma_field_at_bounds(s, f1.2);
    let f3 = field_at(s, f2.2).unwrap();
    lemma_field_at_bounds(s, f2.2);
    lemma_white_space_end_bounds(s, f3.2);
}

/// The entries found from `from` on do not overlap and come in the order
/// of the text: each number starts after the previous one ends, and the
/// first starts after `from`.
pub proof fn lemma_entries_in_text_order(s: Seq<char>, from: int)
    requires
        0 <= from,
    ensures
        ({
            let es = entries_from(s, from);
            &&& forall|k: int|
                0 <= k < es.len() ==> from < (#[trigger] es[k]).0 < es[k].1 < es[k].2 < es[k].3
                    < es[k].4 < es[k].5 <= s.len()
            &&& forall|k: int| 0 <= k < es.len() - 1 ==> (#[trigger] es[k]).5 < es[k + 1].0
        }),
    decreases s.len() - from,
{
    if from < s.len() {
        match entry_at(s, from) {
            Some(m) => {
                lemma_entry_at_bounds(s, from);
                lemma_entries_in_text_order(s, m.6);
                let rest = entries_from(s, m.6);
                let es = entries_from(s, from);
                assert(from < m.6 <= s.len());
                assert(es == seq![(m.0, m.1, m.2, m.3, m.4, m.5)] + rest);
                assert forall|k: int| 0 <= k < es.len() - 1 implies (#[trigger] es[k]).5 < es[k + 1].0 by {
                    if k > 0 {
                        assert(es[k] == rest[k - 1]);
                        assert(es[k + 1] == rest[k]);
                    } else if rest.len() > 0 {
                        assert(es[k + 1] == rest[0]);
                    }
                }
                assert forall|k: int| 0 <= k < es.len() implies from < (#[trigger] es[k]).0
                    < es[k].1 < es[k].2 < es[k].3 < es[k].4 < es[k].5 <= s.len() by {
                    if k > 0 {
                        assert(es[k] == rest[k - 1]);
                    }
                }
            },
            None => {
                lemma_entries_in_text_order(s, from + 1);
                assert(entries_from(s, from) == entries_from(s, from + 1));
            },
        }
    }
}

/// The characters of Unicode's `White_Space` property, one by one: the
/// controls U+0009 to U+000D (tab, line feed, vertical tab, form feed,
/// carriage return), space, next line, no-break space, the Ogham space mark,
/// the spaces U+2000 to U+200A, the line and paragraph separators, the
/// narrow no-break space, the medium mathematical space and the ideographic
/// space.
pub open spec fn unicode_white_space(c: char) -> bool {
    ||| c == '\u{9}'
    ||| c == '\u{a}'
    ||| c == '\u{b}'
    ||| c == '\u{c}'
    ||| c == '\u{d}'
    ||| c == '\u{20}'
    ||| c == '\u{85}'
    ||| c == '\u{a0}'
    ||| c == '\u{1680}'
    ||| c == '\u{2000}'
    ||| c == '\u{2001}'
    ||| c == '\u{2002}'
    ||| c == '\u{2003}'
    ||| c == '\u{2004}'
    ||| c == '\u{2005}'
    ||| c == '\u{2006}'
    ||| c == '\u{2007}'
    ||| c == '\u{2008}'
    ||| c == '\u{2009}'
    ||| c == '\u{200a}'
    ||| c == '\u{2028}'
    ||| c == '\u{2029}'
    ||| c == '\u{202f}'
    ||| c == '\u{205f}'
    ||| c == '\u{3000}'
}

/// What the library takes for white space, in trimming and in table entries,
/// is exactly Unicode's `White_Space` property: the carriage return of a
/// CRLF line end is white space, and so is each of the other 24 characters.
pub proof fn lemma_white_space_is_unicode(c: char)
    ensures
        is_white_space_spec(c) <==> unicode_white_space(c),
{
    assert(is_white_space_spec(c) <==> unicode_white_space(c)) by {
        if '\t' <= c <= '\r' {
            assert(c == '\u{9}' || c == '\u{a}' || c == '\u{b}' || c == '\u{c}' || c == '\u{d}');
        }
        if '\u{2000}' <= c <= '\u{200a}' {
            assert(c == '\u{2000}' || c == '\u{2001}' || c == '\u{2002}' || c == '\u{2003}'
                || c == '\u{2004}' || c == '\u{2005}' || c == '\u{2006}' || c == '\u{2007}'
                || c == '\u{2008}' || c == '\u{2009}' || c == '\u{200a}');
        }
    }
}

/// A character of the class `[-e0-9.]` of the table pattern, spelled out.
pub open spec fn pattern_number_char(c: char) -> bool {
    c == '-' || c == 'e' || c == '.' || c == '0' || c == '1' || c == '2' || c == '3' || c == '4'
        || c == '5' || c == '6' || c == '7' || c == '8' || c == '9'
}

/// Every character of `s[a..b]` is white space.
pub open spec fn all_white_space(s: Seq<char>, a: int, b: int) -> bool {
    forall|j: int| a <= j < b ==> #[trigger] unicode_white_space(s[j])
}

/// Every character of `s[a..b]` belongs to the class `[-e0-9.]`.
pub open spec fn all_number_chars(s: Seq<char>, a: int, b: int) -> bool {
    forall|j: int| a <= j < b ==> #[trigger] pattern_number_char(s[j])
}

/// `s[i..]` starts with `\s+([-e0-9.]+),`: white space over `i..a`, a number
/// over `a..b` and a comma at `b`.
pub open spec fn field_shape(s: Seq<char>, i: int, a: int, b: int) -> bool {
    &&& 0 <= i < a < b < s.len()
    &&& all_white_space(s, i, a)
    &&& all_number_chars(s, a, b)
    &&& s[b] == ','
}

/// `s[p..=e]` reads `{`, three fields with their numbers at `a1..b1`,
/// `a2..b2` and `a3..b3`, white space, and `}` at `e`: a match of
/// `\{\s+([-e0-9.]+),\s+([-e0-9.]+),\s+([-e0-9.]+),\s+}`.
pub open spec fn entry_shape(
    s: Seq<char>,
    p: int,
    a1: int,
    b1: int,
    a2: int,
    b2: int,
    a3: int,
    b3: int,
    e: int,
) -> bool {
    &&& 0 <= p < s.len()
    &&& s[p] == '{'
    &&& field_shape(s, p + 1, a1, b1)
    &&& field_shape(s, b1 + 1, a2, b2)
    &&& field_shape(s, b2 + 1, a3, b3)
    &&& b3 + 1 < e < s.len()
    &&& all_white_space(s, b3 + 1, e)
    &&& s[e] == '}'
}

proof fn lemma_white_space_end_of_run(s: Seq<char>, i: int, a: int)
    requires
        0 <= i <= a < s.len(),
        all_white_space(s, i, a),
        pattern_number_char(s[a]) || s[a] == '}',
    ensures
        white_space_end(s, i) == a,
    decreases a - i,
{
    lemma_white_space_is_unicode(s[i]);
    if i < a {
        assert(unicode_white_space(s[i]));
        lemma_white_space_end_of_run(s, i + 1, a);
    } else {
        assert(!unicode_white_space(s[a]));
    }
}

proof fn lemma_number_end_of_run(s: Seq<char>, a: int, b: int)
    requires
        0 <= a <= b < s.len(),
        all_number_chars(s, a, b),
        s[b] == ',',
    ensures
        number_end(s, a) == b,
    decreases b - a,
{
    if a < b {
        assert(pattern_number_char(s[a]));
        lemma_number_end_of_run(s, a + 1, b);
    }
}

proof fn lemma_field_at_shape(s: Seq<char>, i: int, a: int, b: int)
    requires
        field_shape(s, i, a, b),
    ensures
        field_at(s, i) == Some((a, b, b + 1)),
{
    assert(pattern_number_char(s[a]));
    lemma_white_space_end_of_run(s, i, a);
    lemma_number_end_of_run(s, a, b);
}

/// Every text that matches the table pattern at `p` is recognised there as
/// an entry, with the numbers where the pattern puts them, whatever the
/// numbers' characters are (a leading minus included).
pub proof fn lemma_entry_at_matches_pattern(
    s: Seq<char>,
    p: int,
    a1: int,
    b1: int,
    a2: int,
    b2: int,
    a3: int,
    b3: int,
    e: int,
)
    requires
        entry_shape(s, p, a1, b1, a2, b2, a3, b3, e),
    ensures
        entry_at(s, p) == Some((a1, b1, a2, b2, a3, b3, e + 1)),
{
    lemma_field_at_shape(s, p + 1, a1, b1);
    lemma_field_at_shape(s, b1 + 1, a2, b2);
    lemma_field_at_shape(s, b2 + 1, a3, b3);
    lemma_white_space_end_of_run(s, b3 + 1, e);
}

proof fn lemma_white_space_run(s: Seq<char>, i: int)
    requires
        0 <= i <= s.len(),
    ensures
        all_white_space(s, i, white_space_end(s, i)),
    decreases s.len() - i,
{
    if i < s.len() && is_white_space_spec(s[i]) {
        lemma_white_space_run(s, i + 1);
        lemma_white_space_is_unicode(s[i]);
        assert forall|j: int| i <= j < white_space_end(s, i) implies #[trigger] unicode_white_space(
            s[j],
        ) by {
            if j > i {
                assert(i + 1 <= j < white_space_end(s, i + 1));
            }
        }
    }
}

proof fn lemma_number_run(s: Seq<char>, i: int)
    requires
        0 <= i <= s.len(),
    ensures
        all_number_chars(s, i, number_end(s, i)),
    decreases s.len() - i,
{
    if i < s.len() && is_number_char_spec(s[i]) {
        lemma_number_run(s, i + 1);
        assert forall|j: int| i <= j < number_end(s, i) implies #[trigger] pattern_number_char(
            s[j],
        ) by {
            if j > i {
                assert(i + 1 <= j < number_end(s, i + 1));
            }
        }
    }
}

proof fn lemma_field_at_is_shape(s: Seq<char>, i: int)
    requires
        0 <= i <= s.len(),
        field_at(s, i) is Some,
    ensures
        ({
            let f = field_at(s, i).unwrap();
            field_shape(s, i, f.0, f.1) && f.2 == f.1 + 1
        }),
{
    lemma_field_at_bounds(s, i);
    lemma_white_space_run(s, i);
    lemma_number_run(s, white_space_end(s, i));
}

/// What is recognised as an entry at `p` is a match of the table pattern
/// there: `{`, three fields of white space, a number of `[-e0-9.]` and a
/// comma, then white space and `}`.
pub proof fn lemma_entry_at_is_pattern(s: Seq<char>, p: int)
    requires
        entry_at(s, p) is Some,
    ensures
        ({
            let m = entry_at(s, p).unwrap();
            entry_shape(s, p, m.0, m.1, m.2, m.3, m.4, m.5, m.6 - 1)
        }),
{
    let f1 = field_at(s, p + 1).unwrap();
    lemma_field_at_is_shape(s, p + 1);
    let f2 = field_at(s, f1.2).unwrap();
    lemma_field_at_is_shape(s, f1.2);
    let f3 = field_at(s, f2.2).unwrap();
    lemma_field_at_is_shape(s, f2.2);
    lemma_white_space_end_bounds(s, f3.2);
    lemma_white_space_run(s, f3.2);
}

/// Two matches of the table pattern cannot overlap: inside a match there is
/// no `{`, so a match that starts before `p` ends before the `{` at `p`.
proof fn lemma_match_ends_before_brace(s: Seq<char>, q: int, p: int)
    requires
        entry_at(s, q) is Some,
        q < p < s.len(),
        s[p] == '{',
    ensures
        entry_at(s, q).unwrap().6 <= p,
{
    let m = entry_at(s, q).unwrap();
    lemma_entry_at_is_pattern(s, q);
    lemma_entry_at_bounds(s, q);
    if p < m.6 {
        assert(!unicode_white_space(s[p]));
        assert(!pattern_number_char(s[p]));
        if p < m.0 {
            assert(all_white_space(s, q + 1, m.0));
        } else if p < m.1 {
            assert(all_number_chars(s, m.0, m.1));
        } else if p < m.2 {
            assert(field_shape(s, m.1 + 1, m.2, m.3));
        } else if p < m.3 {
            assert(all_number_chars(s, m.2, m.3));
        } else if p < m.4 {
            assert(field_shape(s, m.3 + 1, m.4, m.5));
        } else if p < m.5 {
            assert(all_number_chars(s, m.4, m.5));
        } else if p < m.6 - 1 {
            assert(all_white_space(s, m.5 + 1, m.6 - 1));
        }
    }
}

/// The repeated search misses no entry: every match of the table pattern
/// that starts at or after `from` is among the entries found from `from`
/// on, with its three numbers where the pattern puts them.
pub proof fn lemma_entries_find_every_match(
    s: Seq<char>,
    from: int,
    p: int,
    a1: int,
    b1: int,
    a2: int,
    b2: int,
    a3: int,
    b3: int,
    e: int,
)
    requires
        0 <= from <= p,
        entry_shape(s, p, a1, b1, a2, b2, a3, b3, e),
    ensures
        exists|k: int|
            0 <= k < entries_from(s, from).len() && #[trigger] entries_from(s, from)[k] == (
                a1,
                b1,
                a2,
                b2,
                a3,
                b3,
            ),
    decreases p - from,
{
    let es = entries_from(s, from);
    lemma_entry_at_matches_pattern(s, p, a1, b1, a2, b2, a3, b3, e);
    match entry_at(s, from) {
        Some(m) => {
            lemma_entry_at_bounds(s, from);
            let rest = entries_from(s, m.6);
            assert(es == seq![(m.0, m.1, m.2, m.3, m.4, m.5)] + rest);
            if from == p {
                assert(es[0] == (a1, b1, a2, b2, a3, b3));
            } else {
                lemma_match_ends_before_brace(s, from, p);
                lemma_entries_find_every_match(s, m.6, p, a1, b1, a2, b2, a3, b3, e);
                let k = choose|k: int|
                    0 <= k < rest.len() && #[trigger] rest[k] == (a1, b1, a2, b2, a3, b3);
                assert(es[k + 1] == rest[k]);
            }
        },
        None => {
            assert(from != p);
            assert(es == entries_from(s, from + 1));
            lemma_entries_find_every_match(s, from + 1, p, a1, b1, a2, b2, a3, b3, e);
        },
    }
}

/// The numbers `m` are those of a match of the table pattern at a `{` at or
/// after `from`.
pub open spec fn matched_at_or_after(
    s: Seq<char>,
    from: int,
    a1: int,
    b1: int,
    a2: int,
    b2: int,
    a3: int,
    b3: int,
) -> bool {
    exists|p: int, e: int|
        #![trigger entry_shape(s, p, a1, b1, a2, b2, a3, b3, e)]
        from <= p && entry_shape(s, p, a1, b1, a2, b2, a3, b3, e)
}

/// The repeated search finds nothing but matches: each entry found from
/// `from` on is a match of the table pattern at a `{` at or after `from`.
pub proof fn lemma_entries_are_matches(s: Seq<char>, from: int)
    requires
        0 <= from,
    ensures
        forall|k: int|
            0 <= k < entries_from(s, from).len() ==> {
                let m = #[trigger] entries_from(s, from)[k];
                matched_at_or_after(s, from, m.0, m.1, m.2, m.3, m.4, m.5)
            },
    decreases s.len() - from,
{
    let es = entries_from(s, from);
    if from < s.len() {
        match entry_at(s, from) {
            Some(m) => {
                lemma_entry_at_bounds(s, from);
                lemma_entry_at_is_pattern(s, from);
                lemma_entries_are_matches(s, m.6);
                let rest = entries_from(s, m.6);
                assert(es == seq![(m.0, m.1, m.2, m.3, m.4, m.5)] + rest);
                assert forall|k: int| 0 <= k < es.len() implies {
                    let y = #[trigger] es[k];
                    matched_at_or_after(s, from, y.0, y.1, y.2, y.3, y.4, y.5)
                } by {
                    if k == 0 {
                        assert(es[0] == (m.0, m.1, m.2, m.3, m.4, m.5));
                        assert(entry_shape(s, from, m.0, m.1, m.2, m.3, m.4, m.5, m.6 - 1));
                        assert(matched_at_or_after(s, from, m.0, m.1, m.2, m.3, m.4, m.5));
                    } else {
                        let x = rest[k - 1];
                        assert(es[k] == x);
                        assert(matched_at_or_after(s, m.6, x.0, x.1, x.2, x.3, x.4, x.5));
                        let (p, e) = choose|p: int, e: int|
                            #![trigger entry_shape(s, p, x.0, x.1, x.2, x.3, x.4, x.5, e)]
                            m.6 <= p && entry_shape(s, p, x.0, x.1, x.2, x.3, x.4, x.5, e);
                        assert(entry_shape(s, p, x.0, x.1, x.2, x.3, x.4, x.5, e));
                        assert(from <= p);
                        assert(matched_at_or_after(s, from, x.0, x.1, x.2, x.3, x.4, x.5));
                    }
                }
            },
            None => {
                lemma_entries_are_matches(s, from + 1);
                let rest = entries_from(s, from + 1);
                assert(es == rest);
                assert forall|k: int| 0 <= k < es.len() implies {
                    let y = #[trigger] es[k];
                    matched_at_or_after(s, from, y.0, y.1, y.2, y.3, y.4, y.5)
                } by {
                    let x = rest[k];
                    assert(matched_at_or_after(s, from + 1, x.0, x.1, x.2, x.3, x.4, x.5));
                    let (p, e) = choose|p: int, e: int|
                        #![trigger entry_shape(s, p, x.0, x.1, x.2, x.3, x.4, x.5, e)]
                        from + 1 <= p && entry_shape(s, p, x.0, x.1, x.2, x.3, x.4, x.5, e);
                    assert(entry_shape(s, p, x.0, x.1, x.2, x.3, x.4, x.5, e));
                }
            },
        }
    }
}

/// A range `start..end` of indices into a text.
#[derive(Debug, Clone, Copy, PartialEq, Eq, Structural)]
pub struct Span {
    pub start: usize,
    pub end: usize,
}

/// The three numbers of a table entry.
#[derive(Debug, Clone, Copy, PartialEq, Eq, Structural)]
pub struct Entry {
    pub x: Span,
    pub y: Span,
    pub z: Span,
}

/// An entry as the spans of its numbers.
pub open spec fn entry_view(e: Entry) -> (int, int, int, int, int, int) {
    (e.x.start as int, e.x.end as int, e.y.start as int, e.y.end as int, e.z.start as int, e.z.end as int)
}

fn white_space_end_at(s: &[char], i: usize) -> (r: usize)
    requires
        i <= s@.len(),
    ensures
        r == white_space_end(s@, i as int),
        i <= r <= s@.len(),
{
    let mut j = i;
    while j < s.len() && is_white_space(s[j])
        invariant
            i <= j <= s@.len(),
            white_space_end(s@, i as int) == white_space_end(s@, j as int),
        decreases s@.len() - j,
    {
        j += 1;
    }
    j
}

fn number_end_at(s: &[char], i: usize) -> (r: usize)
    requires
        i <= s@.len(),
    ensures
        r == number_end(s@, i as int),
        i <= r <= s@.len(),
{
    let mut j = i;
    while j < s.len() && is_number_char(s[j])
        invariant
            i <= j <= s@.len(),
            number_end(s@, i as int) == number_end(s@, j as int),
        decreases s@.len() - j,
    {
        j += 1;
    }
    j
}

fn field_at_exec(s: &[char], i: usize) -> (r: Option<(Span, usize)>)
    requires
        i <= s@.len(),
    ensures
        match r {
            None => field_at(s@, i as int) is None,
            Some((sp, next)) => field_at(s@, i as int) == Some(
                (sp.start as int, sp.end as int, next as int),
            ) && i < next <= s@.len(),
        },
{
    let a = white_space_end_at(s, i);
    let b = number_end_at(s, a);
    if a == i || b == a || b >= s.len() || s[b] != ',' {
        None
    } else {
        Some((Span { start: a, end: b }, b + 1))
    }
}

fn entry_at_exec(s: &[char], p: usize) -> (r: Option<(Entry, usize)>)
    requires
        p < s@.len(),
    ensures
        match r {
            None => entry_at(s@, p as int) is None,
            Some((e, next)) => {
                let v = entry_view(e);
                &&& entry_at(s@, p as int) == Some((v.0, v.1, v.2, v.3, v.4, v.5, next as int))
                &&& p < next <= s@.len()
            },
        },
{
    if s[p] != '{' {
        return None;
    }
    let (x, next1) = match field_at_exec(s, p + 1) {
        None => return None,
        Some(f) => f,
    };
    let (y, next2) = match field_at_exec(s, next1) {
        None => return None,
        Some(f) => f,
    };
    let (z, next3) = match field_at_exec(s, next2) {
        None => return None,
        Some(f) => f,
    };
    let e = white_space_end_at(s, next3);
    if e == next3 || e >= s.len() || s[e] != '}' {
        return None;
    }
    Some((Entry { x, y, z }, e + 1))
}

/// The table entries in `s`, left to right, as the spans of their numbers:
/// what the pattern `\{\s+([-e0-9.]+),\s+([-e0-9.]+),\s+([-e0-9.]+),\s+}`
/// captures when it is searched for repeatedly.
pub fn coefficient_entries(s: &[char]) -> (r: Vec<Entry>)
    ensures
        r@.map_values(|e: Entry| entry_view(e)) == entries_from(s@, 0),
{
    let mut out: Vec<Entry> = Vec::new();
    let mut pos: usize = 0;
    while pos < s.len()
        invariant
            pos <= s@.len(),
            entries_from(s@, 0) == out@.map_values(|e: Entry| entry_view(e)) + entries_from(
                s@,
                pos as int,
            ),
        decreases s@.len() - pos,
    {
        let ghost old_out = out@;
        match entry_at_exec(s, pos) {
            Some((e, next)) => {
                out.push(e);
                assert(out@.map_values(|e: Entry| entry_view(e)) =~= old_out.map_values(
                    |e: Entry| entry_view(e),
                ).push(entry_view(e)));
                pos = next;
            },
            None => {
                pos += 1;
            },
        }
    }
    assert(entries_from(s@, pos as int) =~= seq![]);
    out
}

/// The first index from `i` on, before `end`, that holds `c`, or `end`.
pub open spec fn find_char(s: Seq<char>, i: int, end: int, c: char) -> int
    decreases end - i,
{
    if i < end && s[i] != c {
        find_char(s, i + 1, end, c)
    } else {
        i
    }
}

/// The span of the third line of `s`, lines being separated by `\n`, if
/// `s` has one.
pub open spec fn third_line(s: Seq<char>) -> Option<(int, int)> {
    let n0 = find_char(s, 0, s.len() as int, '\n');
    let n1 = find_char(s, n0 + 1, s.len() as int, '\n');
    if n0 >= s.len() || n1 >= s.len() {
        None
    } else {
        Some((n1 + 1, find_char(s, n1 + 1, s.len() as int, '\n')))
    }
}

/// Where `a..b` starts once leading white space is cut off.
pub open spec fn trim_start(s: Seq<char>, a: int, b: int) -> int
    decreases b - a,
{
    if a < b && is_white_space_spec(s[a]) {
        trim_start(s, a + 1, b)
    } else {
        a
    }
}

/// Where `a..b` ends once trailing white space is cut off.
pub open spec fn trim_end(s: Seq<char>, a: int, b: int) -> int
    decreases b - a,
{
    if a < b && is_white_space_spec(s[b - 1]) {
        trim_end(s, a, b - 1)
    } else {
        b
    }
}

/// `a..b` holds a brace.
pub open spec fn has_brace(s: Seq<char>, a: int, b: int) -> bool {
    exists|k: int| a <= k < b && (s[k] == '{' || s[k] == '}')
}

/// The fields of the comma-separated list `s[i..end]`, trimmed of white
/// space, that are not empty and hold no brace: the numbers of a scale line.
pub open spec fn scale_fields_from(s: Seq<char>, i: int, end: int) -> Seq<(int, int)>
    decreases end - i,
{
    let c = find_char(s, i, end, ',');
    let ts = trim_start(s, i, c);
    let te = trim_end(s, ts, c);
    let rest = if i <= c < end {
        scale_fields_from(s, c + 1, end)
    } else {
        seq![]
    };
    if ts < te && !has_brace(s, ts, te) {
        seq![(ts, te)] + rest
    } else {
        rest
    }
}

proof fn lemma_find_char_bounds(s: Seq<char>, i: int, end: int, c: char)
    requires
        i <= end,
    ensures
        i <= find_char(s, i, end, c) <= end,
    decreases end - i,
{
    if i < end && s[i] != c {
        lemma_find_char_bounds(s, i + 1, end, c);
    }
}

proof fn lemma_trim_start_bounds(s: Seq<char>, a: int, b: int)
    requires
        a <= b,
    ensures
        a <= trim_start(s, a, b) <= b,
        trim_start(s, a, b) < b ==> !is_white_space_spec(s[trim_start(s, a, b)]),
    decreases b - a,
{
    if a < b && is_white_space_spec(s[a]) {
        lemma_trim_start_bounds(s, a + 1, b);
    }
}

proof fn lemma_trim_end_bounds(s: Seq<char>, a: int, b: int)
    requires
        a <= b,
    ensures
        a <= trim_end(s, a, b) <= b,
        a < trim_end(s, a, b) ==> !is_white_space_spec(s[trim_end(s, a, b) - 1]),
    decreases b - a,
{
    if a < b && is_white_space_spec(s[b - 1]) {
        lemma_trim_end_bounds(s, a, b - 1);
    }
}

/// The scale fields of `s[i..end]` are not empty, neither start nor end
/// with white space, hold no brace, lie within `i..end`, and come in the
/// order of the text with at least a comma between two of them.
pub proof fn lemma_scale_fields_trimmed(s: Seq<char>, i: int, end: int)
    requires
        i <= end,
    ensures
        ({
            let fs = scale_fields_from(s, i, end);
            &&& forall|k: int|
                0 <= k < fs.len() ==> {
                    let f = #[trigger] fs[k];
                    &&& i <= f.0 < f.1 <= end
                    &&& !is_white_space_spec(s[f.0])
                    &&& !is_white_space_spec(s[f.1 - 1])
                    &&& !has_brace(s, f.0, f.1)
                }
            &&& forall|k: int| 0 <= k < fs.len() - 1 ==> (#[trigger] fs[k]).1 < fs[k + 1].0
        }),
    decreases end - i,
{
    let c = find_char(s, i, end, ',');
    lemma_find_char_bounds(s, i, end, ',');
    let ts = trim_start(s, i, c);
    lemma_trim_start_bounds(s, i, c);
    let te = trim_end(s, ts, c);
    lemma_trim_end_bounds(s, ts, c);
    let rest = if i <= c < end {
        scale_fields_from(s, c + 1, end)
    } else {
        seq![]
    };
    if i <= c < end {
        lemma_scale_fields_trimmed(s, c + 1, end);
    }
    let fs = scale_fields_from(s, i, end);
    if ts < te && !has_brace(s, ts, te) {
        assert(fs == seq![(ts, te)] + rest);
        assert forall|k: int| 0 <= k < fs.len() - 1 implies (#[trigger] fs[k]).1 < fs[k + 1].0 by {
            if k > 0 {
                assert(fs[k] == rest[k - 1]);
                assert(fs[k + 1] == rest[k]);
            } else {
                assert(fs[k + 1] == rest[0]);
            }
        }
        assert forall|k: int| 0 <= k < fs.len() implies {
            let f = #[trigger] fs[k];
            &&& i <= f.0 < f.1 <= end
            &&& !is_white_space_spec(s[f.0])
            &&& !is_white_space_spec(s[f.1 - 1])
            &&& !has_brace(s, f.0, f.1)
        } by {
            if k > 0 {
                assert(fs[k] == rest[k - 1]);
            }
        }
    } else {
        assert(fs == rest);
    }
}

/// `a..b` is one of the pieces that splitting `s[i..end]` at its commas
/// gives: it starts at `i` or right after a comma, holds no comma, and ends
/// at a comma or at `end`.
pub open spec fn comma_piece(s: Seq<char>, i: int, end: int, a: int, b: int) -> bool {
    &&& 0 <= i <= a <= b <= end <= s.len()
    &&& (a == i || s[a - 1] == ',')
    &&& forall|j: int| a <= j < b ==> #[trigger] s[j] != ','
    &&& (b == end || s[b] == ',')
}

proof fn lemma_find_char_first(s: Seq<char>, a: int, b: int, end: int, c: char)
    requires
        a <= b <= end,
        forall|j: int| a <= j < b ==> #[trigger] s[j] != c,
        b == end || s[b] == c,
    ensures
        find_char(s, a, end, c) == b,
    decreases b - a,
{
    if a < b {
        assert(s[a] != c);
        lemma_find_char_first(s, a + 1, b, end, c);
    }
}

proof fn lemma_find_char_before(s: Seq<char>, i: int, j: int, end: int, c: char)
    requires
        i <= j < end,
        s[j] == c,
    ensures
        find_char(s, i, end, c) <= j,
    decreases j - i,
{
    if i < j && s[i] != c {
        lemma_find_char_before(s, i + 1, j, end, c);
    }
}

proof fn lemma_trim_start_white(s: Seq<char>, a: int, b: int)
    requires
        a <= b,
    ensures
        all_white_space(s, a, trim_start(s, a, b)),
    decreases b - a,
{
    if a < b && is_white_space_spec(s[a]) {
        lemma_trim_start_white(s, a + 1, b);
        lemma_white_space_is_unicode(s[a]);
        assert forall|j: int| a <= j < trim_start(s, a, b) implies #[trigger] unicode_white_space(
            s[j],
        ) by {
            if j > a {
                assert(a + 1 <= j < trim_start(s, a + 1, b));
            }
        }
    }
}

proof fn lemma_trim_end_white(s: Seq<char>, a: int, b: int)
    requires
        a <= b,
    ensures
        all_white_space(s, trim_end(s, a, b), b),
    decreases b - a,
{
    if a < b && is_white_space_spec(s[b - 1]) {
        lemma_trim_end_white(s, a, b - 1);
        lemma_white_space_is_unicode(s[b - 1]);
        assert forall|j: int| trim_end(s, a, b) <= j < b implies #[trigger] unicode_white_space(
            s[j],
        ) by {
            if j < b - 1 {
                assert(trim_end(s, a, b - 1) <= j < b - 1);
            }
        }
    }
}

/// No piece of a scale line is lost: every piece of `s[i..end]` between
/// commas (the one after the last comma, and the only one when there is no
/// comma, included) that holds a character other than white space and no
/// brace is one of the scale fields, trimmed: the field lies inside the
/// piece with only white space around it.
pub proof fn lemma_scale_fields_keep_pieces(s: Seq<char>, i: int, end: int, a: int, b: int)
    requires
        comma_piece(s, i, end, a, b),
        exists|k: int| a <= k < b && !unicode_white_space(#[trigger] s[k]),
        forall|k: int| a <= k < b ==> #[trigger] s[k] != '{' && s[k] != '}',
    ensures
        exists|k: int|
            0 <= k < scale_fields_from(s, i, end).len() && {
                let f = #[trigger] scale_fields_from(s, i, end)[k];
                &&& a <= f.0 < f.1 <= b
                &&& all_white_space(s, a, f.0)
                &&& all_white_space(s, f.1, b)
            },
    decreases end - i,
{
    let fs = scale_fields_from(s, i, end);
    let c = find_char(s, i, end, ',');
    lemma_find_char_bounds(s, i, end, ',');
    let ts = trim_start(s, i, c);
    let te = trim_end(s, ts, c);
    lemma_trim_start_bounds(s, i, c);
    lemma_trim_end_bounds(s, ts, c);
    let rest = if i <= c < end {
        scale_fields_from(s, c + 1, end)
    } else {
        seq![]
    };
    if a == i {
        lemma_find_char_first(s, a, b, end, ',');
        assert(c == b);
        lemma_trim_start_white(s, a, b);
        let w = choose|k: int| a <= k < b && !unicode_white_space(#[trigger] s[k]);
        assert(ts < b) by {
            if ts >= b {
                assert(unicode_white_space(s[w]));
            }
        }
        lemma_white_space_is_unicode(s[ts]);
        lemma_trim_end_white(s, ts, b);
        assert(ts < te) by {
            if te <= ts {
                assert(unicode_white_space(s[ts]));
            }
        }
        assert(!has_brace(s, ts, te)) by {
            if has_brace(s, ts, te) {
                let k = choose|k: int| ts <= k < te && (s[k] == '{' || s[k] == '}');
                assert(s[k] != '{' && s[k] != '}');
            }
        }
        assert(fs == seq![(ts, te)] + rest);
        assert(fs[0] == (ts, te));
    } else {
        assert(s[a - 1] == ',');
        lemma_find_char_before(s, i, a - 1, end, ',');
        assert(i <= c < end);
        lemma_scale_fields_keep_pieces(s, c + 1, end, a, b);
        let k = choose|k: int|
            0 <= k < rest.len() && {
                let f = #[trigger] rest[k];
                &&& a <= f.0 < f.1 <= b
                &&& all_white_space(s, a, f.0)
                &&& all_white_space(s, f.1, b)
            };
        if ts < te && !has_brace(s, ts, te) {
            assert(fs == seq![(ts, te)] + rest);
            assert(fs[k + 1] == rest[k]);
        } else {
            assert(fs == rest);
        }
    }
}

proof fn lemma_find_char_stops(s: Seq<char>, i: int, end: int, c: char)
    requires
        i <= end,
    ensures
        forall|j: int| i <= j < find_char(s, i, end, c) ==> #[trigger] s[j] != c,
        find_char(s, i, end, c) == end || s[find_char(s, i, end, c)] == c,
    decreases end - i,
{
    if i < end && s[i] != c {
        lemma_find_char_stops(s, i + 1, end, c);
    }
}

/// Nothing but pieces of the scale line are scale fields: each field is a
/// piece of `s[i..end]` between commas, with only white space cut off
/// around it.
pub proof fn lemma_scale_fields_are_pieces(s: Seq<char>, i: int, end: int)
    requires
        0 <= i <= end <= s.len(),
    ensures
        forall|k: int|
            0 <= k < scale_fields_from(s, i, end).len() ==> {
                let f = #[trigger] scale_fields_from(s, i, end)[k];
                exists|a: int, b: int|
                    #![trigger comma_piece(s, i, end, a, b)]
                    comma_piece(s, i, end, a, b) && a <= f.0 < f.1 <= b && all_white_space(s, a, f.0)
                        && all_white_space(s, f.1, b)
            },
    decreases end - i,
{
    let fs = scale_fields_from(s, i, end);
    let c = find_char(s, i, end, ',');
    lemma_find_char_bounds(s, i, end, ',');
    lemma_find_char_stops(s, i, end, ',');
    let ts = trim_start(s, i, c);
    let te = trim_end(s, ts, c);
    lemma_trim_start_bounds(s, i, c);
    lemma_trim_end_bounds(s, ts, c);
    lemma_trim_start_white(s, i, c);
    lemma_trim_end_white(s, ts, c);
    let rest = if i <= c < end {
        scale_fields_from(s, c + 1, end)
    } else {
        seq![]
    };
    if i <= c < end {
        lemma_scale_fields_are_pieces(s, c + 1, end);
    }
    assert(comma_piece(s, i, end, i, c));
    assert forall|k: int| 0 <= k < rest.len() implies {
        let f = #[trigger] rest[k];
        exists|a: int, b: int|
            #![trigger comma_piece(s, i, end, a, b)]
            comma_piece(s, i, end, a, b) && a <= f.0 < f.1 <= b && all_white_space(s, a, f.0)
                && all_white_space(s, f.1, b)
    } by {
        let f = rest[k];
        let (a, b) = choose|a: int, b: int|
            #![trigger comma_piece(s, c + 1, end, a, b)]
            comma_piece(s, c + 1, end, a, b) && a <= f.0 < f.1 <= b && all_white_space(s, a, f.0)
                && all_white_space(s, f.1, b);
        assert(comma_piece(s, i, end, a, b));
    }
    if ts < te && !has_brace(s, ts, te) {
        assert(fs == seq![(ts, te)] + rest);
        assert forall|k: int| 0 <= k < fs.len() implies {
            let f = #[trigger] fs[k];
            exists|a: int, b: int|
                #![trigger comma_piece(s, i, end, a, b)]
                comma_piece(s, i, end, a, b) && a <= f.0 < f.1 <= b && all_white_space(s, a, f.0)
                    && all_white_space(s, f.1, b)
        } by {
            if k > 0 {
                assert(fs[k] == rest[k - 1]);
            }
        }
    } else {
        assert(fs == rest);
    }
}

/// `s[a..b]` holds no line feed.
pub open spec fn no_line_feed(s: Seq<char>, a: int, b: int) -> bool {
    forall|j: int| a <= j < b ==> #[trigger] s[j] != '\n'
}

/// The third line is the text after the second line feed, up to the next
/// line feed or the end; a text with fewer than two line feeds has none.
pub proof fn lemma_third_line_after_two_line_feeds(s: Seq<char>)
    ensures
        third_line(s) matches Some((a, b)) ==> {
            &&& exists|n0: int|
                0 <= n0 < a - 1 && s[n0] == '\n' && #[trigger] no_line_feed(s, 0, n0)
                    && no_line_feed(s, n0 + 1, a - 1)
            &&& 2 <= a <= b <= s.len()
            &&& s[a - 1] == '\n'
            &&& no_line_feed(s, a, b)
            &&& (b == s.len() || s[b] == '\n')
        },
        third_line(s) is None ==> forall|i: int, j: int|
            0 <= i < j < s.len() ==> !(#[trigger] s[i] == '\n' && #[trigger] s[j] == '\n'),
{
    let len = s.len() as int;
    let n0 = find_char(s, 0, len, '\n');
    lemma_find_char_bounds(s, 0, len, '\n');
    lemma_find_char_stops(s, 0, len, '\n');
    if n0 < len {
        let n1 = find_char(s, n0 + 1, len, '\n');
        lemma_find_char_bounds(s, n0 + 1, len, '\n');
        lemma_find_char_stops(s, n0 + 1, len, '\n');
        if n1 < len {
            let b = find_char(s, n1 + 1, len, '\n');
            lemma_find_char_bounds(s, n1 + 1, len, '\n');
            lemma_find_char_stops(s, n1 + 1, len, '\n');
            assert(no_line_feed(s, 0, n0));
            assert(no_line_feed(s, n0 + 1, n1));
            assert(no_line_feed(s, n1 + 1, b));
        } else {
            assert forall|i: int, j: int|
                0 <= i < j < s.len() implies !(#[trigger] s[i] == '\n' && #[trigger] s[j] == '\n') by {
                if s[i] == '\n' && s[j] == '\n' {
                    assert(!(i < n0));
                    assert(!(n0 + 1 <= j < n1));
                }
            }
        }
    } else {
        assert forall|i: int, j: int|
            0 <= i < j < s.len() implies !(#[trigger] s[i] == '\n' && #[trigger] s[j] == '\n') by {
            if s[i] == '\n' {
                assert(!(i < n0));
            }
        }
    }
}

/// A span as a pair of indices.
pub open spec fn span_view(sp: Span) -> (int, int) {
    (sp.start as int, sp.end as int)
}

fn find_char_at(s: &[char], i: usize, end: usize, c: char) -> (r: usize)
    requires
        i <= end <= s@.len(),
    ensures
        r == find_char(s@, i as int, end as int, c),
        i <= r <= end,
{
    let mut j = i;
    while j < end && s[j] != c
        invariant
            i <= j <= end <= s@.len(),
            find_char(s@, i as int, end as int, c) == find_char(s@, j as int, end as int, c),
        decreases end - j,
    {
        j += 1;
    }
    j
}

fn trim_start_at(s: &[char], a: usize, b: usize) -> (r: usize)
    requires
        a <= b <= s@.len(),
    ensures
        r == trim_start(s@, a as int, b as int),
        a <= r <= b,
{
    let mut j = a;
    while j < b && is_white_space(s[j])
        invariant
            a <= j <= b <= s@.len(),
            trim_start(s@, a as int, b as int) == trim_start(s@, j as int, b as int),
        decreases b - j,
    {
        j += 1;
    }
    j
}

fn trim_end_at(s: &[char], a: usize, b: usize) -> (r: usize)
    requires
        a <= b <= s@.len(),
    ensures
        r == trim_end(s@, a as int, b as int),
        a <= r <= b,
{
    let mut j = b;
    while a < j && is_white_space(s[j - 1])
        invariant
            a <= j <= b <= s@.len(),
            trim_end(s@, a as int, b as int) == trim_end(s@, a as int, j as int),
        decreases j - a,
    {
        j -= 1;
    }
    j
}

fn has_brace_at(s: &[char], a: usize, b: usize) -> (r: bool)
    requires
        a <= b <= s@.len(),
    ensures
        r == has_brace(s@, a as int, b as int),
{
    let mut j = a;
    while j < b
        invariant
            a <= j <= b <= s@.len(),
            forall|k: int| a <= k < j ==> s@[k] != '{' && s@[k] != '}',
        decreases b - j,
    {
        if s[j] == '{' || s[j] == '}' {
            return true;
        }
        j += 1;
    }
    false
}

/// The numbers of the scale of a coefficient table: the fields of the third
/// line of `s`, split at commas and trimmed of white space, leaving out the
/// empty ones and those that hold a brace. `None` when `s` has no third
/// line.
pub fn scale_fields(s: &[char]) -> (r: Option<Vec<Span>>)
    ensures
        match r {
            None => third_line(s@) is None,
            Some(v) => third_line(s@) matches Some(line) && v@.map_values(|sp: Span| span_view(sp))
                == scale_fields_from(s@, line.0, line.1),
        },
{
    let n = s.len();
    let n0 = find_char_at(s, 0, n, '\n');
    if n0 >= n {
        return None;
    }
    let n1 = find_char_at(s, n0 + 1, n, '\n');
    if n1 >= n {
        return None;
    }
    let start = n1 + 1;
    let end = find_char_at(s, start, n, '\n');

    let mut out: Vec<Span> = Vec::new();
    let mut i = start;
    loop
        invariant
            start <= i <= end <= n,
            n == s@.len(),
            third_line(s@) == Some((start as int, end as int)),
            scale_fields_from(s@, start as int, end as int) == out@.map_values(
                |sp: Span| span_view(sp),
            ) + scale_fields_from(s@, i as int, end as int),
        decreases end - i,
    {
        let c = find_char_at(s, i, end, ',');
        let ts = trim_start_at(s, i, c);
        let te = trim_end_at(s, ts, c);
        let ghost old_out = out@;
        if ts < te && !has_brace_at(s, ts, te) {
            out.push(Span { start: ts, end: te });
            assert(out@.map_values(|sp: Span| span_view(sp)) =~= old_out.map_values(
                |sp: Span| span_view(sp),
            ).push((ts as int, te as int)));
        }
        if c < end {
            i = c + 1;
        } else {
            assert(out@.map_values(|sp: Span| span_view(sp)) + seq![] =~= out@.map_values(
                |sp: Span| span_view(sp),
            ));
            return Some(out);
        }
    }
}

/// `s` with every occurrence of `pat` removed, the occurrences taken left to
/// right without overlapping, as `str::replace(pat, "")` does.
pub open spec fn remove_all(s: Seq<char>, pat: Seq<char>) -> Seq<char>
    decreases s.len(),
{
    if s.len() == 0 {
        s
    } else if 0 < pat.len() <= s.len() && s.subrange(0, pat.len() as int) == pat {
        remove_all(s.skip(pat.len() as int), pat)
    } else {
        seq![s[0]] + remove_all(s.skip(1), pat)
    }
}

/// `s[i..i + pat.len()]` is `pat`.
fn occurs_at(s: &[char], i: usize, pat: &[char]) -> (r: bool)
    requires
        i + pat@.len() <= s@.len(),
    ensures
        r == (s@.subrange(i as int, i + pat@.len()) == pat@),
{
    let n = s.len();
    let mut k: usize = 0;
    while k < pat.len()
        invariant
            n == s@.len(),
            i + pat@.len() <= n,
            k <= pat@.len(),
            forall|j: int| 0 <= j < k ==> s@[i + j] == pat@[j],
        decreases pat@.len() - k,
    {
        if s[i + k] != pat[k] {
            assert(s@.subrange(i as int, i + pat@.len())[k as int] != pat@[k as int]);
            return false;
        }
        k += 1;
    }
    assert(s@.subrange(i as int, i + pat@.len()) =~= pat@);
    true
}

/// `s` with every occurrence of `pat` removed.
pub fn remove_all_exec(s: &[char], pat: &[char]) -> (r: Vec<char>)
    ensures
        r@ == remove_all(s@, pat@),
{
    let n = s.len();
    let m = pat.len();
    let mut out: Vec<char> = Vec::new();
    let mut i: usize = 0;
    assert(s@.skip(0) =~= s@);
    assert(out@ + remove_all(s@, pat@) =~= remove_all(s@, pat@));
    while i < n
        invariant
            n == s@.len(),
            m == pat@.len(),
            i <= n,
            remove_all(s@, pat@) == out@ + remove_all(s@.skip(i as int), pat@),
        decreases n - i,
    {
        let ghost rest = s@.skip(i as int);
        if m > 0 && m <= n - i && occurs_at(s, i, pat) {
            assert(rest.subrange(0, m as int) =~= s@.subrange(i as int, i + m));
            assert(rest.skip(m as int) =~= s@.skip(i + m));
            i += m;
        } else {
            proof {
                assert(rest.len() > 0);
                if 0 < m <= rest.len() {
                    assert(rest.subrange(0, m as int) =~= s@.subrange(i as int, i + m));
                }
            }
            assert(rest.skip(1) =~= s@.skip(i + 1));
            assert(out@.push(s@[i as int]) + remove_all(rest.skip(1), pat@) =~= out@ + (seq![
                rest[0],
            ] + remove_all(rest.skip(1), pat@)));
            out.push(s[i]);
            i += 1;
        }
    }
    assert(s@.skip(n as int) =~= Seq::<char>::empty());
    assert(out@ + Seq::<char>::empty() =~= out@);
    out
}

/// The name a table's binary file gets from the name of the C source it was
/// read from: `rgbspectrum_` and `.c` taken out, `.bin` appended. `None`
/// for a name that does not end in `.c`.
pub fn table_file_name(name: &[char]) -> (r: Option<Vec<char>>)
    ensures
        match r {
            None => !(name@.len() >= 2 && name@.subrange(name@.len() - 2, name@.len() as int) == seq![
                '.',
                'c',
            ]),
            Some(v) => name@.len() >= 2 && name@.subrange(name@.len() - 2, name@.len() as int)
                == seq!['.', 'c'] && v@ == remove_all(
                remove_all(
                    name@,
                    seq!['r', 'g', 'b', 's', 'p', 'e', 'c', 't', 'r', 'u', 'm', '_'],
                ),
                seq!['.', 'c'],
            ) + seq!['.', 'b', 'i', 'n'],
        },
{
    let n = name.len();
    if n < 2 || name[n - 2] != '.' || name[n - 1] != 'c' {
        proof {
            if n >= 2 {
                let tail = name@.subrange(n - 2, n as int);
                if tail == seq!['.', 'c'] {
                    assert(tail[0] == '.' && tail[1] == 'c');
                }
            }
        }
        return None;
    }
    assert(name@.subrange(n - 2, n as int) =~= seq!['.', 'c']);
    let prefix = vec!['r', 'g', 'b', 's', 'p', 'e', 'c', 't', 'r', 'u', 'm', '_'];
    let suffix = vec!['.', 'c'];
    let stem = remove_all_exec(name, prefix.as_slice());
    let mut out = remove_all_exec(stem.as_slice(), suffix.as_slice());
    out.push('.');
    out.push('b');
    out.push('i');
    out.push('n');
    assert(prefix@ =~= seq!['r', 'g', 'b', 's', 'p', 'e', 'c', 't', 'r', 'u', 'm', '_']);
    assert(suffix@ =~= seq!['.', 'c']);
    Some(out)
}

} // verus!
