//! Regular expressions: what the library asks of the `regex` crate, and slicing
//! text at the byte offsets its matches report.

use vstd::prelude::*;
use vstd::string::StringSliceAdditionalSpecFns;
use vstd::utf8::{
    decode_utf8, encode_utf8, encode_utf8_decode_utf8, encode_utf8_valid_utf8, is_char_boundary,
    is_char_boundary_iff_not_is_continuation_byte, is_char_boundary_start_end_of_seq, valid_utf8,
    valid_utf8_split,
};
use crate::text::chars_of;

verus! {

/// A compiled regular expression.
#[verifier::external_type_specification]
#[verifier::external_body]
pub struct ExRegex(regex::Regex);

/// Why a regular expression did not compile.
#[verifier::external_type_specification]
#[verifier::external_body]
pub struct ExRegexError(regex::Error);

/// The pattern a compiled regular expression was built from.
pub uninterp spec fn regex_pattern(r: regex::Regex) -> Seq<char>;

/// Whether `regex::Regex::new` accepts `pattern` (the syntax it supports).
pub uninterp spec fn regex_compiles(pattern: Seq<char>) -> bool;

/// Whether `pattern` matches somewhere in `text`.
pub uninterp spec fn regex_finds(pattern: Seq<char>, text: Seq<char>) -> bool;

/// The text of the leftmost-first match of `pattern` in `text`, if any.
pub uninterp spec fn regex_first_match(pattern: Seq<char>, text: Seq<char>) -> Option<Seq<char>>;

/// The byte ranges of the successive non-overlapping leftmost-first matches of
/// `pattern` in `text`.
pub uninterp spec fn regex_match_ranges(pattern: Seq<char>, text: Seq<char>) -> Seq<(int, int)>;

/// The byte range of the leftmost-first match of `pattern` in `text` that a search
/// from byte `start` finds, if any.
pub uninterp spec fn regex_match_from(pattern: Seq<char>, text: Seq<char>, start: int) -> Option<(int, int)>;

/// The byte ranges of the groups of each successive non-overlapping match of
/// `pattern` in `text` (group 0 the whole match, `None` for a group that took no
/// part in it).
pub uninterp spec fn regex_capture_ranges(pattern: Seq<char>, text: Seq<char>) -> Seq<Seq<Option<(int, int)>>>;

/// The chars that bytes `start..end` of the UTF-8 text of `text` encode.
pub open spec fn byte_slice(text: Seq<char>, start: int, end: int) -> Seq<char> {
    decode_utf8(encode_utf8(text).subrange(start, end))
}

/// How many chars of `text` come before byte `b`.
pub open spec fn char_offset(text: Seq<char>, b: int) -> int {
    byte_slice(text, 0, b).len() as int
}

/// A byte offset that slices `text` without cutting a char.
pub open spec fn cuts_cleanly(text: Seq<char>, b: int) -> bool {
    0 <= b <= encode_utf8(text).len() && is_char_boundary(encode_utf8(text), b)
}

/// Byte ranges of `text` that each slice it cleanly and come one after another
/// without overlapping.
pub open spec fn ordered_ranges(text: Seq<char>, rs: Seq<(int, int)>) -> bool {
    &&& forall|k: int|
        0 <= k < rs.len() ==> rs[k].0 <= rs[k].1 && cuts_cleanly(text, #[trigger] rs[k].0)
            && cuts_cleanly(text, rs[k].1)
    &&& forall|k: int| 0 <= k < rs.len() - 1 ==> #[trigger] rs[k].1 <= rs[k + 1].0
}

/// Byte ranges as integers.
pub open spec fn int_ranges(rs: Seq<(usize, usize)>) -> Seq<(int, int)> {
    rs.map_values(|r: (usize, usize)| (r.0 as int, r.1 as int))
}

/// Group byte ranges as integers.
pub open spec fn int_groups(gs: Seq<Option<(usize, usize)>>) -> Seq<Option<(int, int)>> {
    gs.map_values(
        |g: Option<(usize, usize)>|
            match g {
                Some(m) => Some((m.0 as int, m.1 as int)),
                None => None,
            },
    )
}

/// The group byte ranges of each match, as integers.
pub open spec fn int_captures(cs: Seq<Vec<Option<(usize, usize)>>>) -> Seq<Seq<Option<(int, int)>>> {
    cs.map_values(|c: Vec<Option<(usize, usize)>>| int_groups(c@))
}

/// The byte range of group `g` of a capture.
pub open spec fn group_span(c: Seq<Option<(int, int)>>, g: int) -> (int, int) {
    c[g]->0
}

/// The whole match of a capture.
pub open spec fn whole_match(c: Seq<Option<(int, int)>>) -> (int, int) {
    c[0]->0
}

/// Captures whose groups each slice `text` cleanly, each with its whole match
/// (group 0), the whole matches coming one after another without overlapping.
pub open spec fn ordered_captures(text: Seq<char>, cs: Seq<Seq<Option<(int, int)>>>) -> bool {
    &&& forall|k: int| 0 <= k < cs.len() ==> (#[trigger] cs[k]).len() >= 1 && cs[k][0] is Some
    &&& forall|k: int, g: int|
        0 <= k < cs.len() && 0 <= g < cs[k].len() && (#[trigger] cs[k][g]) is Some ==> {
            let m = cs[k][g]->0;
            m.0 <= m.1 && cuts_cleanly(text, m.0) && cuts_cleanly(text, m.1)
        }
    &&& forall|k: int|
        0 <= k < cs.len() - 1 ==> whole_match(#[trigger] cs[k]).1 <= whole_match(cs[k + 1]).0
}

/// The texts of the successive matches of `pattern` in `text`.
pub open spec fn regex_matches(pattern: Seq<char>, text: Seq<char>) -> Seq<Seq<char>> {
    regex_match_ranges(pattern, text).map_values(|r: (int, int)| byte_slice(text, r.0, r.1))
}

/// Calls `regex::Regex::new`: whether it accepts a pattern depends on the pattern
/// alone, and a regular expression it returns was built from that pattern.
#[verifier::external_body]
pub(crate) fn compile_regex(pattern: &str) -> (r: Result<regex::Regex, regex::Error>)
    ensures
        r is Ok == regex_compiles(pattern@),
        r matches Ok(re) ==> regex_pattern(re) == pattern@,
{
    regex::Regex::new(pattern)
}

/// Calls `regex::Regex::is_match`.
#[verifier::external_body]
pub(crate) fn regex_is_match(re: &regex::Regex, text: &str) -> (b: bool)
    ensures
        b == regex_finds(regex_pattern(*re), text@),
{
    re.is_match(text)
}

/// Calls `regex::Regex::find` and takes the matched text.
#[verifier::external_body]
pub(crate) fn regex_find(re: &regex::Regex, text: &str) -> (r: Option<String>)
    ensures
        r.deep_view() == regex_first_match(regex_pattern(*re), text@),
{
    re.find(text).map(|m| m.as_str().to_string())
}

/// Calls `regex::Regex::find_iter` and takes each match's byte range. The crate
/// documents every offset it reports as a char boundary of the text, a match's
/// start as no later than its end, and the matches as successive and not
/// overlapping.
#[verifier::external_body]
pub(crate) fn find_ranges(re: &regex::Regex, text: &str) -> (r: Vec<(usize, usize)>)
    ensures
        int_ranges(r@) == regex_match_ranges(regex_pattern(*re), text@),
        ordered_ranges(text@, int_ranges(r@)),
{
    re.find_iter(text).map(|m| (m.start(), m.end())).collect()
}

/// Calls `regex::Regex::captures_iter` and takes the byte range of each group of
/// each match. The crate documents group 0 as always present (the whole match),
/// every offset as a char boundary of the text, a match's start as no later than its
/// end, and the matches as successive and not overlapping.
#[verifier::external_body]
pub(crate) fn find_captures(re: &regex::Regex, text: &str) -> (r: Vec<Vec<Option<(usize, usize)>>>)
    ensures
        int_captures(r@) == regex_capture_ranges(regex_pattern(*re), text@),
        ordered_captures(text@, int_captures(r@)),
{
    re.captures_iter(text).map(|c| c.iter().map(|g| g.map(|m| (m.start(), m.end()))).collect()).collect()
}

/// The group byte ranges of the leftmost-first match of `pattern` in `text`, if
/// any.
pub uninterp spec fn regex_first_capture(pattern: Seq<char>, text: Seq<char>) -> Option<Seq<Option<(int, int)>>>;

/// Calls `regex::Regex::captures` and takes the byte range of each group of the
/// match. The crate documents group 0 as always present (the whole match), every
/// offset as a char boundary of the text, and a match's start as no later than its
/// end.
#[verifier::external_body]
pub(crate) fn first_captures(re: &regex::Regex, text: &str) -> (r: Option<Vec<Option<(usize, usize)>>>)
    ensures
        match r {
            Some(c) => regex_first_capture(regex_pattern(*re), text@) == Some(int_groups(c@))
                && ordered_captures(text@, seq![int_groups(c@)]),
            None => regex_first_capture(regex_pattern(*re), text@) is None,
        },
{
    re.captures(text).map(|c| c.iter().map(|g| g.map(|m| (m.start(), m.end()))).collect())
}

/// Calls `regex::Regex::find_at`, which searches from byte `start` on (and panics
/// past the end of the text), and takes the match's byte range.
#[verifier::external_body]
pub(crate) fn find_from(re: &regex::Regex, text: &str, start: usize) -> (r: Option<(usize, usize)>)
    requires
        start <= text.spec_bytes().len(),
    ensures
        match r {
            Some(m) => regex_match_from(regex_pattern(*re), text@, start as int) == Some(
                (m.0 as int, m.1 as int),
            ),
            None => regex_match_from(regex_pattern(*re), text@, start as int) is None,
        },
        r matches Some(m) ==> start <= m.0 <= m.1 && cuts_cleanly(text@, m.0 as int)
            && cuts_cleanly(text@, m.1 as int),
{
    re.find_at(text, start).map(|m| (m.start(), m.end()))
}

/// A char boundary of a text is one of every prefix that reaches it.
proof fn lemma_boundary_in_prefix(text: Seq<char>, s: int, e: int)
    requires
        cuts_cleanly(text, s),
        cuts_cleanly(text, e),
        s <= e,
    ensures
        valid_utf8(encode_utf8(text).subrange(0, e)),
        is_char_boundary(encode_utf8(text).subrange(0, e), s),
{
    let b = encode_utf8(text);
    encode_utf8_valid_utf8(text);
    valid_utf8_split(b, e);
    let p = b.subrange(0, e);
    if s == e {
        is_char_boundary_start_end_of_seq(p);
        assert(p.len() == e);
    } else {
        is_char_boundary_iff_not_is_continuation_byte(b, s);
        is_char_boundary_iff_not_is_continuation_byte(p, s);
        assert(p[s] == b[s]);
    }
}

/// The chars of `text` between bytes `start` and `end`.
pub fn slice_bytes(text: &str, start: usize, end: usize) -> (r: String)
    requires
        start <= end,
        cuts_cleanly(text@, start as int),
        cuts_cleanly(text@, end as int),
    ensures
        r@ == byte_slice(text@, start as int, end as int),
{
    proof {
        lemma_boundary_in_prefix(text@, start as int, end as int);
    }
    let (head, _) = text.split_at(end);
    let (_, mid) = head.split_at(start);
    proof {
        encode_utf8_decode_utf8(mid@);
        assert(mid.spec_bytes() =~= encode_utf8(text@).subrange(start as int, end as int));
    }
    String::from_str(mid)
}

/// How many chars of `text` come before byte `b`.
pub fn char_offset_of(text: &str, b: usize) -> (r: usize)
    requires
        cuts_cleanly(text@, b as int),
    ensures
        r == char_offset(text@, b as int),
{
    let (head, _) = text.split_at(b);
    proof {
        encode_utf8_decode_utf8(head@);
    }
    let cs = chars_of(head);
    cs.len()
}

/// The texts of the successive matches of `re` in `text`.
pub(crate) fn find_all(re: &regex::Regex, text: &str) -> (r: Vec<String>)
    ensures
        r.deep_view() == regex_matches(regex_pattern(*re), text@),
{
    let rs = find_ranges(re, text);
    let ghost want = regex_matches(regex_pattern(*re), text@);
    let mut out: Vec<String> = Vec::new();
    let mut k: usize = 0;
    while k < rs.len()
        invariant
            int_ranges(rs@) == regex_match_ranges(regex_pattern(*re), text@),
            ordered_ranges(text@, int_ranges(rs@)),
            want == regex_matches(regex_pattern(*re), text@),
            k <= rs@.len(),
            out@.len() == k,
            forall|j: int| 0 <= j < k ==> #[trigger] out@[j]@ == want[j],
        decreases rs@.len() - k,
    {
        let (s, e) = rs[k];
        assert(int_ranges(rs@)[k as int] == (s as int, e as int));
        let piece = slice_bytes(text, s, e);
        out.push(piece);
        k += 1;
    }
    assert(out.deep_view() =~= want);
    out
}

} // verus!
