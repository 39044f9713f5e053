//! The plain text of an XHTML chapter: block elements become line breaks, ignored
//! elements (by tag or class) are left out, and the lines are trimmed with blank
//! ones dropped. Malformed markup falls back to a char-level scan of the tags.

use vstd::prelude::*;
use std::sync::Arc;
use crate::folio::{local_name, local_name_of, name_text};
use crate::text::{
    chars_eq, chars_eq_str, chars_of, from_utf8_lossy, joined, lowercase_str, push_char, replace_all,
    replaced, string_from_chars, to_lowercase, trim, trimmed_bounds, utf8_lossy,
    whitespace_char, is_whitespace,
};
use crate::xml::{XmlAttribute, XmlEvent, open_xml, read_all_events, terminal, xml_events};
use crate::normalization::resume_at;
use crate::pattern::{
    byte_slice, compile_regex, cuts_cleanly, find_captures, group_span, int_captures, int_groups,
    ordered_captures, regex_capture_ranges, regex_compiles, slice_bytes, whole_match,
};
use vstd::utf8::{encode_utf8, encode_utf8_valid_utf8, is_char_boundary_start_end_of_seq};

verus! {

// ---------------------------------------------------------------------------
// Words, lines and lists
// ---------------------------------------------------------------------------

/// The pieces of `s` between occurrences of `sep`, given the piece `cur` under way
/// (`str::split` on one char).
pub open spec fn pieces_from(s: Seq<char>, sep: char, cur: Seq<char>) -> Seq<Seq<char>>
    decreases s.len(),
{
    if s.len() == 0 {
        seq![cur]
    } else if s[0] == sep {
        seq![cur] + pieces_from(s.drop_first(), sep, Seq::empty())
    } else {
        pieces_from(s.drop_first(), sep, cur.push(s[0]))
    }
}

/// The maximal runs of non-whitespace chars in `s`, given the run `cur` under way
/// (`str::split_whitespace`).
pub open spec fn words_from(s: Seq<char>, cur: Seq<char>) -> Seq<Seq<char>>
    decreases s.len(),
{
    if s.len() == 0 {
        if cur.len() > 0 {
            seq![cur]
        } else {
            Seq::empty()
        }
    } else if !whitespace_char(s[0]) {
        words_from(s.drop_first(), cur.push(s[0]))
    } else if cur.len() > 0 {
        seq![cur] + words_from(s.drop_first(), Seq::empty())
    } else {
        words_from(s.drop_first(), Seq::empty())
    }
}

/// The whitespace-separated words of `s`.
pub open spec fn words(s: Seq<char>) -> Seq<Seq<char>> {
    words_from(s, Seq::empty())
}

/// `x` is one of `list`.
pub open spec fn listed(list: Seq<Seq<char>>, x: Seq<char>) -> bool {
    exists|j: int| 0 <= j < list.len() && list[j] == x
}

/// Some word of `s` is one of `list`.
pub open spec fn some_word_listed(s: Seq<char>, list: Seq<Seq<char>>) -> bool {
    exists|j: int| 0 <= j < words(s).len() && listed(list, #[trigger] words(s)[j])
}

/// The trimmed, non-blank lines among `ls`.
pub open spec fn nonblank(ls: Seq<Seq<char>>) -> Seq<Seq<char>>
    decreases ls.len(),
{
    if ls.len() == 0 {
        Seq::empty()
    } else if trim(ls[0]).len() > 0 {
        seq![trim(ls[0])] + nonblank(ls.drop_first())
    } else {
        nonblank(ls.drop_first())
    }
}

/// `ls` joined with newlines.
pub open spec fn join_lines(ls: Seq<Seq<char>>) -> Seq<char>
    decreases ls.len(),
{
    if ls.len() == 0 {
        Seq::empty()
    } else if ls.len() == 1 {
        ls[0]
    } else {
        join_lines(ls.drop_last()) + seq!['\n'] + ls.last()
    }
}

/// The lines of `s`, each trimmed, blank ones dropped, joined with newlines.
pub open spec fn tidy_lines(s: Seq<char>) -> Seq<char> {
    join_lines(nonblank(pieces_from(s, '\n', Seq::empty())))
}

fn pieces_of(cs: &Vec<char>, sep: char) -> (ps: Vec<Vec<char>>)
    ensures
        ps.deep_view() == pieces_from(cs@, sep, Seq::empty()),
{
    let mut ps: Vec<Vec<char>> = Vec::new();
    let mut cur: Vec<char> = Vec::new();
    let mut k: usize = 0;
    assert(cs@.skip(0) =~= cs@);
    while k < cs.len()
        invariant
            k <= cs@.len(),
            ps.deep_view() + pieces_from(cs@.skip(k as int), sep, cur@) == pieces_from(
                cs@,
                sep,
                Seq::empty(),
            ),
        decreases cs@.len() - k,
    {
        let ghost rest = cs@.skip(k as int);
        let ghost before = ps.deep_view();
        let ghost cur0 = cur@;
        assert(rest[0] == cs@[k as int]);
        assert(rest.drop_first() =~= cs@.skip(k + 1));
        if cs[k] == sep {
            assert(cur.deep_view() =~= cur@);
            ps.push(cur);
            assert(ps.deep_view() =~= before + seq![cur0]);
            cur = Vec::new();
            assert(ps.deep_view() + pieces_from(cs@.skip(k + 1), sep, cur@) =~= before
                + pieces_from(rest, sep, cur0));
        } else {
            cur.push(cs[k]);
        }
        k += 1;
    }
    let ghost before = ps.deep_view();
    assert(cs@.skip(k as int) =~= Seq::<char>::empty());
    assert(cur.deep_view() =~= cur@);
    ps.push(cur);
    assert(ps.deep_view() =~= before + seq![cur@]);
    ps
}

fn words_of(cs: &[char]) -> (ws: Vec<Vec<char>>)
    ensures
        ws.deep_view() == words(cs@),
{
    let mut ws: Vec<Vec<char>> = Vec::new();
    let mut cur: Vec<char> = Vec::new();
    let mut k: usize = 0;
    assert(cs@.skip(0) =~= cs@);
    while k < cs.len()
        invariant
            k <= cs@.len(),
            ws.deep_view() + words_from(cs@.skip(k as int), cur@) == words(cs@),
        decreases cs@.len() - k,
    {
        let ghost rest = cs@.skip(k as int);
        let ghost before = ws.deep_view();
        let ghost cur0 = cur@;
        assert(rest[0] == cs@[k as int]);
        assert(rest.drop_first() =~= cs@.skip(k + 1));
        if !is_whitespace(cs[k]) {
            cur.push(cs[k]);
        } else if cur.len() > 0 {
            assert(cur.deep_view() =~= cur@);
            ws.push(cur);
            assert(ws.deep_view() =~= before + seq![cur0]);
            cur = Vec::new();
            assert(ws.deep_view() + words_from(cs@.skip(k + 1), cur@) =~= before + words_from(
                rest,
                cur0,
            ));
        } else {
            assert(cur0 =~= Seq::<char>::empty());
        }
        k += 1;
    }
    let ghost before = ws.deep_view();
    assert(cs@.skip(k as int) =~= Seq::<char>::empty());
    if cur.len() > 0 {
        assert(cur.deep_view() =~= cur@);
        ws.push(cur);
        assert(ws.deep_view() =~= before + seq![cur@]);
    } else {
        assert(ws.deep_view() =~= before + Seq::<Seq<char>>::empty());
    }
    ws
}

pub(crate) fn is_listed(list: &Vec<String>, x: &[char]) -> (r: bool)
    ensures
        r == listed(list.deep_view(), x@),
{
    let mut j: usize = 0;
    while j < list.len()
        invariant
            j <= list@.len(),
            forall|i: int| 0 <= i < j ==> list.deep_view()[i] != x@,
        decreases list@.len() - j,
    {
        if chars_eq_str(x, list[j].as_str()) {
            assert(list.deep_view()[j as int] == x@);
            return true;
        }
        j += 1;
    }
    false
}

fn some_word_is_listed(s: &[char], list: &Vec<String>) -> (r: bool)
    ensures
        r == some_word_listed(s@, list.deep_view()),
{
    let ws = words_of(s);
    let mut j: usize = 0;
    while j < ws.len()
        invariant
            j <= ws@.len(),
            ws.deep_view() == words(s@),
            forall|i: int| 0 <= i < j ==> !listed(list.deep_view(), #[trigger] words(s@)[i]),
        decreases ws@.len() - j,
    {
        assert(ws.deep_view()[j as int] == ws@[j as int]@);
        if is_listed(list, ws[j].as_slice()) {
            return true;
        }
        j += 1;
    }
    false
}

/// The lines of `cs`, each trimmed, blank ones dropped, joined with newlines.
fn tidy_lines_of(cs: &Vec<char>) -> (r: String)
    ensures
        r@ == tidy_lines(cs@),
{
    let ls = pieces_of(cs, '\n');
    let mut out: Vec<char> = Vec::new();
    let mut kept: Ghost<Seq<Seq<char>>> = Ghost(Seq::empty());
    let mut any = false;
    let mut k: usize = 0;
    assert(ls.deep_view().skip(0) =~= ls.deep_view());
    while k < ls.len()
        invariant
            k <= ls@.len(),
            kept@ + nonblank(ls.deep_view().skip(k as int)) == nonblank(ls.deep_view()),
            out@ == join_lines(kept@),
            any == (kept@.len() > 0),
        decreases ls@.len() - k,
    {
        let ghost rest = ls.deep_view().skip(k as int);
        assert(rest[0] == ls@[k as int]@);
        assert(rest.drop_first() =~= ls.deep_view().skip(k + 1));
        let line = &ls[k];
        let (a, b) = trimmed_bounds(line.as_slice(), 0, line.len());
        assert(line@.subrange(0, line@.len() as int) =~= line@);
        if a < b {
            let ghost before = out@;
            if any {
                out.push('\n');
            }
            let mut j = a;
            let ghost mid = out@;
            while j < b
                invariant
                    a <= j <= b <= line@.len(),
                    out@ == mid + line@.subrange(a as int, j as int),
                decreases b - j,
            {
                out.push(line[j]);
                j += 1;
                assert(out@ =~= mid + line@.subrange(a as int, j as int));
            }
            let ghost t = line@.subrange(a as int, b as int);
            proof {
                let nk = kept@.push(t);
                assert(nk.drop_last() =~= kept@);
                if kept@.len() == 0 {
                    assert(out@ =~= t);
                } else {
                    assert(out@ =~= before + seq!['\n'] + t);
                }
                assert(kept@ + nonblank(rest) =~= nk + nonblank(rest.drop_first()));
                kept@ = nk;
            }
            any = true;
        } else {
            assert(nonblank(rest) == nonblank(rest.drop_first()));
        }
        k += 1;
    }
    assert(ls.deep_view().skip(k as int) =~= Seq::<Seq<char>>::empty());
    assert(kept@ + Seq::<Seq<char>>::empty() =~= kept@);
    string_from_chars(out.as_slice())
}

// ---------------------------------------------------------------------------
// Options and the extractor
// ---------------------------------------------------------------------------

/// Which elements to leave out: by lowercase tag name, or by a class they carry.
#[derive(Clone, Debug)]
pub struct EpubTextExtractionOptions {
    pub ignored_tags: Vec<String>,
    pub ignored_classes: Vec<String>,
}

/// Leave out `head`, `style`, `script`, `aside`, `table`, `footer` and `nav`
/// elements, and elements of class `footnote`, `aside`, `nav`, `toc`, `ad` or
/// `advertisement`.
pub fn default_epub_text_extraction_options() -> (o: EpubTextExtractionOptions)
    ensures
        o.ignored_tags.deep_view() == seq![
            "head"@,
            "style"@,
            "script"@,
            "aside"@,
            "table"@,
            "footer"@,
            "nav"@,
        ],
        o.ignored_classes.deep_view() == seq![
            "footnote"@,
            "aside"@,
            "nav"@,
            "toc"@,
            "ad"@,
            "advertisement"@,
        ],
{
    let mut tags: Vec<String> = Vec::new();
    tags.push(String::from_str("head"));
    tags.push(String::from_str("style"));
    tags.push(String::from_str("script"));
    tags.push(String::from_str("aside"));
    tags.push(String::from_str("table"));
    tags.push(String::from_str("footer"));
    tags.push(String::from_str("nav"));
    let mut classes: Vec<String> = Vec::new();
    classes.push(String::from_str("footnote"));
    classes.push(String::from_str("aside"));
    classes.push(String::from_str("nav"));
    classes.push(String::from_str("toc"));
    classes.push(String::from_str("ad"));
    classes.push(String::from_str("advertisement"));
    let o = EpubTextExtractionOptions { ignored_tags: tags, ignored_classes: classes };
    assert(o.ignored_tags.deep_view() =~= seq![
        "head"@,
        "style"@,
        "script"@,
        "aside"@,
        "table"@,
        "footer"@,
        "nav"@,
    ]);
    assert(o.ignored_classes.deep_view() =~= seq![
        "footnote"@,
        "aside"@,
        "nav"@,
        "toc"@,
        "ad"@,
        "advertisement"@,
    ]);
    o
}

/// Extracts the plain text of XHTML chapters.
#[derive(Debug)]
pub struct EpubTextExtractor;

/// The typographic entities that are replaced before XML parsing, in order.
pub open spec fn typographic_entities_replaced(s: Seq<char>) -> Seq<char> {
    let s1 = replaced(s, "&nbsp;"@, " "@);
    let s2 = replaced(s1, "&ldquo;"@, "\u{201c}"@);
    let s3 = replaced(s2, "&rdquo;"@, "\u{201d}"@);
    let s4 = replaced(s3, "&lsquo;"@, "\u{2018}"@);
    let s5 = replaced(s4, "&rsquo;"@, "\u{2019}"@);
    let s6 = replaced(s5, "&laquo;"@, "\u{ab}"@);
    let s7 = replaced(s6, "&raquo;"@, "\u{bb}"@);
    let s8 = replaced(s7, "&mdash;"@, "\u{2014}"@);
    let s9 = replaced(s8, "&ndash;"@, "\u{2013}"@);
    replaced(s9, "&hellip;"@, "\u{2026}"@)
}

/// The elements that start and end a line.
pub open spec fn block_element(l: Seq<char>) -> bool {
    ||| l == "p"@ ||| l == "div"@ ||| l == "h1"@ ||| l == "h2"@ ||| l == "h3"@ ||| l == "h4"@
    ||| l == "h5"@ ||| l == "h6"@ ||| l == "li"@ ||| l == "tr"@ ||| l == "br"@ ||| l == "aside"@
    ||| l == "table"@ ||| l == "section"@ ||| l == "article"@ ||| l == "header"@
    ||| l == "footer"@ ||| l == "nav"@
}

/// `out` ended by a line break, unless it is empty or already ends with one.
pub open spec fn break_line(out: Seq<char>) -> Seq<char> {
    if out.len() > 0 && out.last() != '\n' {
        out.push('\n')
    } else {
        out
    }
}

/// Some `class` attribute of the tag holds a listed class.
pub open spec fn class_listed(attrs: Seq<XmlAttribute>, classes: Seq<Seq<char>>) -> bool {
    exists|i: int|
        0 <= i < attrs.len() && name_text(#[trigger] attrs[i].key@) == "class"@
            && some_word_listed(utf8_lossy(attrs[i].value@), classes)
}

/// The text gathered so far and the ignored elements that are open, innermost last.
pub struct TextScan {
    pub out: Seq<char>,
    pub ignored: Seq<Seq<char>>,
}

/// One event of an XHTML chapter (read with empty tags expanded).
pub open spec fn text_step(s: TextScan, e: XmlEvent, tags: Seq<Seq<char>>, classes: Seq<Seq<char>>) -> TextScan {
    match e {
        XmlEvent::Start { name, attributes, empty } => if empty {
            s
        } else {
            let l = lowercase_str(local_name(name@));
            let out = if block_element(l) { break_line(s.out) } else { s.out };
            let ignore = listed(tags, l) || (classes.len() > 0 && class_listed(attributes@, classes));
            TextScan { out, ignored: if ignore { s.ignored.push(l) } else { s.ignored } }
        },
        XmlEvent::Text { text } => if s.ignored.len() == 0 {
            TextScan { out: s.out + text@, ..s }
        } else {
            s
        },
        XmlEvent::End { name } => {
            let l = lowercase_str(local_name(name@));
            let ignored = if s.ignored.len() > 0 && s.ignored.last() == l {
                s.ignored.drop_last()
            } else {
                s.ignored
            };
            TextScan { out: if block_element(l) { break_line(s.out) } else { s.out }, ignored }
        },
        _ => s,
    }
}

/// The scan after `evs` up to the end of input or an error, and whether no error was
/// met.
pub open spec fn text_fold(evs: Seq<XmlEvent>, s: TextScan, tags: Seq<Seq<char>>, classes: Seq<Seq<char>>) -> (TextScan, bool)
    decreases evs.len(),
{
    if evs.len() == 0 {
        (s, true)
    } else if evs[0] is Eof {
        (s, true)
    } else if evs[0] is Failure {
        (s, false)
    } else {
        text_fold(evs.drop_first(), text_step(s, evs[0], tags, classes), tags, classes)
    }
}

/// The raw text of a chapter's events, and whether they were read without error.
pub open spec fn text_of_events(evs: Seq<XmlEvent>, tags: Seq<Seq<char>>, classes: Seq<Seq<char>>) -> (Seq<char>, bool) {
    let (s, ok) = text_fold(evs, TextScan { out: Seq::empty(), ignored: Seq::empty() }, tags, classes);
    (s.out, ok)
}

// ---------------------------------------------------------------------------
// The fallback scan
// ---------------------------------------------------------------------------

/// The first index at or after `i` where `pat` occurs in `s`.
pub open spec fn find_from(s: Seq<char>, pat: Seq<char>, i: int) -> Option<int>
    decreases s.len() + 1 - i,
{
    if i < 0 || i + pat.len() > s.len() {
        None
    } else if s.subrange(i, i + pat.len()) == pat {
        Some(i)
    } else {
        find_from(s, pat, i + 1)
    }
}

/// The first index where `c` occurs in `s`.
pub open spec fn index_of_char(s: Seq<char>, c: char) -> Option<int> {
    find_from(s, seq![c], 0)
}

/// A `class="..."` (or single-quoted) value in the tag text `t` holds a listed class.
pub open spec fn quoted_class_listed(t: Seq<char>, classes: Seq<Seq<char>>) -> bool {
    match find_from(t, "class="@, 0) {
        Some(i) => {
            let after = t.skip(i + 6);
            if after.len() > 0 && (after[0] == '"' || after[0] == '\'') {
                let rest = after.drop_first();
                match index_of_char(rest, after[0]) {
                    Some(j) => some_word_listed(rest.take(j), classes),
                    None => false,
                }
            } else {
                false
            }
        },
        None => false,
    }
}

/// The tag name of the (lowercased) tag text `t`, and whether the element is left
/// out: its name is an ignored tag, or its quoted `class` value holds an ignored
/// class.
pub open spec fn tag_decision(t: Seq<char>, tags: Seq<Seq<char>>, classes: Seq<Seq<char>>) -> (Seq<char>, bool) {
    let ws = words(t);
    if ws.len() == 0 {
        (Seq::empty(), false)
    } else if listed(tags, ws[0]) {
        (ws[0], true)
    } else if classes.len() > 0 && quoted_class_listed(t, classes) {
        (ws[0], true)
    } else {
        (ws[0], false)
    }
}

/// The state of the fallback scan: text kept, inside a tag or not, the tag text
/// gathered, and the ignored elements that are open.
pub struct FallbackScan {
    pub out: Seq<char>,
    pub in_tag: bool,
    pub tag: Seq<char>,
    pub ignored: Seq<Seq<char>>,
}

/// The fallback scan after the char `c`. A `>` ends a tag (or re-reads the last tag
/// text when none is open): a closing tag closes the innermost ignored element of that
/// name, and an opening tag that is not self-closing may open an ignored element.
pub open spec fn fallback_step(s: FallbackScan, c: char, tags: Seq<Seq<char>>, classes: Seq<Seq<char>>) -> FallbackScan {
    if c == '<' {
        FallbackScan { in_tag: true, tag: Seq::empty(), ..s }
    } else if c == '>' {
        let t = lowercase_str(trim(s.tag));
        let ignored = if t.len() > 0 && t[0] == '/' {
            let n = trim(t.drop_first());
            if s.ignored.len() > 0 && s.ignored.last() == n {
                s.ignored.drop_last()
            } else {
                s.ignored
            }
        } else if !(t.len() > 0 && t.last() == '/') {
            let (name, ignore) = tag_decision(t, tags, classes);
            if ignore {
                s.ignored.push(name)
            } else {
                s.ignored
            }
        } else {
            s.ignored
        };
        FallbackScan { in_tag: false, ignored, ..s }
    } else if s.in_tag {
        FallbackScan { tag: s.tag.push(c), ..s }
    } else if s.ignored.len() == 0 {
        FallbackScan { out: s.out.push(c), ..s }
    } else {
        s
    }
}

/// The fallback scan over `cs`.
pub open spec fn fallback_fold(cs: Seq<char>, s: FallbackScan, tags: Seq<Seq<char>>, classes: Seq<Seq<char>>) -> FallbackScan
    decreases cs.len(),
{
    if cs.len() == 0 {
        s
    } else {
        fallback_fold(cs.drop_first(), fallback_step(s, cs[0], tags, classes), tags, classes)
    }
}

/// The text kept by the fallback scan of `x`.
pub open spec fn fallback_text(x: Seq<char>, tags: Seq<Seq<char>>, classes: Seq<Seq<char>>) -> Seq<char> {
    fallback_fold(
        x,
        FallbackScan { out: Seq::empty(), in_tag: false, tag: Seq::empty(), ignored: Seq::empty() },
        tags,
        classes,
    ).out
}

/// The named and markup entities that the fallback replaces first, in order.
pub open spec fn markup_entities_replaced(s: Seq<char>) -> Seq<char> {
    let s1 = replaced(s, "&amp;"@, "&"@);
    let s2 = replaced(s1, "&lt;"@, "<"@);
    let s3 = replaced(s2, "&gt;"@, ">"@);
    let s4 = replaced(s3, "&quot;"@, "\""@);
    let s5 = replaced(s4, "&apos;"@, "'"@);
    let s6 = replaced(s5, "&nbsp;"@, " "@);
    let s7 = replaced(s6, "&ldquo;"@, "\u{201c}"@);
    let s8 = replaced(s7, "&rdquo;"@, "\u{201d}"@);
    let s9 = replaced(s8, "&lsquo;"@, "\u{2018}"@);
    let s10 = replaced(s9, "&raquo;"@, "\u{bb}"@);
    let s11 = replaced(s10, "&rsquo;"@, "\u{2019}"@);
    let s12 = replaced(s11, "&laquo;"@, "\u{ab}"@);
    let s13 = replaced(s12, "&mdash;"@, "\u{2014}"@);
    let s14 = replaced(s13, "&ndash;"@, "\u{2013}"@);
    replaced(s14, "&hellip;"@, "\u{2026}"@)
}

/// The pattern of a numeric character reference: `&#`, an optional `x`, digits, `;`.
pub const NUMERIC_REFERENCE_PATTERN: &'static str = r"&#(x?)([0-9a-fA-F]+);";

/// The numeric character references of `s`: the group byte ranges of each match.
pub open spec fn reference_captures(s: Seq<char>) -> Seq<Seq<Option<(int, int)>>> {
    regex_capture_ranges(NUMERIC_REFERENCE_PATTERN@, s)
}

/// The text of group `g` of a capture, empty where the group took no part.
pub open spec fn group_text(s: Seq<char>, c: Seq<Option<(int, int)>>, g: int) -> Seq<char> {
    if 0 <= g < c.len() && c[g] is Some {
        byte_slice(s, group_span(c, g).0, group_span(c, g).1)
    } else {
        Seq::empty()
    }
}

/// What a numeric character reference is replaced by (see `numeric_reference`).
pub open spec fn reference_replacement(s: Seq<char>, c: Seq<Option<(int, int)>>) -> Seq<char> {
    numeric_reference(group_text(s, c, 1), group_text(s, c, 2), group_text(s, c, 0))
}

/// `s` up to the end of its first `n` references, each replaced.
pub open spec fn references_decoded_prefix(s: Seq<char>, cs: Seq<Seq<Option<(int, int)>>>, n: int) -> Seq<char>
    decreases n,
{
    if n <= 0 {
        Seq::empty()
    } else {
        references_decoded_prefix(s, cs, n - 1) + byte_slice(s, resume_at(cs, n - 1), whole_match(cs[n - 1]).0)
            + reference_replacement(s, cs[n - 1])
    }
}

/// `s` with each numeric character reference `&#NNN;` or `&#xHHH;` replaced by the
/// char it denotes (kept as it is where it denotes none), the text between them
/// kept; `s` itself if the reference pattern does not compile.
pub open spec fn numeric_references_decoded(s: Seq<char>) -> Seq<char> {
    if regex_compiles(NUMERIC_REFERENCE_PATTERN@) {
        let cs = reference_captures(s);
        references_decoded_prefix(s, cs, cs.len() as int) + byte_slice(
            s,
            resume_at(cs, cs.len() as int),
            encode_utf8(s).len() as int,
        )
    } else {
        s
    }
}

/// `s` with HTML entities decoded by `html_escape::decode_html_entities`.
pub uninterp spec fn html_entities_decoded(s: Seq<char>) -> Seq<char>;

/// The value of `digits` in `radix` (`u32::from_str_radix`): an optional `+`, then
/// at least one digit of the radix, with a value that fits in a `u32`.
pub open spec fn radix_value(digits: Seq<char>, radix: u32) -> Option<u32> {
    let ds = sign_stripped(digits);
    if ds.len() > 0 && all_radix_digits(ds, radix) && digits_value(ds, radix) <= u32::MAX {
        Some(digits_value(ds, radix) as u32)
    } else {
        None
    }
}

/// `digits` without a leading `+`.
pub open spec fn sign_stripped(digits: Seq<char>) -> Seq<char> {
    if digits.len() > 0 && digits[0] == '+' {
        digits.drop_first()
    } else {
        digits
    }
}

/// Every char of `ds` is a digit of `radix`.
pub open spec fn all_radix_digits(ds: Seq<char>, radix: u32) -> bool {
    forall|i: int| 0 <= i < ds.len() ==> #[trigger] digit_value(ds[i], radix) is Some
}

/// The value of one digit in `radix` (10 or 16).
pub open spec fn digit_value(c: char, radix: u32) -> Option<int> {
    if '0' <= c <= '9' && (c as int) - ('0' as int) < radix {
        Some((c as int) - ('0' as int))
    } else if radix == 16 && 'a' <= c <= 'f' {
        Some((c as int) - ('a' as int) + 10)
    } else if radix == 16 && 'A' <= c <= 'F' {
        Some((c as int) - ('A' as int) + 10)
    } else {
        None
    }
}

/// The value of a run of digits in `radix`.
pub open spec fn digits_value(ds: Seq<char>, radix: u32) -> int
    decreases ds.len(),
{
    if ds.len() == 0 {
        0
    } else {
        digits_value(ds.drop_last(), radix) * radix + match digit_value(ds.last(), radix) {
            Some(v) => v,
            None => 0,
        }
    }
}

/// A Unicode scalar value: not above `0x10FFFF` and not a surrogate.
pub open spec fn scalar_value(code: u32) -> bool {
    code < 0xD800 || (0xE000 <= code && code <= 0x10FFFF)
}

/// What a numeric character reference stands for: the char of its code when the
/// digits parse (hex after `x`, decimal otherwise) to a Unicode scalar value, else the
/// reference itself.
pub open spec fn numeric_reference(x: Seq<char>, digits: Seq<char>, whole: Seq<char>) -> Seq<char> {
    let radix: u32 = if x == "x"@ { 16 } else { 10 };
    match radix_value(digits, radix) {
        Some(code) => if scalar_value(code) {
            seq![code as char]
        } else {
            whole
        },
        None => whole,
    }
}

/// Calls `char::from_u32`, which gives the char of a Unicode scalar value.
#[verifier::external_body]
pub(crate) fn char_from_u32(code: u32) -> (c: Option<char>)
    ensures
        c is Some <==> scalar_value(code),
        c matches Some(ch) ==> ch == code as char,
{
    char::from_u32(code)
}

fn digit_of(c: char, radix: u32) -> (r: Option<u32>)
    requires
        radix == 10 || radix == 16,
    ensures
        r matches Some(v) ==> digit_value(c, radix) == Some(v as int) && v < radix,
        r is None ==> digit_value(c, radix) is None,
{
    if '0' <= c && c <= '9' {
        let v = (c as u32) - ('0' as u32);
        if v < radix {
            Some(v)
        } else {
            None
        }
    } else if radix == 16 && 'a' <= c && c <= 'f' {
        Some((c as u32) - ('a' as u32) + 10)
    } else if radix == 16 && 'A' <= c && c <= 'F' {
        Some((c as u32) - ('A' as u32) + 10)
    } else {
        None
    }
}

fn parse_radix(digits: &[char], radix: u32) -> (r: Option<u32>)
    requires
        radix == 10 || radix == 16,
    ensures
        r matches Some(v) ==> radix_value(digits@, radix) == Some(v),
        r is None ==> radix_value(digits@, radix) is None,
{
    let start: usize = if digits.len() > 0 && digits[0] == '+' { 1 } else { 0 };
    let ghost ds = sign_stripped(digits@);
    assert(ds =~= digits@.skip(start as int));
    if start >= digits.len() {
        return None;
    }
    let mut acc: u64 = 0;
    let mut k = start;
    while k < digits.len()
        invariant
            start <= k <= digits@.len(),
            ds == digits@.skip(start as int),
            ds == sign_stripped(digits@),
            radix == 10 || radix == 16,
            acc as int == digits_value(ds.take(k - start), radix),
            acc <= u32::MAX,
            forall|i: int| 0 <= i < k - start ==> #[trigger] digit_value(ds[i], radix) is Some,
        decreases digits@.len() - k,
    {
        let ghost t = ds.take(k - start + 1);
        assert(t.drop_last() =~= ds.take(k - start));
        assert(t.last() == digits@[k as int]);
        match digit_of(digits[k], radix) {
            Some(v) => {
                assert(acc * (radix as u64) <= 0xFFFF_FFFFu64 * 16) by (nonlinear_arith)
                    requires
                        acc <= 0xFFFF_FFFFu64,
                        radix <= 16,
                ;
                let next = acc * (radix as u64) + (v as u64);
                assert(next as int == digits_value(t, radix));
                if next > 0xFFFF_FFFF {
                    proof {
                        lemma_digits_value_grows(ds, radix, k - start + 1);
                        assert(digits_value(ds, radix) > u32::MAX);
                    }
                    return None;
                }
                acc = next;
            },
            None => {
                assert(ds[(k - start) as int] == digits@[k as int]);
                assert(digit_value(ds[(k - start) as int], radix) is None);
                assert(!all_radix_digits(ds, radix));
                return None;
            },
        }
        k += 1;
    }
    assert(ds.take(k - start) =~= ds);
    Some(acc as u32)
}

proof fn lemma_digits_value_grows(ds: Seq<char>, radix: u32, n: int)
    requires
        radix == 10 || radix == 16,
        0 <= n <= ds.len(),
    ensures
        digits_value(ds.take(n), radix) <= digits_value(ds, radix),
    decreases ds.len() - n,
{
    if n < ds.len() {
        lemma_digits_value_grows(ds, radix, n + 1);
        let t = ds.take(n + 1);
        assert(t.drop_last() =~= ds.take(n));
        assert(digits_value(ds.take(n), radix) * radix <= digits_value(ds.take(n), radix) * radix + (
        match digit_value(t.last(), radix) {
            Some(v) => v,
            None => 0,
        })) by {
            let lastv = match digit_value(t.last(), radix) {
                Some(v) => v,
                None => 0,
            };
            assert(lastv >= 0);
        }
        lemma_digits_value_nonneg(ds.take(n), radix);
        assert(digits_value(ds.take(n), radix) <= digits_value(ds.take(n), radix) * radix) by (nonlinear_arith)
            requires
                digits_value(ds.take(n), radix) >= 0,
                radix >= 1,
        ;
    } else {
        assert(ds.take(n) =~= ds);
    }
}

proof fn lemma_digits_value_nonneg(ds: Seq<char>, radix: u32)
    requires
        radix == 10 || radix == 16,
    ensures
        digits_value(ds, radix) >= 0,
    decreases ds.len(),
{
    if ds.len() > 0 {
        lemma_digits_value_nonneg(ds.drop_last(), radix);
        assert(digits_value(ds.drop_last(), radix) * radix >= 0) by (nonlinear_arith)
            requires
                digits_value(ds.drop_last(), radix) >= 0,
                radix >= 1,
        ;
    }
}

/// What the numeric character reference `whole`, with `x` for hex and the given
/// digits, stands for: its char, or the reference itself when the digits do not name
/// a Unicode scalar value.
pub fn numeric_reference_text(x: &str, digits: &str, whole: &str) -> (r: String)
    ensures
        r@ == numeric_reference(x@, digits@, whole@),
{
    let xc = chars_of(x);
    let radix: u32 = if chars_eq_str(xc.as_slice(), "x") { 16 } else { 10 };
    let dc = chars_of(digits);
    match parse_radix(dc.as_slice(), radix) {
        Some(code) => match char_from_u32(code) {
            Some(c) => {
                let mut s = String::new();
                push_char(&mut s, c);
                assert(s@ =~= seq![code as char]);
                s
            },
            None => String::from_str(whole),
        },
        None => String::from_str(whole),
    }
}

/// `s` with its numeric character references decoded (see
/// `numeric_references_decoded`).
fn replace_numeric_references(s: &str) -> (r: String)
    ensures
        r@ == numeric_references_decoded(s@),
{
    let re = match compile_regex(NUMERIC_REFERENCE_PATTERN) {
        Ok(re) => re,
        Err(_) => return String::from_str(s),
    };
    let caps = find_captures(&re, s);
    let ghost cs = int_captures(caps@);
    proof {
        encode_utf8_valid_utf8(s@);
        is_char_boundary_start_end_of_seq(encode_utf8(s@));
    }
    let mut out = String::new();
    let mut current: usize = 0;
    let mut k: usize = 0;
    while k < caps.len()
        invariant
            regex_compiles(NUMERIC_REFERENCE_PATTERN@),
            cs == int_captures(caps@),
            cs == reference_captures(s@),
            ordered_captures(s@, cs),
            k <= caps@.len(),
            current == resume_at(cs, k as int),
            cuts_cleanly(s@, current as int),
            out@ == references_decoded_prefix(s@, cs, k as int),
        decreases caps@.len() - k,
    {
        let c = &caps[k];
        assert(cs[k as int] == int_groups(c@));
        let (ms, me) = match c[0] {
            Some(g) => g,
            None => {
                assert(cs[k as int][0] is Some);
                return String::new();
            },
        };
        assert(cs[k as int][0] == Some((ms as int, me as int)));
        assert(k == 0 || whole_match(cs[k - 1]).1 <= whole_match(cs[k as int]).0);
        let x = if c.len() > 1 {
            match c[1] {
                Some((a, b)) => {
                    assert(cs[k as int][1] == Some((a as int, b as int)));
                    slice_bytes(s, a, b)
                },
                None => String::new(),
            }
        } else {
            String::new()
        };
        let digits = if c.len() > 2 {
            match c[2] {
                Some((a, b)) => {
                    assert(cs[k as int][2] == Some((a as int, b as int)));
                    slice_bytes(s, a, b)
                },
                None => String::new(),
            }
        } else {
            String::new()
        };
        assert(x@ == group_text(s@, cs[k as int], 1));
        assert(digits@ == group_text(s@, cs[k as int], 2));
        let whole = slice_bytes(s, ms, me);
        let gap = slice_bytes(s, current, ms);
        let rep = numeric_reference_text(x.as_str(), digits.as_str(), whole.as_str());
        let with_gap = joined(out.as_str(), gap.as_str());
        out = joined(with_gap.as_str(), rep.as_str());
        current = me;
        k += 1;
    }
    let tail = slice_bytes(s, current, s.as_bytes().len());
    joined(out.as_str(), tail.as_str())
}

/// Calls `html_escape::decode_html_entities`, which decodes HTML character entities.
#[verifier::external_body]
fn html_escape_decode(s: &str) -> (r: String)
    ensures
        r@ == html_entities_decoded(s@),
{
    html_escape::decode_html_entities(s).into_owned()
}

/// Entities decoded for the fallback: the markup and typographic entities, then
/// numeric character references, then any other HTML entity.
pub open spec fn entities_decoded(s: Seq<char>) -> Seq<char> {
    html_entities_decoded(numeric_references_decoded(markup_entities_replaced(s)))
}

/// What the fallback yields for `x`: the text outside tags and ignored elements,
/// entities decoded, lines trimmed, blank lines dropped.
pub open spec fn fallback_result(x: Seq<char>, tags: Seq<Seq<char>>, classes: Seq<Seq<char>>) -> Seq<char> {
    tidy_lines(entities_decoded(fallback_text(x, tags, classes)))
}

/// What `extract_plain_text` yields for the chapter `x`.
pub open spec fn extracted_text(x: Seq<char>, tags: Seq<Seq<char>>, classes: Seq<Seq<char>>) -> Seq<char> {
    let (raw, ok) = text_of_events(xml_events(typographic_entities_replaced(x), false, true), tags, classes);
    if ok {
        tidy_lines(raw)
    } else {
        fallback_result(x, tags, classes)
    }
}

fn is_block_element(l: &[char]) -> (r: bool)
    ensures
        r == block_element(l@),
{
    chars_eq_str(l, "p") || chars_eq_str(l, "div") || chars_eq_str(l, "h1") || chars_eq_str(l, "h2")
        || chars_eq_str(l, "h3") || chars_eq_str(l, "h4") || chars_eq_str(l, "h5") || chars_eq_str(
        l,
        "h6",
    ) || chars_eq_str(l, "li") || chars_eq_str(l, "tr") || chars_eq_str(l, "br") || chars_eq_str(
        l,
        "aside",
    ) || chars_eq_str(l, "table") || chars_eq_str(l, "section") || chars_eq_str(l, "article")
        || chars_eq_str(l, "header") || chars_eq_str(l, "footer") || chars_eq_str(l, "nav")
}

fn break_line_in(out: &mut Vec<char>)
    ensures
        final(out)@ == break_line(old(out)@),
{
    if out.len() > 0 && out[out.len() - 1] != '\n' {
        out.push('\n');
    }
}

fn class_is_listed(attrs: &Vec<XmlAttribute>, classes: &Vec<String>) -> (r: bool)
    ensures
        r == class_listed(attrs@, classes.deep_view()),
{
    let mut i: usize = 0;
    while i < attrs.len()
        invariant
            i <= attrs@.len(),
            forall|j: int|
                0 <= j < i ==> !(name_text(#[trigger] attrs@[j].key@) == "class"@ && some_word_listed(
                    utf8_lossy(attrs@[j].value@),
                    classes.deep_view(),
                )),
        decreases attrs@.len() - i,
    {
        let a = &attrs[i];
        let key = crate::folio::text_of_name(a.key.as_slice());
        if chars_eq_str(key.as_slice(), "class") {
            let v = from_utf8_lossy(a.value.as_slice());
            let vc = chars_of(v.as_str());
            if some_word_is_listed(vc.as_slice(), classes) {
                return true;
            }
        }
        i += 1;
    }
    false
}

fn append_str(dst: &mut Vec<char>, src: &str)
    ensures
        final(dst)@ == old(dst)@ + src@,
{
    let tc = chars_of(src);
    let ghost before = dst@;
    let mut k: usize = 0;
    while k < tc.len()
        invariant
            k <= tc@.len(),
            dst@ == before + tc@.take(k as int),
        decreases tc@.len() - k,
    {
        dst.push(tc[k]);
        k += 1;
        assert(dst@ =~= before + tc@.take(k as int));
    }
    assert(tc@.take(k as int) =~= src@);
}

spec fn ignored_view(v: Seq<Vec<char>>) -> Seq<Seq<char>> {
    Seq::new(v.len(), |i: int| v[i]@)
}

/// The raw text of a chapter's events (before lines are tidied), and whether they
/// were read without an XML error.
pub fn text_from_events(events: &Vec<XmlEvent>, tags: &Vec<String>, classes: &Vec<String>) -> (r: (
    Vec<char>,
    bool,
))
    ensures
        (r.0@, r.1) == text_of_events(events@, tags.deep_view(), classes.deep_view()),
{
    let ghost tv = tags.deep_view();
    let ghost cv = classes.deep_view();
    let mut out: Vec<char> = Vec::new();
    let mut ignored: Vec<Vec<char>> = Vec::new();
    let mut k: usize = 0;
    assert(events@.skip(0) =~= events@);
    assert(ignored_view(ignored@) =~= Seq::<Seq<char>>::empty());
    while k < events.len()
        invariant
            k <= events@.len(),
            tv == tags.deep_view(),
            cv == classes.deep_view(),
            text_fold(events@, TextScan { out: Seq::empty(), ignored: Seq::empty() }, tv, cv)
                == text_fold(
                events@.skip(k as int),
                TextScan { out: out@, ignored: ignored_view(ignored@) },
                tv,
                cv,
            ),
        decreases events@.len() - k,
    {
        let ghost rest = events@.skip(k as int);
        assert(rest[0] == events@[k as int]);
        assert(rest.drop_first() =~= events@.skip(k + 1));
        let ghost before = TextScan { out: out@, ignored: ignored_view(ignored@) };
        let ghost after = text_step(before, events@[k as int], tv, cv);
        match &events[k] {
            XmlEvent::Eof => {
                return (out, true);
            },
            XmlEvent::Failure => {
                return (out, false);
            },
            XmlEvent::Start { name, attributes, empty } => {
                if !*empty {
                    let local = local_name_of(name.as_slice());
                    let lower = to_lowercase(local.as_slice());
                    if is_block_element(lower.as_slice()) {
                        break_line_in(&mut out);
                    }
                    let ignore = is_listed(tags, lower.as_slice()) || (classes.len() > 0
                        && class_is_listed(attributes, classes));
                    if ignore {
                        let ghost l = lower@;
                        ignored.push(lower);
                        assert(ignored_view(ignored@) =~= before.ignored.push(l));
                    }
                }
            },
            XmlEvent::Text { text } => {
                if ignored.len() == 0 {
                    append_str(&mut out, text.as_str());
                }
            },
            XmlEvent::End { name } => {
                let local = local_name_of(name.as_slice());
                let lower = to_lowercase(local.as_slice());
                if ignored.len() > 0 && chars_eq(ignored[ignored.len() - 1].as_slice(), lower.as_slice()) {
                    ignored.pop();
                    assert(ignored_view(ignored@) =~= before.ignored.drop_last());
                }
                if is_block_element(lower.as_slice()) {
                    break_line_in(&mut out);
                }
            },
            XmlEvent::Other => {},
        }
        assert(TextScan { out: out@, ignored: ignored_view(ignored@) } == after);
        k += 1;
    }
    assert(events@.skip(k as int) =~= Seq::<XmlEvent>::empty());
    (out, true)
}

/// The first index at or after `from` where `pat` occurs in `cs`.
pub(crate) fn find_in(cs: &[char], pat: &[char], from: usize) -> (r: Option<usize>)
    ensures
        r matches Some(i) ==> find_from(cs@, pat@, from as int) == Some(i as int) && i + pat@.len()
            <= cs@.len(),
        r is None ==> find_from(cs@, pat@, from as int) is None,
{
    let n = cs.len();
    if pat.len() > n {
        assert(find_from(cs@, pat@, from as int) is None);
        return None;
    }
    let mut i = from;
    while i <= n - pat.len()
        invariant
            n == cs@.len(),
            pat@.len() <= n,
            from <= i,
            find_from(cs@, pat@, from as int) == find_from(cs@, pat@, i as int),
        decreases n - i,
    {
        let mut j: usize = 0;
        let mut same = true;
        while j < pat.len()
            invariant
                j <= pat@.len(),
                i + pat@.len() <= n == cs@.len(),
                same == (forall|q: int| 0 <= q < j ==> cs@[i + q] == pat@[q]),
            decreases pat@.len() - j,
        {
            if cs[i + j] != pat[j] {
                same = false;
            }
            j += 1;
        }
        if same {
            assert(cs@.subrange(i as int, i + pat@.len()) =~= pat@);
            return Some(i);
        }
        assert(cs@.subrange(i as int, i + pat@.len()) != pat@) by {
            let q = choose|q: int| 0 <= q < pat@.len() && cs@[i + q] != pat@[q];
            assert(cs@.subrange(i as int, i + pat@.len())[q] == cs@[i + q]);
        }
        if i == n - pat.len() {
            assert(find_from(cs@, pat@, i + 1) is None);
            return None;
        }
        i += 1;
    }
    None
}

fn quoted_class_is_listed(t: &[char], classes: &Vec<String>) -> (r: bool)
    ensures
        r == quoted_class_listed(t@, classes.deep_view()),
{
    let pat = chars_of("class=");
    proof {
        reveal_strlit("class=");
    }
    assert(pat@.len() == 6);
    let tn = t.len();
    match find_in(t, pat.as_slice(), 0) {
        Some(i) => {
            let after = vstd::slice::slice_subrange(t, i + 6, tn);
            assert(after@ =~= t@.skip(i + 6));
            if after.len() > 0 && (after[0] == '"' || after[0] == '\'') {
                let q = after[0];
                let rest = vstd::slice::slice_subrange(after, 1, after.len());
                assert(rest@ =~= after@.drop_first());
                let qs: [char; 1] = [q];
                let qv = vstd::slice::slice_to_vec(&qs);
                assert(qv@ =~= seq![q]);
                match find_in(rest, qv.as_slice(), 0) {
                    Some(j) => {
                        let inner = vstd::slice::slice_subrange(rest, 0, j);
                        assert(inner@ =~= rest@.take(j as int));
                        some_word_is_listed(inner, classes)
                    },
                    None => false,
                }
            } else {
                false
            }
        },
        None => false,
    }
}

impl EpubTextExtractor {
    /// A shared extractor.
    pub fn new() -> (e: Arc<Self>) {
        Arc::new(EpubTextExtractor)
    }

    /// The plain text of an XHTML chapter.
    ///
    /// Typographic entities are replaced and the chapter is read as XML with empty
    /// tags expanded. Block elements start and end lines; elements with an ignored
    /// tag name, or a `class` attribute holding an ignored class, are left out with
    /// everything inside them. Lines are trimmed and blank ones dropped. When the XML
    /// is malformed, the chapter is scanned again by `plain_text_fallback`.
    pub fn extract_plain_text(&self, xhtml: String, options: EpubTextExtractionOptions) -> (r: String)
        ensures
            r@ == extracted_text(
                xhtml@,
                options.ignored_tags.deep_view(),
                options.ignored_classes.deep_view(),
            ),
    {
        let pre = replace_typographic_entities(xhtml.as_str());
        let mut reader = open_xml(pre.as_str(), false, true);
        let events = read_all_events(&mut reader);
        let (raw, ok) = text_from_events(&events, &options.ignored_tags, &options.ignored_classes);
        if ok {
            tidy_lines_of(&raw)
        } else {
            self.plain_text_fallback(xhtml.as_str(), &options, &options.ignored_classes)
        }
    }

    /// The plain text of markup that is not well-formed XML, by a char-level scan:
    /// text inside `<...>` is tag text, text outside tags and ignored elements is
    /// kept; entities are then decoded, lines trimmed and blank lines dropped.
    pub fn plain_text_fallback(
        &self,
        xhtml: &str,
        options: &EpubTextExtractionOptions,
        ignored_classes: &Vec<String>,
    ) -> (r: String)
        ensures
            r@ == fallback_result(xhtml@, options.ignored_tags.deep_view(), ignored_classes.deep_view()),
    {
        let ghost tv = options.ignored_tags.deep_view();
        let ghost cv = ignored_classes.deep_view();
        let cs = chars_of(xhtml);
        let mut out: Vec<char> = Vec::new();
        let mut in_tag = false;
        let mut tag: Vec<char> = Vec::new();
        let mut ignored: Vec<Vec<char>> = Vec::new();
        let ghost init = FallbackScan {
            out: Seq::empty(),
            in_tag: false,
            tag: Seq::empty(),
            ignored: Seq::empty(),
        };
        assert(ignored_view(ignored@) =~= Seq::<Seq<char>>::empty());
        let mut k: usize = 0;
        assert(cs@.skip(0) =~= cs@);
        while k < cs.len()
            invariant
                k <= cs@.len(),
                cs@ == xhtml@,
                tv == options.ignored_tags.deep_view(),
                cv == ignored_classes.deep_view(),
                fallback_fold(cs@, init, tv, cv) == fallback_fold(
                    cs@.skip(k as int),
                    FallbackScan { out: out@, in_tag, tag: tag@, ignored: ignored_view(ignored@) },
                    tv,
                    cv,
                ),
            decreases cs@.len() - k,
        {
            let ghost rest = cs@.skip(k as int);
            assert(rest[0] == cs@[k as int]);
            assert(rest.drop_first() =~= cs@.skip(k + 1));
            let ghost before = FallbackScan {
                out: out@,
                in_tag,
                tag: tag@,
                ignored: ignored_view(ignored@),
            };
            let ghost after = fallback_step(before, cs@[k as int], tv, cv);
            let c = cs[k];
            if c == '<' {
                in_tag = true;
                tag = Vec::new();
                assert(tag@ =~= Seq::<char>::empty());
            } else if c == '>' {
                in_tag = false;
                let (a, b) = trimmed_bounds(tag.as_slice(), 0, tag.len());
                assert(tag@.subrange(0, tag@.len() as int) =~= tag@);
                let t = to_lowercase(vstd::slice::slice_subrange(tag.as_slice(), a, b));
                if t.len() > 0 && t[0] == '/' {
                    let (x, y) = trimmed_bounds(t.as_slice(), 1, t.len());
                    assert(t@.subrange(1, t@.len() as int) =~= t@.drop_first());
                    let n = vstd::slice::slice_subrange(t.as_slice(), x, y);
                    if ignored.len() > 0 && chars_eq(ignored[ignored.len() - 1].as_slice(), n) {
                        ignored.pop();
                        assert(ignored_view(ignored@) =~= before.ignored.drop_last());
                    }
                } else if !(t.len() > 0 && t[t.len() - 1] == '/') {
                    let ts = string_from_chars(t.as_slice());
                    let (name, ignore) = self.should_ignore_tag(
                        ts.as_str(),
                        &options.ignored_tags,
                        ignored_classes,
                    );
                    if ignore {
                        let nc = chars_of(name.as_str());
                        let ghost l = nc@;
                        ignored.push(nc);
                        assert(ignored_view(ignored@) =~= before.ignored.push(l));
                    }
                }
            } else if in_tag {
                tag.push(c);
            } else if ignored.len() == 0 {
                out.push(c);
            }
            assert(FallbackScan { out: out@, in_tag, tag: tag@, ignored: ignored_view(ignored@) }
                == after);
            k += 1;
        }
        assert(cs@.skip(k as int) =~= Seq::<char>::empty());
        let raw = string_from_chars(out.as_slice());
        let decoded = self.decode_html_entities(raw.as_str());
        let dc = chars_of(decoded.as_str());
        tidy_lines_of(&dc)
    }

    /// The name of the (lowercased) tag text `tag_content` and whether its element is
    /// left out: its name is an ignored tag, or its quoted `class` value holds an
    /// ignored class.
    pub fn should_ignore_tag(
        &self,
        tag_content: &str,
        ignored_tags: &Vec<String>,
        ignored_classes: &Vec<String>,
    ) -> (r: (String, bool))
        ensures
            (r.0@, r.1) == tag_decision(
                tag_content@,
                ignored_tags.deep_view(),
                ignored_classes.deep_view(),
            ),
    {
        let cs = chars_of(tag_content);
        let ws = words_of(cs.as_slice());
        if ws.len() == 0 {
            return (String::new(), false);
        }
        assert(ws.deep_view()[0] == ws@[0]@);
        let name = string_from_chars(ws[0].as_slice());
        if is_listed(ignored_tags, ws[0].as_slice()) {
            return (name, true);
        }
        if ignored_classes.len() > 0 && quoted_class_is_listed(cs.as_slice(), ignored_classes) {
            return (name, true);
        }
        (name, false)
    }

    /// Decode entities: the markup and typographic named entities, numeric character
    /// references, then any other HTML entity.
    pub fn decode_html_entities(&self, input: &str) -> (r: String)
        ensures
            r@ == entities_decoded(input@),
    {
        let s = replace_markup_entities(input);
        let n = replace_numeric_references(s.as_str());
        html_escape_decode(n.as_str())
    }
}

fn replace_typographic_entities(x: &str) -> (r: String)
    ensures
        r@ == typographic_entities_replaced(x@),
{
    proof {
        reveal_strlit("&nbsp;");
        reveal_strlit("&ldquo;");
        reveal_strlit("&rdquo;");
        reveal_strlit("&lsquo;");
        reveal_strlit("&rsquo;");
        reveal_strlit("&laquo;");
        reveal_strlit("&raquo;");
        reveal_strlit("&mdash;");
        reveal_strlit("&ndash;");
        reveal_strlit("&hellip;");
    }
    let s1 = replace_all(x, "&nbsp;", " ");
    let s2 = replace_all(s1.as_str(), "&ldquo;", "\u{201c}");
    let s3 = replace_all(s2.as_str(), "&rdquo;", "\u{201d}");
    let s4 = replace_all(s3.as_str(), "&lsquo;", "\u{2018}");
    let s5 = replace_all(s4.as_str(), "&rsquo;", "\u{2019}");
    let s6 = replace_all(s5.as_str(), "&laquo;", "\u{ab}");
    let s7 = replace_all(s6.as_str(), "&raquo;", "\u{bb}");
    let s8 = replace_all(s7.as_str(), "&mdash;", "\u{2014}");
    let s9 = replace_all(s8.as_str(), "&ndash;", "\u{2013}");
    replace_all(s9.as_str(), "&hellip;", "\u{2026}")
}

fn replace_markup_entities(x: &str) -> (r: String)
    ensures
        r@ == markup_entities_replaced(x@),
{
    proof {
        reveal_strlit("&amp;");
        reveal_strlit("&lt;");
        reveal_strlit("&gt;");
        reveal_strlit("&quot;");
        reveal_strlit("&apos;");
        reveal_strlit("&nbsp;");
        reveal_strlit("&ldquo;");
        reveal_strlit("&rdquo;");
        reveal_strlit("&lsquo;");
        reveal_strlit("&raquo;");
        reveal_strlit("&rsquo;");
        reveal_strlit("&laquo;");
        reveal_strlit("&mdash;");
        reveal_strlit("&ndash;");
        reveal_strlit("&hellip;");
    }
    let s1 = replace_all(x, "&amp;", "&");
    let s2 = replace_all(s1.as_str(), "&lt;", "<");
    let s3 = replace_all(s2.as_str(), "&gt;", ">");
    let s4 = replace_all(s3.as_str(), "&quot;", "\"");
    let s5 = replace_all(s4.as_str(), "&apos;", "'");
    let s6 = replace_all(s5.as_str(), "&nbsp;", " ");
    let s7 = replace_all(s6.as_str(), "&ldquo;", "\u{201c}");
    let s8 = replace_all(s7.as_str(), "&rdquo;", "\u{201d}");
    let s9 = replace_all(s8.as_str(), "&lsquo;", "\u{2018}");
    let s10 = replace_all(s9.as_str(), "&raquo;", "\u{bb}");
    let s11 = replace_all(s10.as_str(), "&rsquo;", "\u{2019}");
    let s12 = replace_all(s11.as_str(), "&laquo;", "\u{ab}");
    let s13 = replace_all(s12.as_str(), "&mdash;", "\u{2014}");
    let s14 = replace_all(s13.as_str(), "&ndash;", "\u{2013}");
    replace_all(s14.as_str(), "&hellip;", "\u{2026}")
}

/// The elements that start and end lines: p, div, h1 to h6, li, tr, br, aside,
/// table, section, article, header, footer and nav.
pub open spec fn line_breaking_element(l: Seq<char>) -> bool {
    l == "p"@ || l == "div"@ || l == "h1"@ || l == "h2"@ || l == "h3"@ || l == "h4"@ || l == "h5"@ || l == "h6"@ || l == "li"@ || l == "tr"@ || l == "br"@ || l == "aside"@ || l == "table"@ || l == "section"@ || l == "article"@ || l == "header"@ || l == "footer"@ || l == "nav"@
}

/// A tag whose lowercased name is one of the line-breaking elements, opening or
/// closing, ends the line of text gathered so far.
pub proof fn law_block_tags_break_lines(
    s: TextScan,
    name: Vec<u8>,
    attributes: Vec<XmlAttribute>,
    tags: Seq<Seq<char>>,
    classes: Seq<Seq<char>>,
)
    requires
        line_breaking_element(lowercase_str(local_name(name@))),
    ensures
        text_step(s, XmlEvent::Start { name, attributes, empty: false }, tags, classes).out == break_line(s.out),
        text_step(s, XmlEvent::End { name }, tags, classes).out == break_line(s.out),
        block_element(lowercase_str(local_name(name@))),
{
}

/// The texts of two sibling line-breaking elements (say two `li` items) come out
/// on separate lines: after `<a>t1</a><b>t2</b>`, the text gathered so far is
/// followed by a line break (if it had text), then `t1`, a line break, `t2`, and
/// a line break.
pub proof fn law_sibling_blocks_on_separate_lines(
    s: TextScan,
    n1: Vec<u8>,
    a1: Vec<XmlAttribute>,
    t1: String,
    n2: Vec<u8>,
    a2: Vec<XmlAttribute>,
    t2: String,
    tags: Seq<Seq<char>>,
    classes: Seq<Seq<char>>,
)
    requires
        line_breaking_element(lowercase_str(local_name(n1@))),
        line_breaking_element(lowercase_str(local_name(n2@))),
        s.ignored.len() == 0,
        !listed(tags, lowercase_str(local_name(n1@))),
        !listed(tags, lowercase_str(local_name(n2@))),
        !(classes.len() > 0 && class_listed(a1@, classes)),
        !(classes.len() > 0 && class_listed(a2@, classes)),
        t1@.len() > 0 && t1@.last() != '\n',
        t2@.len() > 0 && t2@.last() != '\n',
    ensures
        text_fold(
            seq![
                XmlEvent::Start { name: n1, attributes: a1, empty: false },
                XmlEvent::Text { text: t1 },
                XmlEvent::End { name: n1 },
                XmlEvent::Start { name: n2, attributes: a2, empty: false },
                XmlEvent::Text { text: t2 },
                XmlEvent::End { name: n2 },
            ],
            s,
            tags,
            classes,
        ).0.out == break_line(s.out) + t1@ + seq!['\n'] + t2@ + seq!['\n'],
{
    let evs = seq![
        XmlEvent::Start { name: n1, attributes: a1, empty: false },
        XmlEvent::Text { text: t1 },
        XmlEvent::End { name: n1 },
        XmlEvent::Start { name: n2, attributes: a2, empty: false },
        XmlEvent::Text { text: t2 },
        XmlEvent::End { name: n2 },
    ];
    let s1 = text_step(s, evs[0], tags, classes);
    let s2 = text_step(s1, evs[1], tags, classes);
    let s3 = text_step(s2, evs[2], tags, classes);
    let s4 = text_step(s3, evs[3], tags, classes);
    let s5 = text_step(s4, evs[4], tags, classes);
    let s6 = text_step(s5, evs[5], tags, classes);
    let o = break_line(s.out);
    assert(s1.out == o && s1.ignored.len() == 0);
    assert(s2.out == o + t1@ && s2.ignored.len() == 0);
    assert((o + t1@).last() == t1@.last());
    assert(s3.out == o + t1@ + seq!['\n'] && s3.ignored.len() == 0);
    assert(s4.out == o + t1@ + seq!['\n'] && s4.ignored.len() == 0);
    assert(s5.out == o + t1@ + seq!['\n'] + t2@ && s5.ignored.len() == 0);
    assert((o + t1@ + seq!['\n'] + t2@).last() == t2@.last());
    assert(s6.out == o + t1@ + seq!['\n'] + t2@ + seq!['\n']);
    let e1 = evs.drop_first();
    let e2 = e1.drop_first();
    let e3 = e2.drop_first();
    let e4 = e3.drop_first();
    let e5 = e4.drop_first();
    let e6 = e5.drop_first();
    assert(e1[0] == evs[1] && e2[0] == evs[2] && e3[0] == evs[3] && e4[0] == evs[4] && e5[0] == evs[5]);
    assert(e6.len() == 0);
    assert(text_fold(e6, s6, tags, classes) == (s6, true));
    assert(text_fold(e5, s5, tags, classes) == text_fold(e6, s6, tags, classes));
    assert(text_fold(e4, s4, tags, classes) == text_fold(e5, s5, tags, classes));
    assert(text_fold(e3, s3, tags, classes) == text_fold(e4, s4, tags, classes));
    assert(text_fold(e2, s2, tags, classes) == text_fold(e3, s3, tags, classes));
    assert(text_fold(e1, s1, tags, classes) == text_fold(e2, s2, tags, classes));
    assert(text_fold(evs, s, tags, classes) == text_fold(e1, s1, tags, classes));
}

} // verus!
