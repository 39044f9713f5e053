//! Markup in the input text: `[visible](feature)` links that attach a stress
//! weight, a phoneme override or number-reading flags to the words they cover.
//!
//! A feature that reads as a number is a stress weight. Reading a number is left
//! to the caller, which hands in, for each link, the weight its feature reads as
//! (see `link_features`).

use vstd::prelude::*;
use crate::pattern::{
    byte_slice, compile_regex, cuts_cleanly, find_captures, group_span, int_captures, int_groups,
    ordered_captures, regex_capture_ranges, regex_compiles, regex_pattern, slice_bytes, whole_match,
};
use crate::phonemes::StressWeight;
use crate::text::{chars_of, extend_chars, is_whitespace, string_from_chars, string_from_range, whitespace_char};
use vstd::utf8::{encode_utf8, encode_utf8_valid_utf8, is_char_boundary_start_end_of_seq};

verus! {

/// What a link attaches to the words it covers.
#[derive(Debug, PartialEq)]
pub enum FeatureSpanKind {
    /// A stress weight.
    Stress(StressWeight),
    /// Phonemes read in place of the words.
    PhonemeOverride(String),
    /// How numbers among the words are read.
    NumFlags(String),
}

/// A feature kind with its strings taken by their chars.
pub enum FeatureKindView {
    Stress(StressWeight),
    PhonemeOverride(Seq<char>),
    NumFlags(Seq<char>),
}

impl View for FeatureSpanKind {
    type V = FeatureKindView;

    open spec fn view(&self) -> FeatureKindView {
        match self {
            FeatureSpanKind::Stress(w) => FeatureKindView::Stress(*w),
            FeatureSpanKind::PhonemeOverride(v) => FeatureKindView::PhonemeOverride(v@),
            FeatureSpanKind::NumFlags(f) => FeatureKindView::NumFlags(f@),
        }
    }
}

/// A feature over a range of chars of the visible text.
#[derive(Debug, PartialEq)]
pub struct FeatureSpan {
    pub range: std::ops::Range<usize>,
    pub kind: FeatureSpanKind,
}

/// A feature span as numbers and chars.
pub struct FeatureSpanView {
    pub start: int,
    pub end: int,
    pub kind: FeatureKindView,
}

impl View for FeatureSpan {
    type V = FeatureSpanView;

    open spec fn view(&self) -> FeatureSpanView {
        FeatureSpanView { start: self.range.start as int, end: self.range.end as int, kind: self.kind@ }
    }
}

/// The visible text, with the features over it.
pub struct PreprocessResult {
    pub text: String,
    pub feature_spans: Vec<FeatureSpan>,
}

/// The feature spans of a result, as views.
pub open spec fn span_views(fs: Seq<FeatureSpan>) -> Seq<FeatureSpanView> {
    fs.map_values(|f: FeatureSpan| f@)
}

/// `f` is at least two chars long, and starts and ends with `c`.
pub open spec fn wrapped_in(f: Seq<char>, c: char) -> bool {
    f.len() > 1 && f[0] == c && f.last() == c
}

/// What a link's feature attaches: a stress weight where it reads as a number
/// (`weight`), phonemes between slashes, number flags between hashes.
pub open spec fn feature_of(f: Seq<char>, weight: Option<StressWeight>) -> Option<FeatureKindView> {
    match weight {
        Some(w) => Some(FeatureKindView::Stress(w)),
        None => if wrapped_in(f, '/') {
            Some(FeatureKindView::PhonemeOverride(f.subrange(1, f.len() - 1)))
        } else if wrapped_in(f, '#') {
            Some(FeatureKindView::NumFlags(f.subrange(1, f.len() - 1)))
        } else {
            None
        },
    }
}

/// What `feature` attaches, given the weight it reads as if it is a number.
pub fn parse_feature(feature: &str, weight: Option<StressWeight>) -> (r: Option<FeatureSpanKind>)
    ensures
        match r {
            Some(k) => feature_of(feature@, weight) == Some(k@),
            None => feature_of(feature@, weight) is None,
        },
{
    if let Some(w) = weight {
        return Some(FeatureSpanKind::Stress(w));
    }
    let cs = chars_of(feature);
    let n = cs.len();
    if n > 1 && cs[0] == '/' && cs[n - 1] == '/' {
        Some(FeatureSpanKind::PhonemeOverride(string_from_range(cs.as_slice(), 1, n - 1)))
    } else if n > 1 && cs[0] == '#' && cs[n - 1] == '#' {
        Some(FeatureSpanKind::NumFlags(string_from_range(cs.as_slice(), 1, n - 1)))
    } else {
        None
    }
}

/// What a link is: `[visible](feature)`.
pub const LINK_PATTERN: &'static str = r"\[([^\]]+)\]\(([^)]*)\)";

/// The group byte ranges of the links of `t`.
pub open spec fn link_captures(t: Seq<char>) -> Seq<Seq<Option<(int, int)>>> {
    regex_capture_ranges(LINK_PATTERN@, t)
}

/// Every link has its visible text (group 1) and its feature (group 2).
pub open spec fn links_complete(cs: Seq<Seq<Option<(int, int)>>>) -> bool {
    forall|k: int| 0 <= k < cs.len() ==> (#[trigger] cs[k]).len() > 2 && cs[k][1] is Some && cs[k][2] is Some
}

/// The byte where plain text resumes before link `k`.
pub open spec fn resume_at(cs: Seq<Seq<Option<(int, int)>>>, k: int) -> int {
    if k <= 0 {
        0
    } else {
        whole_match(cs[k - 1]).1
    }
}

/// The plain text between the previous link and link `k`.
pub open spec fn gap_before(t: Seq<char>, cs: Seq<Seq<Option<(int, int)>>>, k: int) -> Seq<char> {
    byte_slice(t, resume_at(cs, k), whole_match(cs[k]).0)
}

/// The visible text of link `k`.
pub open spec fn link_visible(t: Seq<char>, cs: Seq<Seq<Option<(int, int)>>>, k: int) -> Seq<char> {
    byte_slice(t, group_span(cs[k], 1).0, group_span(cs[k], 1).1)
}

/// The feature text of link `k`.
pub open spec fn link_feature(t: Seq<char>, cs: Seq<Seq<Option<(int, int)>>>, k: int) -> Seq<char> {
    byte_slice(t, group_span(cs[k], 2).0, group_span(cs[k], 2).1)
}

/// The visible text up to the end of the first `n` links.
pub open spec fn visible_prefix(t: Seq<char>, cs: Seq<Seq<Option<(int, int)>>>, n: int) -> Seq<char>
    decreases n,
{
    if n <= 0 {
        Seq::empty()
    } else {
        visible_prefix(t, cs, n - 1) + gap_before(t, cs, n - 1) + link_visible(t, cs, n - 1)
    }
}

/// The weight the feature of link `k` reads as, if it is a number.
pub open spec fn weight_at(ws: Seq<Option<StressWeight>>, k: int) -> Option<StressWeight> {
    if k < ws.len() {
        ws[k]
    } else {
        None
    }
}

/// The span link `k` gives, if its feature attaches anything.
pub open spec fn link_span(
    t: Seq<char>,
    cs: Seq<Seq<Option<(int, int)>>>,
    ws: Seq<Option<StressWeight>>,
    k: int,
) -> Option<FeatureSpanView> {
    let start = (visible_prefix(t, cs, k) + gap_before(t, cs, k)).len() as int;
    match feature_of(link_feature(t, cs, k), weight_at(ws, k)) {
        Some(kind) => Some(
            FeatureSpanView { start: start, end: start + link_visible(t, cs, k).len(), kind: kind },
        ),
        None => None,
    }
}

/// The spans the first `n` links give.
pub open spec fn link_spans(
    t: Seq<char>,
    cs: Seq<Seq<Option<(int, int)>>>,
    ws: Seq<Option<StressWeight>>,
    n: int,
) -> Seq<FeatureSpanView>
    decreases n,
{
    if n <= 0 {
        Seq::empty()
    } else {
        link_spans(t, cs, ws, n - 1) + match link_span(t, cs, ws, n - 1) {
            Some(s) => seq![s],
            None => Seq::empty(),
        }
    }
}

/// The visible text of `t`: each link replaced by its visible text.
pub open spec fn visible_text(t: Seq<char>, cs: Seq<Seq<Option<(int, int)>>>) -> Seq<char> {
    visible_prefix(t, cs, cs.len() as int) + byte_slice(
        t,
        resume_at(cs, cs.len() as int),
        encode_utf8(t).len() as int,
    )
}

/// `text` without its leading whitespace.
fn trim_start_string(text: &str) -> (r: String)
    ensures
        r@ == crate::text::trim_start(text@),
{
    let cs = chars_of(text);
    let mut i: usize = 0;
    assert(cs@.subrange(0, cs@.len() as int) =~= cs@);
    while i < cs.len() && is_whitespace(cs[i])
        invariant
            cs@ == text@,
            i <= cs@.len(),
            crate::text::trim_start(cs@) == crate::text::trim_start(cs@.subrange(i as int, cs@.len() as int)),
        decreases cs@.len() - i,
    {
        assert(cs@.subrange(i as int, cs@.len() as int).drop_first() =~= cs@.subrange(
            i + 1,
            cs@.len() as int,
        ));
        i += 1;
    }
    string_from_range(cs.as_slice(), i, cs.len())
}

/// The feature texts of the links of `text` (after its leading whitespace), in
/// order; `None` if the link pattern does not compile or a link lacks a group.
pub fn link_features(text: &str) -> (r: Option<Vec<String>>)
    ensures
        ({
            let t = crate::text::trim_start(text@);
            let cs = link_captures(t);
            match r {
                Some(v) => regex_compiles(LINK_PATTERN@) && links_complete(cs) && v@.len() == cs.len()
                    && forall|k: int| 0 <= k < cs.len() ==> #[trigger] v@[k]@ == link_feature(t, cs, k),
                None => !regex_compiles(LINK_PATTERN@) || !links_complete(cs),
            }
        }),
{
    let re = match compile_regex(LINK_PATTERN) {
        Ok(re) => re,
        Err(_) => return None,
    };
    let trimmed = trim_start_string(text);
    let t = trimmed.as_str();
    let caps = find_captures(&re, t);
    let ghost cs = int_captures(caps@);
    let mut out: Vec<String> = Vec::new();
    let mut k: usize = 0;
    while k < caps.len()
        invariant
            t@ == crate::text::trim_start(text@),
            regex_compiles(LINK_PATTERN@),
            cs == int_captures(caps@),
            cs == link_captures(t@),
            ordered_captures(t@, cs),
            k <= caps@.len(),
            out@.len() == k,
            forall|j: int| 0 <= j < k ==> (#[trigger] cs[j]).len() > 2 && cs[j][1] is Some && cs[j][2] is Some,
            forall|j: int| 0 <= j < k ==> #[trigger] out@[j]@ == link_feature(t@, cs, j),
        decreases caps@.len() - k,
    {
        let c = &caps[k];
        assert(cs[k as int] == int_groups(c@));
        if c.len() < 3 {
            assert(!links_complete(cs) && cs[k as int].len() == c@.len());
            return None;
        }
        match c[2] {
            Some(g) => {
                if c[1].is_none() {
                    assert(cs[k as int][1] is None);
                    assert(!links_complete(cs));
                    return None;
                }
                assert(cs[k as int][2] == Some((g.0 as int, g.1 as int)));
                let f = slice_bytes(t, g.0, g.1);
                out.push(f);
            },
            None => {
                assert(cs[k as int][2] is None);
                assert(!links_complete(cs));
                return None;
            },
        }
        k += 1;
    }
    Some(out)
}


/// The visible text of `text` (after its leading whitespace), each link replaced by
/// its visible text, with the features the links attach over the chars they cover:
/// link `k`'s feature reads as the stress weight `weights[k]` where that is given,
/// and is read for phonemes or number flags otherwise (see `feature_of`). `None`
/// if the link pattern does not compile or a link lacks a group.
pub fn preprocess(text: &str, weights: &[Option<StressWeight>]) -> (r: Option<PreprocessResult>)
    ensures
        ({
            let t = crate::text::trim_start(text@);
            let cs = link_captures(t);
            match r {
                Some(p) => regex_compiles(LINK_PATTERN@) && links_complete(cs) && p.text@ == visible_text(t, cs)
                    && span_views(p.feature_spans@) == link_spans(t, cs, weights@, cs.len() as int),
                None => !regex_compiles(LINK_PATTERN@) || !links_complete(cs),
            }
        }),
{
    let re = match compile_regex(LINK_PATTERN) {
        Ok(re) => re,
        Err(_) => return None,
    };
    let trimmed = trim_start_string(text);
    let t = trimmed.as_str();
    let caps = find_captures(&re, t);
    let ghost cs = int_captures(caps@);
    proof {
        encode_utf8_valid_utf8(t@);
        is_char_boundary_start_end_of_seq(encode_utf8(t@));
    }
    let mut out: Vec<char> = Vec::new();
    let mut spans: Vec<FeatureSpan> = Vec::new();
    let mut current: usize = 0;
    let mut k: usize = 0;
    while k < caps.len()
        invariant
            t@ == crate::text::trim_start(text@),
            regex_compiles(LINK_PATTERN@),
            cs == int_captures(caps@),
            cs == link_captures(t@),
            ordered_captures(t@, cs),
            k <= caps@.len(),
            forall|j: int| 0 <= j < k ==> (#[trigger] cs[j]).len() > 2 && cs[j][1] is Some && cs[j][2] is Some,
            current == resume_at(cs, k as int),
            cuts_cleanly(t@, current as int),
            out@ == visible_prefix(t@, cs, k as int),
            span_views(spans@) == link_spans(t@, cs, weights@, k as int),
        decreases caps@.len() - k,
    {
        let c = &caps[k];
        assert(cs[k as int] == int_groups(c@));
        if c.len() < 3 {
            assert(!links_complete(cs) && cs[k as int].len() == c@.len());
            return None;
        }
        let (vs, ve) = match c[1] {
            Some(g) => g,
            None => {
                assert(cs[k as int][1] is None);
                assert(!links_complete(cs));
                return None;
            },
        };
        let (fs, fe) = match c[2] {
            Some(g) => g,
            None => {
                assert(cs[k as int][2] is None);
                assert(!links_complete(cs));
                return None;
            },
        };
        let (ms, me) = match c[0] {
            Some(g) => g,
            None => {
                assert(cs[k as int][0] is Some);
                return None;
            },
        };
        assert(cs[k as int][0] == Some((ms as int, me as int)));
        assert(cs[k as int][1] == Some((vs as int, ve as int)));
        assert(cs[k as int][2] == Some((fs as int, fe as int)));
        assert(k == 0 || whole_match(cs[k - 1]).1 <= whole_match(cs[k as int]).0);
        let gap = slice_bytes(t, current, ms);
        extend_chars(&mut out, gap.as_str());
        let start = out.len();
        let visible = slice_bytes(t, vs, ve);
        extend_chars(&mut out, visible.as_str());
        let end = out.len();
        let feature = slice_bytes(t, fs, fe);
        let weight = if k < weights.len() {
            weights[k]
        } else {
            None
        };
        match parse_feature(feature.as_str(), weight) {
            Some(kind) => {
                spans.push(FeatureSpan { range: start..end, kind });
            },
            None => {},
        }
        assert(span_views(spans@) =~= link_spans(t@, cs, weights@, k + 1));
        current = me;
        k += 1;
    }
    let tail = slice_bytes(t, current, t.as_bytes().len());
    extend_chars(&mut out, tail.as_str());
    Some(PreprocessResult { text: string_from_chars(out.as_slice()), feature_spans: spans })
}


/// The visible text of the first `m` links is where that of the first `n` begins.
proof fn lemma_visible_prefix_grows(t: Seq<char>, cs: Seq<Seq<Option<(int, int)>>>, m: int, n: int)
    requires
        0 <= m <= n,
    ensures
        visible_prefix(t, cs, m).len() <= visible_prefix(t, cs, n).len(),
        visible_prefix(t, cs, n).take(visible_prefix(t, cs, m).len() as int) == visible_prefix(t, cs, m),
    decreases n - m,
{
    if m < n {
        lemma_visible_prefix_grows(t, cs, m, n - 1);
        let a = visible_prefix(t, cs, m);
        let b = visible_prefix(t, cs, n - 1);
        let c = visible_prefix(t, cs, n);
        assert(c == b + gap_before(t, cs, n - 1) + link_visible(t, cs, n - 1));
        assert(c.take(a.len() as int) =~= b.take(a.len() as int));
    } else {
        assert(visible_prefix(t, cs, n).take(visible_prefix(t, cs, n).len() as int) =~= visible_prefix(t, cs, n));
    }
}

/// The span a link gives covers, in the visible text, exactly the link's visible
/// text.
pub proof fn law_span_covers_link_text(
    t: Seq<char>,
    cs: Seq<Seq<Option<(int, int)>>>,
    ws: Seq<Option<StressWeight>>,
    k: int,
)
    requires
        0 <= k < cs.len(),
        link_span(t, cs, ws, k) is Some,
    ensures
        ({
            let s = link_span(t, cs, ws, k)->0;
            0 <= s.start <= s.end <= visible_text(t, cs).len() && visible_text(t, cs).subrange(s.start, s.end)
                == link_visible(t, cs, k)
        }),
{
    let s = link_span(t, cs, ws, k)->0;
    let n = cs.len() as int;
    lemma_visible_prefix_grows(t, cs, k + 1, n);
    let p = visible_prefix(t, cs, k + 1);
    let whole = visible_text(t, cs);
    assert(p == visible_prefix(t, cs, k) + gap_before(t, cs, k) + link_visible(t, cs, k));
    assert(whole.take(p.len() as int) == p);
    assert(whole.subrange(s.start, s.end) =~= p.subrange(s.start, s.end));
    assert(p.subrange(s.start, s.end) =~= link_visible(t, cs, k));
}

} // verus!
