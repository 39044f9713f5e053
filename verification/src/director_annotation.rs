//! Checking an annotated reading against its passage, and laying the annotated
//! spans back onto the passage's own text.

use vstd::prelude::*;
use crate::text::{
    alphanumeric_char, chars_eq, chars_of, is_alphanumeric, trim, trimmed_string,
};

verus! {

/// `char::to_ascii_lowercase`: ASCII capitals lowered, every other char kept.
pub open spec fn ascii_lower(c: char) -> char {
    if 'A' <= c <= 'Z' {
        ((c as u8) + 32) as char
    } else {
        c
    }
}

/// The letters and digits of `s`, ASCII capitals lowered.
pub open spec fn canonical_text(s: Seq<char>) -> Seq<char>
    decreases s.len(),
{
    if s.len() == 0 {
        s
    } else if alphanumeric_char(s.last()) {
        canonical_text(s.drop_last()).push(ascii_lower(s.last()))
    } else {
        canonical_text(s.drop_last())
    }
}

/// The number of letters and digits in `s`.
pub open spec fn alnum_count(s: Seq<char>) -> nat
    decreases s.len(),
{
    if s.len() == 0 {
        0
    } else {
        alnum_count(s.drop_last()) + if alphanumeric_char(s.last()) {
            1nat
        } else {
            0nat
        }
    }
}

fn to_ascii_lower(c: char) -> (r: char)
    ensures
        r == ascii_lower(c),
{
    if 'A' <= c && c <= 'Z' {
        ((c as u8) + 32) as char
    } else {
        c
    }
}

fn canonical_of(s: &str) -> (r: Vec<char>)
    ensures
        r@ == canonical_text(s@),
{
    let cs = chars_of(s);
    let mut r: Vec<char> = Vec::new();
    let mut k: usize = 0;
    while k < cs.len()
        invariant
            k <= cs@.len(),
            cs@ == s@,
            r@ == canonical_text(cs@.take(k as int)),
        decreases cs@.len() - k,
    {
        assert(cs@.take(k + 1).drop_last() =~= cs@.take(k as int));
        if is_alphanumeric(cs[k]) {
            r.push(to_ascii_lower(cs[k]));
        }
        k += 1;
    }
    assert(cs@.take(k as int) =~= cs@);
    r
}

/// Whether two texts hold the same letters and digits in the same order, ignoring
/// ASCII case, spacing and punctuation.
pub fn words_match(a: &str, b: &str) -> (r: bool)
    ensures
        r == (canonical_text(a@) == canonical_text(b@)),
{
    let ca = canonical_of(a);
    let cb = canonical_of(b);
    chars_eq(ca.as_slice(), cb.as_slice())
}

/// Where the span starting at `j` ends: at the first letter or digit after `need`
/// of them have been passed (`seen` passed so far), or at the end of the passage.
pub open spec fn span_scan(p: Seq<char>, j: int, seen: nat, need: nat) -> int
    decreases p.len() - j,
{
    if j < 0 || j >= p.len() {
        p.len() as int
    } else if alphanumeric_char(p[j]) {
        if seen == need {
            j
        } else {
            span_scan(p, j + 1, seen + 1, need)
        }
    } else {
        span_scan(p, j + 1, seen, need)
    }
}

/// The passage text of each span, from index `idx` on: a span covers as many
/// letters and digits as its own text holds (the last span takes the rest), and its
/// text is trimmed.
pub open spec fn aligned_from(p: Seq<char>, idx: int, counts: Seq<nat>) -> Seq<Seq<char>>
    decreases counts.len(),
{
    if counts.len() == 0 {
        Seq::empty()
    } else {
        let end = if counts.len() == 1 {
            p.len() as int
        } else {
            span_scan(p, idx, 0, counts[0])
        };
        seq![trim(p.subrange(idx, end))] + aligned_from(p, end, counts.drop_first())
    }
}

proof fn lemma_span_scan_bounds(p: Seq<char>, j: int, seen: nat, need: nat)
    requires
        0 <= j <= p.len(),
    ensures
        j <= span_scan(p, j, seen, need) <= p.len(),
    decreases p.len() - j,
{
    if j < p.len() {
        if alphanumeric_char(p[j]) {
            if seen != need {
                lemma_span_scan_bounds(p, j + 1, seen + 1, need);
            }
        } else {
            lemma_span_scan_bounds(p, j + 1, seen, need);
        }
    }
}

fn alnum_count_of(s: &str) -> (n: usize)
    ensures
        n as int == alnum_count(s@),
{
    let cs = chars_of(s);
    let mut n: usize = 0;
    let mut k: usize = 0;
    while k < cs.len()
        invariant
            k <= cs@.len(),
            cs@ == s@,
            n <= k,
            n as int == alnum_count(cs@.take(k as int)),
        decreases cs@.len() - k,
    {
        assert(cs@.take(k + 1).drop_last() =~= cs@.take(k as int));
        if is_alphanumeric(cs[k]) {
            n += 1;
        }
        k += 1;
    }
    assert(cs@.take(k as int) =~= cs@);
    n
}

/// The alphanumeric counts of span texts.
pub open spec fn alnum_counts(texts: Seq<Seq<char>>) -> Seq<nat> {
    Seq::new(texts.len(), |i: int| alnum_count(texts[i]))
}

/// Lay spans back onto the passage: each span gets the stretch of the passage that
/// holds as many letters and digits as its own text, in order, the last span taking
/// the rest; each stretch is trimmed.
pub fn align_span_texts(span_texts: &Vec<String>, passage: &str) -> (r: Vec<String>)
    ensures
        r.deep_view() == aligned_from(passage@, 0, alnum_counts(span_texts.deep_view())),
{
    let ghost counts = alnum_counts(span_texts.deep_view());
    let p = chars_of(passage);
    let n = p.len();
    let mut out: Vec<String> = Vec::new();
    let mut idx: usize = 0;
    let mut i: usize = 0;
    assert(counts.skip(0) =~= counts);
    while i < span_texts.len()
        invariant
            i <= span_texts@.len(),
            n == p@.len(),
            p@ == passage@,
            idx <= n,
            counts == alnum_counts(span_texts.deep_view()),
            out.deep_view() + aligned_from(p@, idx as int, counts.skip(i as int)) == aligned_from(
                p@,
                0,
                counts,
            ),
        decreases span_texts@.len() - i,
    {
        let ghost rest = counts.skip(i as int);
        assert(rest[0] == counts[i as int]);
        assert(rest.drop_first() =~= counts.skip(i + 1));
        let need = alnum_count_of(span_texts[i].as_str());
        assert(need == counts[i as int]);
        let mut seen: usize = 0;
        let mut scan = idx;
        proof {
            lemma_span_scan_bounds(p@, idx as int, 0, need as nat);
        }
        while scan < n
            invariant
                idx <= scan <= n == p@.len(),
                seen <= scan - idx,
                span_scan(p@, scan as int, seen as nat, need as nat) == span_scan(
                    p@,
                    idx as int,
                    0,
                    need as nat,
                ),
            ensures
                idx <= scan <= n,
                scan as int == span_scan(p@, idx as int, 0, need as nat),
            decreases n - scan,
        {
            if is_alphanumeric(p[scan]) {
                if seen == need {
                    break;
                }
                seen += 1;
            }
            scan += 1;
        }
        let end = if i == span_texts.len() - 1 { n } else { scan };
        assert(rest.len() == 1 <==> i == span_texts@.len() - 1);
        let ghost before = out.deep_view();
        let s = trimmed_string(p.as_slice(), idx, end);
        out.push(s);
        assert(out.deep_view() =~= before.push(trim(p@.subrange(idx as int, end as int))));
        assert(out.deep_view() + aligned_from(p@, end as int, rest.drop_first()) =~= before
            + aligned_from(p@, idx as int, rest));
        idx = end;
        i += 1;
    }
    assert(counts.skip(i as int) =~= Seq::<nat>::empty());
    assert(out.deep_view() + Seq::<Seq<char>>::empty() =~= out.deep_view());
    out
}

} // verus!
