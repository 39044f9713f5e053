//! Rule-based sentence segmentation and narration grouping.

use std::sync::Arc;
use vstd::prelude::*;
use crate::coordinator::same_speaker;
use crate::tagger::opt_chars;
use crate::text::{
    lemma_trim_idempotent,
    alphabetic_char, ascii_digit, chars_eq_str, chars_of, is_alphabetic, is_lowercase, is_uppercase,
    is_whitespace, lowercase_char, lowercase_str, string_from_chars, to_lowercase, trim, trimmed_string,
    uppercase_char, whitespace_char,
};

verus! {

/// A char that can end a sentence.
pub open spec fn terminal_char(c: char) -> bool {
    c == '.' || c == '?' || c == '!' || c == '…'
}

/// A closing quote or bracket that stays attached to the sentence it ends.
pub open spec fn closing_char(c: char) -> bool {
    c == '"' || c == '\'' || c == '”' || c == '’' || c == '»' || c == ')' || c == ']' || c == '}'
}

/// The lowercase words that, written before a period, mark an abbreviation.
pub open spec fn abbreviation(w: Seq<char>) -> bool {
    ||| w == "mr"@ ||| w == "mrs"@ ||| w == "ms"@ ||| w == "dr"@ ||| w == "prof"@
    ||| w == "sr"@ ||| w == "jr"@ ||| w == "st"@ ||| w == "co"@ ||| w == "corp"@
    ||| w == "inc"@ ||| w == "ltd"@ ||| w == "approx"@ ||| w == "vs"@ ||| w == "eg"@
    ||| w == "ie"@ ||| w == "ca"@ ||| w == "jan"@ ||| w == "feb"@ ||| w == "mar"@
    ||| w == "apr"@ ||| w == "jun"@ ||| w == "jul"@ ||| w == "aug"@ ||| w == "sep"@
    ||| w == "oct"@ ||| w == "nov"@ ||| w == "dec"@ ||| w == "gen"@ ||| w == "col"@
    ||| w == "lt"@ ||| w == "capt"@ ||| w == "sgt"@ ||| w == "rep"@ ||| w == "sen"@
    ||| w == "vol"@ ||| w == "ed"@ ||| w == "pp"@ ||| w == "al"@ ||| w == "etc"@
    ||| w == "a.m"@ ||| w == "p.m"@ ||| w == "cf"@
}

/// Start of the maximal run of alphabetic chars that ends just before index `k`.
pub open spec fn alpha_run_start(cs: Seq<char>, k: int) -> int
    decreases k,
{
    if k > 0 && alphabetic_char(cs[k - 1]) {
        alpha_run_start(cs, k - 1)
    } else {
        k
    }
}

/// The word written immediately before index `i`.
pub open spec fn word_before(cs: Seq<char>, i: int) -> Seq<char> {
    cs.subrange(alpha_run_start(cs, i), i)
}

/// A period between two ASCII digits, as in "3.14".
pub open spec fn decimal_point(cs: Seq<char>, i: int) -> bool {
    &&& cs[i] == '.'
    &&& 0 < i && i + 1 < cs.len()
    &&& ascii_digit(cs[i - 1]) && ascii_digit(cs[i + 1])
}

/// The word before `i` is a known abbreviation or a single ASCII capital initial.
pub open spec fn abbreviated_word(cs: Seq<char>, i: int) -> bool {
    let w = word_before(cs, i);
    &&& i > 0
    &&& w.len() > 0
    &&& (abbreviation(lowercase_str(w)) || (w.len() == 1 && (w[0] as u32) < 128 && uppercase_char(w[0])))
}

/// Advance `t` over following terminal chars.
pub open spec fn skip_terminals(cs: Seq<char>, t: int) -> int
    decreases cs.len() - t,
{
    if 0 <= t && t + 1 < cs.len() && terminal_char(cs[t + 1]) {
        skip_terminals(cs, t + 1)
    } else {
        t
    }
}

/// Advance `t` over following closing quotes and brackets.
pub open spec fn skip_closers(cs: Seq<char>, t: int) -> int
    decreases cs.len() - t,
{
    if 0 <= t && t + 1 < cs.len() && closing_char(cs[t + 1]) {
        skip_closers(cs, t + 1)
    } else {
        t
    }
}

/// Index of the last char of the sentence whose terminal punctuation starts at `i`:
/// the run of terminal punctuation, then closing quotes/brackets, then at most one period.
pub open spec fn sentence_end(cs: Seq<char>, i: int) -> int {
    let t = skip_closers(cs, skip_terminals(cs, i));
    if cs.len() - t > 1 && cs[t + 1] == '.' {
        t + 1
    } else {
        t
    }
}

/// First index at or after `k` that is not whitespace (or the length).
pub open spec fn skip_whitespace(cs: Seq<char>, k: int) -> int
    decreases cs.len() - k,
{
    if 0 <= k < cs.len() && whitespace_char(cs[k]) {
        skip_whitespace(cs, k + 1)
    } else {
        k
    }
}

/// The next non-whitespace char after the sentence end is lowercase.
pub open spec fn continues_lowercase(cs: Seq<char>, i: int) -> bool {
    let n = skip_whitespace(cs, sentence_end(cs, i) + 1);
    n < cs.len() && lowercase_char(cs[n])
}

/// The terminal char at `i` really ends a sentence.
pub open spec fn ends_sentence(cs: Seq<char>, i: int) -> bool {
    &&& terminal_char(cs[i])
    &&& !decimal_point(cs, i)
    &&& !abbreviated_word(cs, i)
    &&& !continues_lowercase(cs, i)
}

/// `seq![t]` when `t` is non-empty, else the empty sequence.
pub open spec fn nonempty_piece(t: Seq<char>) -> Seq<Seq<char>> {
    if t.len() > 0 {
        seq![t]
    } else {
        Seq::empty()
    }
}

/// The trimmed, non-empty sentences of `cs`, where the current sentence began at
/// `start` and the scan for its end has reached `i`.
pub open spec fn sentences_from(cs: Seq<char>, start: int, i: int) -> Seq<Seq<char>>
    decreases cs.len() - i,
{
    if i < 0 || i >= cs.len() {
        if 0 <= start < cs.len() {
            nonempty_piece(trim(cs.subrange(start, cs.len() as int)))
        } else {
            Seq::empty()
        }
    } else if ends_sentence(cs, i) && i <= sentence_end(cs, i) < cs.len() && 0 <= start <= i {
        let e = sentence_end(cs, i);
        nonempty_piece(trim(cs.subrange(start, e + 1))) + sentences_from(cs, e + 1, e + 1)
    } else {
        sentences_from(cs, start, i + 1)
    }
}

/// The sentences of a text, in order.
pub open spec fn sentences(cs: Seq<char>) -> Seq<Seq<char>> {
    sentences_from(cs, 0, 0)
}

/// Every piece `nonempty_piece` keeps of a trimmed text is non-empty and trimmed.
proof fn lemma_trimmed_piece(t: Seq<char>)
    ensures
        forall|k: int| 0 <= k < nonempty_piece(trim(t)).len() ==> #[trigger] nonempty_piece(trim(t))[k].len() > 0
            && trim(nonempty_piece(trim(t))[k]) == nonempty_piece(trim(t))[k],
{
    lemma_trim_idempotent(t);
}

proof fn lemma_sentences_from_trimmed(cs: Seq<char>, start: int, i: int)
    ensures
        forall|k: int| 0 <= k < sentences_from(cs, start, i).len() ==> #[trigger] sentences_from(cs, start, i)[k].len() > 0
            && trim(sentences_from(cs, start, i)[k]) == sentences_from(cs, start, i)[k],
    decreases cs.len() - i,
{
    if i < 0 || i >= cs.len() {
        if 0 <= start < cs.len() {
            lemma_trimmed_piece(cs.subrange(start, cs.len() as int));
            assert(sentences_from(cs, start, i) == nonempty_piece(trim(cs.subrange(start, cs.len() as int))));
        } else {
            assert(sentences_from(cs, start, i) == Seq::<Seq<char>>::empty());
        }
    } else if ends_sentence(cs, i) && i <= sentence_end(cs, i) < cs.len() && 0 <= start <= i {
        let e = sentence_end(cs, i);
        lemma_trimmed_piece(cs.subrange(start, e + 1));
        lemma_sentences_from_trimmed(cs, e + 1, e + 1);
        let a = nonempty_piece(trim(cs.subrange(start, e + 1)));
        let b = sentences_from(cs, e + 1, e + 1);
        assert(sentences_from(cs, start, i) == a + b);
        assert forall|k: int| 0 <= k < (a + b).len() implies #[trigger] (a + b)[k].len() > 0 && trim((a + b)[k]) == (a
            + b)[k] by {
            if k < a.len() {
                assert((a + b)[k] == a[k]);
            } else {
                assert((a + b)[k] == b[k - a.len()]);
            }
        }
    } else {
        lemma_sentences_from_trimmed(cs, start, i + 1);
        assert(sentences_from(cs, start, i) == sentences_from(cs, start, i + 1));
    }
}

/// Every sentence `split_sentences` gives is non-empty and has no surrounding
/// whitespace.
pub proof fn law_sentences_are_trimmed_and_nonempty(cs: Seq<char>)
    ensures
        forall|k: int| 0 <= k < sentences(cs).len() ==> #[trigger] sentences(cs)[k].len() > 0 && trim(sentences(cs)[k])
            == sentences(cs)[k],
{
    lemma_sentences_from_trimmed(cs, 0, 0);
}

/// Every passage but the last that paragraph grouping builds reaches the target
/// length, and none is empty when no sentence is (whatever the passage under way).
pub proof fn law_paragraphs_reach_target(ss: Seq<Seq<char>>, target: int, cur: Seq<char>)
    ensures
        forall|k: int| 0 <= k < paragraphs_from(ss, target, cur).len() - 1 ==> #[trigger] paragraphs_from(ss, target, cur)[k].len()
            >= target,
        (forall|k: int| 0 <= k < ss.len() ==> #[trigger] ss[k].len() > 0) ==> forall|k: int|
            0 <= k < paragraphs_from(ss, target, cur).len() ==> #[trigger] paragraphs_from(ss, target, cur)[k].len() > 0,
    decreases ss.len(),
{
    if ss.len() > 0 {
        let next = join_with_space(cur, ss[0]);
        let rest = ss.drop_first();
        if (forall|k: int| 0 <= k < ss.len() ==> #[trigger] ss[k].len() > 0) {
            assert(ss[0].len() > 0);
            assert forall|k: int| 0 <= k < rest.len() implies #[trigger] rest[k].len() > 0 by {
                assert(rest[k] == ss[k + 1]);
            }
        }
        if next.len() >= target {
            law_paragraphs_reach_target(rest, target, Seq::empty());
            let a = seq![next];
            let b = paragraphs_from(rest, target, Seq::empty());
            assert(paragraphs_from(ss, target, cur) == a + b);
            assert forall|k: int| 0 <= k < (a + b).len() - 1 implies #[trigger] (a + b)[k].len() >= target by {
                if k > 0 {
                    assert((a + b)[k] == b[k - 1]);
                } else {
                    assert((a + b)[0] == next);
                }
            }
            if (forall|k: int| 0 <= k < ss.len() ==> #[trigger] ss[k].len() > 0) {
                assert(next.len() > 0);
                assert forall|k: int| 0 <= k < (a + b).len() implies #[trigger] (a + b)[k].len() > 0 by {
                    if k > 0 {
                        assert((a + b)[k] == b[k - 1]);
                    } else {
                        assert((a + b)[0] == next);
                    }
                }
            }
        } else {
            law_paragraphs_reach_target(rest, target, next);
            assert(paragraphs_from(ss, target, cur) == paragraphs_from(rest, target, next));
            if (forall|k: int| 0 <= k < ss.len() ==> #[trigger] ss[k].len() > 0) {
                assert(forall|k: int| 0 <= k < rest.len() ==> #[trigger] rest[k].len() > 0);
            }
        }
    } else {
        assert(paragraphs_from(ss, target, cur) == nonempty_piece(cur));
    }
}

proof fn lemma_skip_terminals_bounds(cs: Seq<char>, t: int)
    requires
        0 <= t < cs.len(),
    ensures
        t <= skip_terminals(cs, t) < cs.len(),
    decreases cs.len() - t,
{
    if t + 1 < cs.len() && terminal_char(cs[t + 1]) {
        lemma_skip_terminals_bounds(cs, t + 1);
    }
}

proof fn lemma_skip_closers_bounds(cs: Seq<char>, t: int)
    requires
        0 <= t < cs.len(),
    ensures
        t <= skip_closers(cs, t) < cs.len(),
    decreases cs.len() - t,
{
    if t + 1 < cs.len() && closing_char(cs[t + 1]) {
        lemma_skip_closers_bounds(cs, t + 1);
    }
}

proof fn lemma_alpha_run_start_bounds(cs: Seq<char>, k: int)
    requires
        0 <= k <= cs.len(),
    ensures
        0 <= alpha_run_start(cs, k) <= k,
    decreases k,
{
    if k > 0 && alphabetic_char(cs[k - 1]) {
        lemma_alpha_run_start_bounds(cs, k - 1);
    }
}

/// Whether `w` (already lowercased) is one of the abbreviations.
fn is_abbreviation(w: &[char]) -> (r: bool)
    ensures
        r == abbreviation(w@),
{
    chars_eq_str(w, "mr") || chars_eq_str(w, "mrs") || chars_eq_str(w, "ms")
        || chars_eq_str(w, "dr") || chars_eq_str(w, "prof") || chars_eq_str(w, "sr")
        || chars_eq_str(w, "jr") || chars_eq_str(w, "st") || chars_eq_str(w, "co")
        || chars_eq_str(w, "corp") || chars_eq_str(w, "inc") || chars_eq_str(w, "ltd")
        || chars_eq_str(w, "approx") || chars_eq_str(w, "vs") || chars_eq_str(w, "eg")
        || chars_eq_str(w, "ie") || chars_eq_str(w, "ca") || chars_eq_str(w, "jan")
        || chars_eq_str(w, "feb") || chars_eq_str(w, "mar") || chars_eq_str(w, "apr")
        || chars_eq_str(w, "jun") || chars_eq_str(w, "jul") || chars_eq_str(w, "aug")
        || chars_eq_str(w, "sep") || chars_eq_str(w, "oct") || chars_eq_str(w, "nov")
        || chars_eq_str(w, "dec") || chars_eq_str(w, "gen") || chars_eq_str(w, "col")
        || chars_eq_str(w, "lt") || chars_eq_str(w, "capt") || chars_eq_str(w, "sgt")
        || chars_eq_str(w, "rep") || chars_eq_str(w, "sen") || chars_eq_str(w, "vol")
        || chars_eq_str(w, "ed") || chars_eq_str(w, "pp") || chars_eq_str(w, "al")
        || chars_eq_str(w, "etc") || chars_eq_str(w, "a.m") || chars_eq_str(w, "p.m")
        || chars_eq_str(w, "cf")
}

fn is_terminal(c: char) -> (r: bool)
    ensures
        r == terminal_char(c),
{
    c == '.' || c == '?' || c == '!' || c == '…'
}

fn is_closing(c: char) -> (r: bool)
    ensures
        r == closing_char(c),
{
    c == '"' || c == '\'' || c == '”' || c == '’' || c == '»' || c == ')' || c == ']' || c == '}'
}

fn find_alpha_run_start(cs: &Vec<char>, i: usize) -> (k: usize)
    requires
        i <= cs@.len(),
    ensures
        k as int == alpha_run_start(cs@, i as int),
        k <= i,
{
    let mut k = i;
    while k > 0 && is_alphabetic(cs[k - 1])
        invariant
            k <= i <= cs@.len(),
            alpha_run_start(cs@, k as int) == alpha_run_start(cs@, i as int),
        decreases k,
    {
        k -= 1;
    }
    k
}

fn is_decimal_point(cs: &Vec<char>, i: usize) -> (r: bool)
    requires
        i < cs@.len(),
    ensures
        r == decimal_point(cs@, i as int),
{
    cs[i] == '.' && i > 0 && cs.len() - i > 1 && '0' <= cs[i - 1] && cs[i - 1] <= '9'
        && '0' <= cs[i + 1] && cs[i + 1] <= '9'
}

fn is_abbreviated_word(cs: &Vec<char>, i: usize) -> (r: bool)
    requires
        i < cs@.len(),
    ensures
        r == abbreviated_word(cs@, i as int),
{
    if i == 0 {
        return false;
    }
    let ws = find_alpha_run_start(cs, i);
    if ws == i {
        return false;
    }
    let word = vstd::slice::slice_subrange(cs.as_slice(), ws, i);
    assert(word@ == word_before(cs@, i as int));
    let lower = to_lowercase(word);
    if is_abbreviation(lower.as_slice()) {
        return true;
    }
    i - ws == 1 && (cs[ws] as u32) < 128 && is_uppercase(cs[ws])
}

fn find_sentence_end(cs: &Vec<char>, i: usize) -> (e: usize)
    requires
        i < cs@.len(),
    ensures
        e as int == sentence_end(cs@, i as int),
        i <= e < cs@.len(),
{
    let mut t = i;
    while cs.len() - t > 1 && is_terminal(cs[t + 1])
        invariant
            i <= t < cs@.len(),
            skip_terminals(cs@, t as int) == skip_terminals(cs@, i as int),
        decreases cs@.len() - t,
    {
        t += 1;
    }
    let ghost t0 = t;
    while cs.len() - t > 1 && is_closing(cs[t + 1])
        invariant
            i <= t0 <= t < cs@.len(),
            t0 == skip_terminals(cs@, i as int),
            skip_closers(cs@, t as int) == skip_closers(cs@, t0 as int),
        decreases cs@.len() - t,
    {
        t += 1;
    }
    if cs.len() - t > 1 && cs[t + 1] == '.' {
        t += 1;
    }
    t
}

fn find_non_whitespace(cs: &Vec<char>, k: usize) -> (n: usize)
    requires
        k <= cs@.len(),
    ensures
        n as int == skip_whitespace(cs@, k as int),
        k <= n <= cs@.len(),
{
    let mut n = k;
    while n < cs.len() && is_whitespace(cs[n])
        invariant
            k <= n <= cs@.len(),
            skip_whitespace(cs@, n as int) == skip_whitespace(cs@, k as int),
        decreases cs@.len() - n,
    {
        n += 1;
    }
    n
}

/// Split `text` into trimmed, non-empty sentences.
///
/// A sentence ends at `.`, `?`, `!` or `…` unless that char is a decimal point, follows
/// an abbreviation or a single capital initial, or the text continues in lowercase.
/// The sentence takes along any further terminal punctuation, closing quotes and
/// brackets, and one trailing period.
pub fn split_sentences(text: &str) -> (res: Vec<String>)
    ensures
        res.deep_view() == sentences(text@),
{
    let cs = chars_of(text);
    let mut out: Vec<String> = Vec::new();
    let mut start: usize = 0;
    let mut i: usize = 0;
    while i < cs.len()
        invariant
            start <= i <= cs@.len(),
            cs@ == text@,
            out.deep_view() + sentences_from(cs@, start as int, i as int) == sentences(cs@),
        decreases cs@.len() - i,
    {
        let c = cs[i];
        let mut ends = false;
        let mut e = i;
        if is_terminal(c) && !is_decimal_point(&cs, i) && !is_abbreviated_word(&cs, i) {
            e = find_sentence_end(&cs, i);
            let n = find_non_whitespace(&cs, e + 1);
            ends = !(n < cs.len() && is_lowercase(cs[n]));
        }
        if ends {
            let ghost before = out.deep_view();
            let s = trimmed_string(&cs, start, e + 1);
            if !s.as_str().is_empty() {
                out.push(s);
                assert(out.deep_view() =~= before + seq![s@]);
            } else {
                assert(out.deep_view() =~= before);
            }
            assert(sentences_from(cs@, start as int, i as int) == nonempty_piece(trim(
                cs@.subrange(start as int, e + 1),
            )) + sentences_from(cs@, e + 1, e + 1));
            assert(out.deep_view() + sentences_from(cs@, e + 1, e + 1) =~= before + sentences_from(
                cs@,
                start as int,
                i as int,
            ));
            start = e + 1;
            i = e + 1;
        } else {
            i += 1;
        }
    }
    let ghost before = out.deep_view();
    if start < cs.len() {
        let s = trimmed_string(&cs, start, cs.len());
        if !s.as_str().is_empty() {
            out.push(s);
            assert(out.deep_view() =~= before + seq![s@]);
        } else {
            assert(out.deep_view() =~= before);
        }
    } else {
        assert(out.deep_view() =~= before + Seq::<Seq<char>>::empty());
    }
    out
}

/// How sentences are gathered into narration passages.
#[derive(Clone, Debug)]
pub enum NarrationGrouping {
    /// Every sentence is its own passage.
    Sentence,
    /// Sentences are joined with single spaces until a passage reaches
    /// `target_characters` chars.
    Paragraph { target_characters: u32 },
}

/// `cur` followed by `s`, with a separating space when `cur` is non-empty.
pub open spec fn join_with_space(cur: Seq<char>, s: Seq<char>) -> Seq<char> {
    if cur.len() == 0 {
        s
    } else {
        cur + seq![' '] + s
    }
}

/// Passages built from `ss`, given the passage `cur` already under construction.
pub open spec fn paragraphs_from(ss: Seq<Seq<char>>, target: int, cur: Seq<char>) -> Seq<Seq<char>>
    decreases ss.len(),
{
    if ss.len() == 0 {
        nonempty_piece(cur)
    } else {
        let next = join_with_space(cur, ss[0]);
        if next.len() >= target {
            seq![next] + paragraphs_from(ss.drop_first(), target, Seq::empty())
        } else {
            paragraphs_from(ss.drop_first(), target, next)
        }
    }
}

/// Passages made from the sentences `ss` under `grouping`.
pub open spec fn grouped(grouping: NarrationGrouping, ss: Seq<Seq<char>>) -> Seq<Seq<char>> {
    match grouping {
        NarrationGrouping::Sentence => ss,
        NarrationGrouping::Paragraph { target_characters } => paragraphs_from(
            ss,
            target_characters as int,
            Seq::empty(),
        ),
    }
}

impl NarrationGrouping {
    /// Gather `sentences` into passages.
    pub fn group(&self, sentences: &[String]) -> (res: Vec<String>)
        ensures
            res.deep_view() == grouped(*self, sentences.deep_view()),
    {
        match self {
            NarrationGrouping::Sentence => {
                let mut out: Vec<String> = Vec::new();
                let mut k: usize = 0;
                while k < sentences.len()
                    invariant
                        k <= sentences@.len(),
                        out.deep_view() =~= sentences.deep_view().take(k as int),
                    decreases sentences@.len() - k,
                {
                    let ghost before = out.deep_view();
                    let s = sentences[k].clone();
                    out.push(s);
                    assert(out.deep_view() =~= before.push(sentences@[k as int]@));
                    assert(sentences.deep_view().take(k + 1) =~= sentences.deep_view().take(k as int).push(sentences@[k as int]@));
                    k += 1;
                }
                assert(sentences.deep_view().take(k as int) =~= sentences.deep_view());
                out
            },
            NarrationGrouping::Paragraph { target_characters } => {
                let target = *target_characters as usize;
                let ghost ss = sentences.deep_view();
                let mut out: Vec<String> = Vec::new();
                let mut current: Vec<char> = Vec::new();
                let mut k: usize = 0;
                assert(ss.skip(0) =~= ss);
                while k < sentences.len()
                    invariant
                        k <= sentences@.len(),
                        ss == sentences.deep_view(),
                        target == *target_characters as int,
                        out.deep_view() + paragraphs_from(ss.skip(k as int), target as int, current@)
                            == paragraphs_from(ss, target as int, Seq::empty()),
                    decreases sentences@.len() - k,
                {
                    let ghost before = out.deep_view();
                    let ghost cur0 = current@;
                    assert(ss.skip(k as int).drop_first() =~= ss.skip(k + 1));
                    assert(ss.skip(k as int)[0] == sentences@[k as int]@);
                    let piece = chars_of(sentences[k].as_str());
                    if current.len() > 0 {
                        current.push(' ');
                    }
                    let mut j: usize = 0;
                    let ghost mid = current@;
                    while j < piece.len()
                        invariant
                            j <= piece@.len(),
                            current@ == mid + piece@.take(j as int),
                        decreases piece@.len() - j,
                    {
                        current.push(piece[j]);
                        j += 1;
                        assert(current@ =~= mid + piece@.take(j as int));
                    }
                    assert(piece@.take(j as int) =~= piece@);
                    assert(current@ =~= join_with_space(cur0, piece@));
                    if current.len() >= target {
                        let s = string_from_chars(current.as_slice());
                        out.push(s);
                        assert(out.deep_view() =~= before + seq![join_with_space(cur0, piece@)]);
                        current = Vec::new();
                        assert(out.deep_view() + paragraphs_from(ss.skip(k + 1), target as int, current@)
                            =~= before + paragraphs_from(ss.skip(k as int), target as int, cur0));
                    }
                    k += 1;
                }
                let ghost before = out.deep_view();
                assert(ss.skip(k as int).len() == 0);
                if current.len() > 0 {
                    let s = string_from_chars(current.as_slice());
                    out.push(s);
                    assert(out.deep_view() =~= before + seq![current@]);
                } else {
                    assert(out.deep_view() =~= before + Seq::<Seq<char>>::empty());
                }
                assert(ss.skip(0) =~= ss);
                out
            },
        }
    }
}

/// Splits narration text into sentences.
pub struct SentenceSegmenter;

impl SentenceSegmenter {
    /// A shared segmenter.
    pub fn new() -> (r: Arc<Self>) {
        Arc::new(SentenceSegmenter)
    }

    /// The sentences of `text` (see [`split_sentences`]).
    pub fn sentences(&self, text: String) -> (res: Vec<String>)
        ensures
            res.deep_view() == sentences(text@),
    {
        split_sentences(text.as_str())
    }
}


/// A char passed over when looking for the last spoken char before a boundary:
/// whitespace, quotes and closing brackets.
pub open spec fn boundary_skip(c: char) -> bool {
    ||| c == ' ' ||| c == '\n' ||| c == '\t' ||| c == '"' ||| c == '\'' ||| c == ')' ||| c == ']'
    ||| c == '}' ||| c == '\u{bb}' ||| c == '\u{201d}' ||| c == '\u{2019}'
}

/// A mark after which a change of speaker takes a pause (`.!?…,;:—–`).
pub open spec fn pause_mark(c: char) -> bool {
    ||| c == '.' ||| c == '!' ||| c == '?' ||| c == '\u{2026}' ||| c == ',' ||| c == ';' ||| c == ':'
    ||| c == '\u{2014}' ||| c == '\u{2013}'
}

/// The last char of `t` that is not passed over, if any.
pub open spec fn last_spoken(t: Seq<char>) -> Option<char>
    decreases t.len(),
{
    if t.len() == 0 {
        None
    } else if boundary_skip(t.last()) {
        last_spoken(t.drop_last())
    } else {
        Some(t.last())
    }
}

/// A span after one of text `prev` needs a pause before it: its speaker differs
/// from the previous span's, and `prev` ends (before any quotes, brackets and
/// whitespace) with a pause mark.
pub open spec fn needs_pause(prev: Seq<char>, prev_speaker: Option<Seq<char>>, speaker: Option<Seq<char>>) -> bool {
    prev_speaker != speaker && match last_spoken(prev) {
        Some(c) => pause_mark(c),
        None => false,
    }
}

fn is_boundary_skip(c: char) -> (r: bool)
    ensures
        r == boundary_skip(c),
{
    c == ' ' || c == '\n' || c == '\t' || c == '"' || c == '\'' || c == ')' || c == ']' || c == '}'
        || c == '\u{bb}' || c == '\u{201d}' || c == '\u{2019}'
}

/// Whether a span after one of text `prev` needs a pause before it (see
/// `needs_pause`).
pub fn needs_boundary_pause(prev: &str, prev_speaker: &Option<String>, speaker: &Option<String>) -> (r: bool)
    ensures
        r == needs_pause(prev@, opt_chars(*prev_speaker), opt_chars(*speaker)),
{
    if same_speaker(prev_speaker, speaker) {
        return false;
    }
    match last_spoken_of(prev) {
        Some(c) => c == '.' || c == '!' || c == '?' || c == '\u{2026}' || c == ',' || c == ';' || c == ':' || c
            == '\u{2014}' || c == '\u{2013}',
        None => false,
    }
}


/// The pause a phrase ends with.
#[derive(Clone, Copy, Debug, PartialEq, Eq, Structural)]
pub enum PauseKind {
    /// After `.`, `!`, `?` or `…`.
    Sentence,
    /// After `,`, `;`, `:`, `—` or `–`.
    Clause,
    /// After anything else, or nothing.
    NoPause,
}

/// The pause after text `t`, by its last spoken char (see `last_spoken`).
pub open spec fn pause_kind_of(t: Seq<char>) -> PauseKind {
    match last_spoken(t) {
        Some(c) => if c == '.' || c == '!' || c == '?' || c == '\u{2026}' {
            PauseKind::Sentence
        } else if c == ',' || c == ';' || c == ':' || c == '\u{2014}' || c == '\u{2013}' {
            PauseKind::Clause
        } else {
            PauseKind::NoPause
        },
        None => PauseKind::NoPause,
    }
}

/// The last spoken char of `t` (see `last_spoken`).
fn last_spoken_of(t: &str) -> (r: Option<char>)
    ensures
        r == last_spoken(t@),
{
    let cs = chars_of(t);
    let mut k = cs.len();
    assert(cs@.take(k as int) =~= cs@);
    while k > 0 && is_boundary_skip(cs[k - 1])
        invariant
            k <= cs@.len(),
            cs@ == t@,
            last_spoken(cs@) == last_spoken(cs@.take(k as int)),
        decreases k,
    {
        assert(cs@.take(k as int).drop_last() =~= cs@.take(k - 1));
        k -= 1;
    }
    if k == 0 {
        assert(cs@.take(0) =~= Seq::<char>::empty());
        return None;
    }
    assert(cs@.take(k as int).last() == cs@[k - 1]);
    Some(cs[k - 1])
}

/// The pause after `text` (see `pause_kind_of`).
pub fn pause_kind(text: &str) -> (r: PauseKind)
    ensures
        r == pause_kind_of(text@),
{
    match last_spoken_of(text) {
        Some(c) => if c == '.' || c == '!' || c == '?' || c == '\u{2026}' {
            PauseKind::Sentence
        } else if c == ',' || c == ';' || c == ':' || c == '\u{2014}' || c == '\u{2013}' {
            PauseKind::Clause
        } else {
            PauseKind::NoPause
        },
        None => PauseKind::NoPause,
    }
}

/// The abbreviations whose period does not end a sentence: titles (Mr, Mrs, Ms, Dr,
/// Prof, Sr, Jr, St, Gen, Col, Lt, Capt, Sgt, Rep, Sen), company words (Co, Corp,
/// Inc, Ltd), months (Jan to Dec, but May), and approx, vs, eg, ie, ca, vol, ed,
/// pp, al, etc, a.m, p.m, cf.
pub open spec fn listed_abbreviation(l: Seq<char>) -> bool {
    l == "mr"@ || l == "mrs"@ || l == "ms"@ || l == "dr"@ || l == "prof"@ || l == "sr"@ || l == "jr"@ || l == "st"@ || l == "co"@ || l == "corp"@ || l == "inc"@ || l == "ltd"@ || l == "approx"@ || l == "vs"@ || l == "eg"@ || l == "ie"@ || l == "ca"@ || l == "jan"@ || l == "feb"@ || l == "mar"@ || l == "apr"@ || l == "jun"@ || l == "jul"@ || l == "aug"@ || l == "sep"@ || l == "oct"@ || l == "nov"@ || l == "dec"@ || l == "gen"@ || l == "col"@ || l == "lt"@ || l == "capt"@ || l == "sgt"@ || l == "rep"@ || l == "sen"@ || l == "vol"@ || l == "ed"@ || l == "pp"@ || l == "al"@ || l == "etc"@ || l == "a.m"@ || l == "p.m"@ || l == "cf"@
}

/// A period written right after a listed abbreviation (in any case) never ends a
/// sentence: in "Dr. Watson came in." the sentence runs on past "Dr.".
pub proof fn law_abbreviation_period_does_not_end_sentence(cs: Seq<char>, i: int)
    requires
        0 < i < cs.len(),
        cs[i] == '.',
        word_before(cs, i).len() > 0,
        listed_abbreviation(lowercase_str(word_before(cs, i))),
    ensures
        !ends_sentence(cs, i),
        abbreviation(lowercase_str(word_before(cs, i))),
{
}

/// A sentence is cut only where a terminal mark ends one: scanning on from `i`,
/// a cut is made at some `j >= i` with `ends_sentence(cs, j)`, so never at the
/// period of a listed abbreviation.
pub proof fn law_sentences_cut_only_at_ends(cs: Seq<char>, start: int, i: int)
    requires
        0 <= start <= i < cs.len(),
        sentences_from(cs, start, i) != nonempty_piece(trim(cs.subrange(start, cs.len() as int))),
    ensures
        exists|j: int| i <= j < cs.len() && #[trigger] ends_sentence(cs, j),
    decreases cs.len() - i,
{
    if ends_sentence(cs, i) && i <= sentence_end(cs, i) < cs.len() {
    } else if i + 1 < cs.len() {
        law_sentences_cut_only_at_ends(cs, start, i + 1);
    } else {
        assert(sentences_from(cs, start, i) == sentences_from(cs, start, i + 1));
    }
}

/// The marks that end a sentence are ".", "?", "!" and "…"; the closing marks that
/// stay with it are straight and curly closing quotes, "»" and closing brackets.
pub proof fn law_sentence_marks(c: char)
    ensures
        terminal_char(c) <==> (c == '.' || c == '?' || c == '!' || c == '\u{2026}'),
        closing_char(c) <==> (c == '"' || c == '\'' || c == '\u{201d}' || c == '\u{2019}' || c == '\u{bb}'
            || c == ')' || c == ']' || c == '}'),
{
}

} // verus!
