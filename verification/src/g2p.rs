//! Grapheme-to-phoneme data types and word splitting.

use std::sync::Arc;
use vstd::prelude::*;
use vstd::pervasive::VecAdditionalExecFns;
use crate::dictionary::currency_units;
use crate::phonemes::{apply_stress, holds, holds_char, is_vowel, same_weight, stress_applied, vowel, weights_equal, StressLevel, StressWeight};
use crate::dictionary::{token_reading, token_reading_ok, weight, Lexicon};
use crate::lexicon::TokenContext;
use crate::tagger::{copy_opt, opt_chars, InternalMToken, InternalUnderscore, TokenView};
use crate::text::{
    alphabetic_char, chars_of, is_alphabetic, is_lowercase, is_numeric, is_uppercase, lowercase_char,
    extend_chars, is_whitespace, numeric_char, replace_all, replaced, str_empty, str_eq, whitespace_char, string_from_chars, string_from_range, uppercase_char,
};

verus! {

/// The phonemes of one token and the whitespace that followed it.
#[derive(Clone, Debug, PartialEq)]
pub struct TokenPhonemes {
    pub phonemes: String,
    pub whitespace: String,
}

/// A tagged token with its (optional) phonemes, as handed to the acoustic pipeline.
#[derive(Clone, Debug)]
pub struct MToken {
    pub text: String,
    pub tag: String,
    pub whitespace: String,
    pub phonemes: Option<String>,
}

impl View for MToken {
    type V = (Seq<char>, Seq<char>, Seq<char>, Option<Seq<char>>);

    open spec fn view(&self) -> (Seq<char>, Seq<char>, Seq<char>, Option<Seq<char>>) {
        (self.text@, self.tag@, self.whitespace@, opt_chars(self.phonemes))
    }
}

/// What a caller sees of a token: its text, tag, whitespace and phonemes.
pub open spec fn shown(t: TokenView) -> (Seq<char>, Seq<char>, Seq<char>, Option<Seq<char>>) {
    (t.text, t.tag, t.whitespace, t.phonemes)
}

/// `'`, `‘` or `’`.
pub open spec fn apostrophe(c: char) -> bool {
    c == '\'' || c == '\u{2018}' || c == '\u{2019}'
}

/// `-` or `_`.
pub open spec fn joiner(c: char) -> bool {
    c == '-' || c == '_'
}

/// The weight by which the tag of a merged token is chosen: 2 per uppercase
/// char, 1 per other char.
pub open spec fn case_weight_of(s: Seq<char>) -> int
    decreases s.len(),
{
    if s.len() == 0 {
        0
    } else {
        case_weight_of(s.drop_last()) + if uppercase_char(s.last()) {
            2int
        } else {
            1int
        }
    }
}

/// End of the run of apostrophes that starts at `i`.
pub open spec fn apostrophe_run_end(w: Seq<char>, i: int) -> int
    decreases w.len() - i,
{
    if 0 <= i < w.len() && apostrophe(w[i]) {
        apostrophe_run_end(w, i + 1)
    } else {
        i
    }
}

/// End of the run of `-` and `_` that starts at `i`.
pub open spec fn joiner_run_end(w: Seq<char>, i: int) -> int
    decreases w.len() - i,
{
    if 0 <= i < w.len() && joiner(w[i]) {
        joiner_run_end(w, i + 1)
    } else {
        i
    }
}

/// End of the number that starts at `i`: numeric chars, where a `.` or `,`
/// counts when a numeric char follows it.
pub open spec fn number_end(w: Seq<char>, i: int) -> int
    decreases w.len() - i,
{
    if 0 <= i < w.len() {
        if numeric_char(w[i]) {
            number_end(w, i + 1)
        } else if (w[i] == '.' || w[i] == ',') && i + 1 < w.len() && numeric_char(w[i + 1]) {
            number_end(w, i + 2)
        } else {
            i
        }
    } else {
        i
    }
}

/// Whether an alphabetic run splits before `w[j]`, given the char `last` before it:
/// a lowercase-to-uppercase step, or an uppercase char between an uppercase char
/// and a lowercase one (the last capital of an acronym starts a new word).
pub open spec fn case_break(w: Seq<char>, j: int, last: char) -> bool {
    ||| lowercase_char(last) && uppercase_char(w[j])
    ||| uppercase_char(last) && uppercase_char(w[j]) && j + 1 < w.len() && lowercase_char(w[j + 1])
}

/// Whether the apostrophe at `i` stands apart: at either end of the word, or next
/// to another apostrophe.
pub open spec fn apostrophe_apart(w: Seq<char>, i: int) -> bool {
    ||| i == 0
    ||| i + 1 == w.len()
    ||| i + 1 < w.len() && apostrophe(w[i + 1])
    ||| i > 0 && apostrophe(w[i - 1])
}

pub proof fn lemma_run_ends(w: Seq<char>, i: int)
    requires
        0 <= i <= w.len(),
    ensures
        i <= apostrophe_run_end(w, i) <= w.len(),
        i <= joiner_run_end(w, i) <= w.len(),
        i <= number_end(w, i) <= w.len(),
        i < w.len() && apostrophe(w[i]) ==> i < apostrophe_run_end(w, i),
        i < w.len() && joiner(w[i]) ==> i < joiner_run_end(w, i),
        i < w.len() && numeric_char(w[i]) ==> i < number_end(w, i),
    decreases w.len() - i,
{
    if i < w.len() {
        lemma_run_ends(w, i + 1);
        if i + 2 <= w.len() {
            lemma_run_ends(w, i + 2);
        }
    }
}

/// The pieces of `w` from `i` on, where `i` starts a new piece.
pub open spec fn subtokens_from(w: Seq<char>, i: int) -> Seq<Seq<char>>
    decreases w.len() - i, 0int,
{
    if 0 <= i < w.len() {
        proof {
            lemma_run_ends(w, i);
        }
        let c = w[i];
        if apostrophe(c) && apostrophe_apart(w, i) {
            let e = apostrophe_run_end(w, i);
            seq![w.subrange(i, e)] + subtokens_from(w, e)
        } else if joiner(c) {
            let e = joiner_run_end(w, i);
            seq![w.subrange(i, e)] + subtokens_from(w, e)
        } else if numeric_char(c) {
            let e = number_end(w, i);
            seq![w.subrange(i, e)] + subtokens_from(w, e)
        } else if alphabetic_char(c) {
            alpha_pieces(w, i + 1, seq![c])
        } else {
            seq![seq![c]] + subtokens_from(w, i + 1)
        }
    } else {
        Seq::empty()
    }
}

/// The pieces of `w` from `j` on, inside an alphabetic run whose piece so far is `cur`.
/// An apostrophe between two letters stays inside the run.
pub open spec fn alpha_pieces(w: Seq<char>, j: int, cur: Seq<char>) -> Seq<Seq<char>>
    decreases w.len() - j, 1int,
{
    if 0 <= j < w.len() && alphabetic_char(w[j]) {
        if cur.len() > 0 && case_break(w, j, cur.last()) {
            seq![cur] + alpha_pieces(w, j + 1, seq![w[j]])
        } else {
            alpha_pieces(w, j + 1, cur.push(w[j]))
        }
    } else if 0 <= j && j + 1 < w.len() && apostrophe(w[j]) && alphabetic_char(w[j + 1]) {
        alpha_pieces(w, j + 2, cur.push(w[j]).push(w[j + 1]))
    } else {
        seq![cur] + subtokens_from(w, j)
    }
}

/// The pieces that a word splits into: runs of apostrophes that stand apart, runs of
/// `-`/`_`, numbers (with inner `.`/`,`), alphabetic runs split at case changes, and
/// every other char on its own.
pub open spec fn subtokens(w: Seq<char>) -> Seq<Seq<char>> {
    subtokens_from(w, 0)
}

/// All pieces concatenated.
pub open spec fn concat_pieces(ps: Seq<Seq<char>>) -> Seq<char>
    decreases ps.len(),
{
    if ps.len() == 0 {
        Seq::empty()
    } else {
        ps[0] + concat_pieces(ps.drop_first())
    }
}

proof fn lemma_concat_cons(a: Seq<char>, rest: Seq<Seq<char>>)
    ensures
        concat_pieces(seq![a] + rest) == a + concat_pieces(rest),
{
    assert((seq![a] + rest).drop_first() =~= rest);
}

proof fn lemma_subtokens_from_partition(w: Seq<char>, i: int)
    requires
        0 <= i <= w.len(),
    ensures
        concat_pieces(subtokens_from(w, i)) == w.subrange(i, w.len() as int),
        forall|k: int| 0 <= k < subtokens_from(w, i).len() ==> #[trigger] subtokens_from(w, i)[k].len() > 0,
    decreases w.len() - i, 0int,
{
    lemma_run_ends(w, i);
    if i < w.len() {
        let c = w[i];
        let ps = subtokens_from(w, i);
        if (apostrophe(c) && apostrophe_apart(w, i)) || joiner(c) || numeric_char(c) {
            let e = if apostrophe(c) && apostrophe_apart(w, i) {
                apostrophe_run_end(w, i)
            } else if joiner(c) {
                joiner_run_end(w, i)
            } else {
                number_end(w, i)
            };
            lemma_subtokens_from_partition(w, e);
            lemma_concat_cons(w.subrange(i, e), subtokens_from(w, e));
            assert(ps == seq![w.subrange(i, e)] + subtokens_from(w, e));
            assert(w.subrange(i, e) + w.subrange(e, w.len() as int) =~= w.subrange(i, w.len() as int));
            assert forall|k: int| 0 <= k < ps.len() implies #[trigger] ps[k].len() > 0 by {
                if k > 0 {
                    assert(ps[k] == subtokens_from(w, e)[k - 1]);
                }
            }
        } else if alphabetic_char(c) {
            lemma_alpha_pieces_partition(w, i + 1, seq![c]);
            assert(seq![c] + w.subrange(i + 1, w.len() as int) =~= w.subrange(i, w.len() as int));
        } else {
            lemma_subtokens_from_partition(w, i + 1);
            lemma_concat_cons(seq![c], subtokens_from(w, i + 1));
            assert(seq![c] + w.subrange(i + 1, w.len() as int) =~= w.subrange(i, w.len() as int));
            assert forall|k: int| 0 <= k < ps.len() implies #[trigger] ps[k].len() > 0 by {
                if k > 0 {
                    assert(ps[k] == subtokens_from(w, i + 1)[k - 1]);
                }
            }
        }
    } else {
        assert(w.subrange(i, w.len() as int) =~= Seq::<char>::empty());
    }
}

proof fn lemma_alpha_pieces_partition(w: Seq<char>, j: int, cur: Seq<char>)
    requires
        0 < j <= w.len(),
        cur.len() > 0,
    ensures
        concat_pieces(alpha_pieces(w, j, cur)) == cur + w.subrange(j, w.len() as int),
        forall|k: int|
            0 <= k < alpha_pieces(w, j, cur).len() ==> #[trigger] alpha_pieces(w, j, cur)[k].len() > 0,
    decreases w.len() - j, 1int,
{
    let ps = alpha_pieces(w, j, cur);
    if j < w.len() && alphabetic_char(w[j]) {
        if case_break(w, j, cur.last()) {
            lemma_alpha_pieces_partition(w, j + 1, seq![w[j]]);
            lemma_concat_cons(cur, alpha_pieces(w, j + 1, seq![w[j]]));
            assert(seq![w[j]] + w.subrange(j + 1, w.len() as int) =~= w.subrange(j, w.len() as int));
            assert forall|k: int| 0 <= k < ps.len() implies #[trigger] ps[k].len() > 0 by {
                if k > 0 {
                    assert(ps[k] == alpha_pieces(w, j + 1, seq![w[j]])[k - 1]);
                }
            }
        } else {
            lemma_alpha_pieces_partition(w, j + 1, cur.push(w[j]));
            assert(cur.push(w[j]) + w.subrange(j + 1, w.len() as int) =~= cur + w.subrange(
                j,
                w.len() as int,
            ));
        }
    } else if j + 1 < w.len() && apostrophe(w[j]) && alphabetic_char(w[j + 1]) {
        lemma_alpha_pieces_partition(w, j + 2, cur.push(w[j]).push(w[j + 1]));
        assert(cur.push(w[j]).push(w[j + 1]) + w.subrange(j + 2, w.len() as int) =~= cur
            + w.subrange(j, w.len() as int));
    } else {
        lemma_subtokens_from_partition(w, j);
        lemma_concat_cons(cur, subtokens_from(w, j));
        assert forall|k: int| 0 <= k < ps.len() implies #[trigger] ps[k].len() > 0 by {
            if k > 0 {
                assert(ps[k] == subtokens_from(w, j)[k - 1]);
            }
        }
    }
}

/// Splitting a word loses nothing and makes no empty piece: the pieces of `w`,
/// concatenated in order, give `w` back, and every piece holds at least one char.
pub proof fn law_subtokens_partition_word(w: Seq<char>)
    ensures
        concat_pieces(subtokens(w)) == w,
        forall|k: int| 0 <= k < subtokens(w).len() ==> #[trigger] subtokens(w)[k].len() > 0,
{
    lemma_subtokens_from_partition(w, 0);
    assert(w.subrange(0, w.len() as int) =~= w);
}

/// Weight of `text` for choosing the tag of a merged token.
pub fn case_weight(text: &str) -> (w: usize)
    requires
        text@.len() <= usize::MAX / 2,
    ensures
        w as int == case_weight_of(text@),
{
    let cs = chars_of(text);
    let mut acc: usize = 0;
    let mut k: usize = 0;
    while k < cs.len()
        invariant
            k <= cs@.len(),
            cs@.len() <= usize::MAX / 2,
            acc as int == case_weight_of(cs@.take(k as int)),
            acc <= 2 * k,
        decreases cs@.len() - k,
    {
        assert(cs@.take(k as int + 1).drop_last() =~= cs@.take(k as int));
        if is_uppercase(cs[k]) {
            acc = acc + 2;
        } else {
            acc = acc + 1;
        }
        k += 1;
    }
    assert(cs@.take(cs@.len() as int) =~= cs@);
    acc
}

/// The case weight of any text, counted wide enough not to overflow.
fn wide_case_weight(text: &str) -> (w: u128)
    ensures
        w as int == case_weight_of(text@),
{
    let cs = chars_of(text);
    let n = cs.len();
    let mut acc: u128 = 0;
    let mut k: usize = 0;
    while k < n
        invariant
            n == cs@.len(),
            k <= n,
            acc as int == case_weight_of(cs@.take(k as int)),
            acc <= 2 * k,
        decreases n - k,
    {
        assert(cs@.take(k as int + 1).drop_last() =~= cs@.take(k as int));
        if is_uppercase(cs[k]) {
            acc = acc + 2;
        } else {
            acc = acc + 1;
        }
        k += 1;
    }
    assert(cs@.take(cs@.len() as int) =~= cs@);
    acc
}

fn is_apostrophe(c: char) -> (b: bool)
    ensures
        b == apostrophe(c),
{
    c == '\'' || c == '\u{2018}' || c == '\u{2019}'
}

/// Pushes the string spelled by `cs[lo..hi]` onto `out`.
fn push_piece(out: &mut Vec<String>, cs: &Vec<char>, lo: usize, hi: usize)
    requires
        lo <= hi <= cs@.len(),
    ensures
        final(out).deep_view() == old(out).deep_view().push(cs@.subrange(lo as int, hi as int)),
{
    let ghost before = out.deep_view();
    let s = string_from_range(cs.as_slice(), lo, hi);
    out.push(s);
    assert(out.deep_view() =~= before.push(cs@.subrange(lo as int, hi as int)));
}

/// Split a word into pieces for lookup: runs of apostrophes that stand apart, runs of
/// `-`/`_`, numbers (keeping inner `.`/`,` before a digit), alphabetic runs split where
/// the case changes (`camelCase`, `HTMLParser`), and every other char on its own.
pub fn subtokenize(word: &str) -> (pieces: Vec<String>)
    ensures
        pieces.deep_view() == subtokens(word@),
{
    let cs = chars_of(word);
    let n = cs.len();
    let mut pieces: Vec<String> = Vec::new();
    let mut i: usize = 0;
    while i < n
        invariant
            n == cs@.len(),
            cs@ == word@,
            i <= n,
            pieces.deep_view() + subtokens_from(cs@, i as int) == subtokens(cs@),
        decreases n - i,
    {
        let ghost w = cs@;
        proof {
            lemma_run_ends(w, i as int);
        }
        let ghost before = pieces.deep_view();
        let c = cs[i];
        let apart = is_apostrophe(c) && (i == 0 || i + 1 == n || (i + 1 < n && is_apostrophe(
            cs[i + 1],
        )) || (i > 0 && is_apostrophe(cs[i - 1])));
        if apart {
            let mut e = i;
            while e < n && is_apostrophe(cs[e])
                invariant
                    i <= e <= n,
                    n == cs@.len(),
                    apostrophe_run_end(cs@, e as int) == apostrophe_run_end(cs@, i as int),
                decreases n - e,
            {
                e += 1;
            }
            push_piece(&mut pieces, &cs, i, e);
            assert(pieces.deep_view() + subtokens_from(w, e as int) =~= before + subtokens_from(
                w,
                i as int,
            ));
            i = e;
        } else if c == '-' || c == '_' {
            let mut e = i;
            while e < n && (cs[e] == '-' || cs[e] == '_')
                invariant
                    i <= e <= n,
                    n == cs@.len(),
                    joiner_run_end(cs@, e as int) == joiner_run_end(cs@, i as int),
                decreases n - e,
            {
                e += 1;
            }
            push_piece(&mut pieces, &cs, i, e);
            assert(pieces.deep_view() + subtokens_from(w, e as int) =~= before + subtokens_from(
                w,
                i as int,
            ));
            i = e;
        } else if is_numeric(c) {
            let mut e = i;
            loop
                invariant
                    i <= e <= n,
                    n == cs@.len(),
                    number_end(cs@, e as int) == number_end(cs@, i as int),
                ensures
                    e as int == number_end(cs@, i as int),
                decreases n - e,
            {
                if e >= n {
                    break;
                }
                if is_numeric(cs[e]) {
                    e += 1;
                } else if (cs[e] == '.' || cs[e] == ',') && e + 1 < n && is_numeric(cs[e + 1]) {
                    e += 2;
                } else {
                    break;
                }
            }
            push_piece(&mut pieces, &cs, i, e);
            assert(pieces.deep_view() + subtokens_from(w, e as int) =~= before + subtokens_from(
                w,
                i as int,
            ));
            i = e;
        } else if is_alphabetic(c) {
            let mut cur: Vec<char> = Vec::new();
            cur.push(c);
            let mut j = i + 1;
            assert(cur@ =~= seq![c]);
            assert(subtokens_from(w, i as int) == alpha_pieces(w, i + 1, seq![c]));
            loop
                invariant
                    i < j <= n,
                    n == cs@.len(),
                    cs@ == w,
                    cur@.len() > 0,
                    pieces.deep_view() + alpha_pieces(w, j as int, cur@) == subtokens(w),
                ensures
                    i < j <= n,
                    pieces.deep_view() + seq![cur@] + subtokens_from(w, j as int) == subtokens(w),
                decreases n - j,
            {
                let ghost mid = pieces.deep_view();
                if j < n && is_alphabetic(cs[j]) {
                    let last = cur[cur.len() - 1];
                    let next = cs[j];
                    let upper_next = is_uppercase(next);
                    let brk = (is_lowercase(last) && upper_next) || (is_uppercase(last) && upper_next
                        && j + 1 < n && is_lowercase(cs[j + 1]));
                    assert(cur@.last() == last);
                    let ghost old_cur = cur@;
                    if brk {
                        let s = string_from_chars(cur.as_slice());
                        pieces.push(s);
                        assert(pieces.deep_view() =~= mid.push(cur@));
                        cur = Vec::new();
                        cur.push(next);
                        assert(cur@ =~= seq![next]);
                        assert(alpha_pieces(w, j as int, old_cur) == seq![old_cur] + alpha_pieces(
                            w,
                            j + 1,
                            seq![next],
                        ));
                        assert(pieces.deep_view() + alpha_pieces(w, j + 1, cur@) =~= mid
                            + alpha_pieces(w, j as int, old_cur));
                    } else {
                        cur.push(next);
                    }
                    j += 1;
                } else if n - j > 1 && is_apostrophe(cs[j]) && is_alphabetic(cs[j + 1]) {
                    cur.push(cs[j]);
                    cur.push(cs[j + 1]);
                    j += 2;
                } else {
                    break;
                }
            }
            let ghost mid = pieces.deep_view();
            let s = string_from_chars(cur.as_slice());
            pieces.push(s);
            assert(pieces.deep_view() =~= mid.push(cur@));
            assert(pieces.deep_view() + subtokens_from(w, j as int) =~= mid + seq![cur@]
                + subtokens_from(w, j as int));
            i = j;
        } else {
            push_piece(&mut pieces, &cs, i, i + 1);
            assert(w.subrange(i as int, i + 1) =~= seq![c]);
            assert(pieces.deep_view() + subtokens_from(w, i + 1) =~= before + subtokens_from(
                w,
                i as int,
            ));
            i += 1;
        }
    }
    assert(pieces.deep_view() =~= pieces.deep_view() + subtokens_from(cs@, n as int));
    pieces
}


/// A unit of retokenized tokens as text: a token on its own, or a group of tokens
/// with no whitespace between them.
pub enum UnitView {
    Token(TokenView),
    Group(Seq<TokenView>),
}

/// A retokenized unit: a token on its own, or tokens written together.
pub enum TokenUnit {
    Token(InternalMToken),
    Group(Vec<InternalMToken>),
}

impl View for TokenUnit {
    type V = UnitView;

    open spec fn view(&self) -> UnitView {
        match self {
            TokenUnit::Token(t) => UnitView::Token(t@),
            TokenUnit::Group(g) => UnitView::Group(g.deep_view()),
        }
    }
}

impl DeepView for TokenUnit {
    type V = UnitView;

    open spec fn deep_view(&self) -> UnitView {
        self@
    }
}

/// A piece of token `t` spelled `text`: the token's tag, stress and number flags,
/// nothing else noted.
pub open spec fn piece_view(t: TokenView, text: Seq<char>) -> TokenView {
    TokenView {
        text,
        tag: t.tag,
        whitespace: Seq::empty(),
        phonemes: None,
        is_head: true,
        alias: None,
        stress: t.stress,
        currency: None,
        num_flags: t.num_flags,
        prespace: false,
        rating: None,
    }
}

/// The pieces a token splits into: its sub-tokens when nothing is known of it yet,
/// else the token itself; the last piece takes the token's whitespace.
pub open spec fn pieces_of(t: TokenView) -> Seq<TokenView> {
    let raw = if t.alias is None && t.phonemes is None {
        Seq::new(subtokens(t.text).len(), |k: int| piece_view(t, subtokens(t.text)[k]))
    } else {
        seq![t]
    };
    if raw.len() == 0 {
        raw
    } else {
        raw.update(raw.len() - 1, TokenView { whitespace: t.whitespace, ..raw.last() })
    }
}

/// Tags of punctuation.
pub open spec fn punct_tag(tag: Seq<char>) -> bool {
    ||| tag == "."@ ||| tag == ","@ ||| tag == "-LRB-"@ ||| tag == "-RRB-"@ ||| tag == "``"@
    ||| tag == "\"\""@ ||| tag == "''"@ ||| tag == ":"@ ||| tag == "$"@ ||| tag == "#"@ ||| tag == "NFP"@
}

/// Punctuation kept in phonemes.
pub open spec fn kept_punct(c: char) -> bool {
    ||| c == ';' ||| c == ':' ||| c == ',' ||| c == '.' ||| c == '!' ||| c == '?' ||| c == '\u{2014}'
    ||| c == '\u{2026}' ||| c == '"' ||| c == '\u{201c}' ||| c == '\u{201d}'
}

/// The punctuation of `t` that phonemes keep.
pub open spec fn kept_puncts(t: Seq<char>) -> Seq<char>
    decreases t.len(),
{
    if t.len() == 0 {
        t
    } else if kept_punct(t.last()) {
        kept_puncts(t.drop_last()).push(t.last())
    } else {
        kept_puncts(t.drop_last())
    }
}

/// The phonemes of a punctuation token: brackets and quotes by tag, else the
/// punctuation it holds.
pub open spec fn punct_phonemes(tag: Seq<char>, text: Seq<char>) -> Seq<char> {
    if tag == "-LRB-"@ {
        "("@
    } else if tag == "-RRB-"@ {
        ")"@
    } else if tag == "``"@ {
        "\u{201c}"@
    } else if tag == "\"\""@ || tag == "''"@ {
        "\u{201d}"@
    } else {
        kept_puncts(text)
    }
}

/// An ASCII letter.
pub open spec fn ascii_letter(c: char) -> bool {
    ('a' <= c && c <= 'z') || ('A' <= c && c <= 'Z')
}

/// Every char is an ASCII letter (so for no chars at all).
pub open spec fn all_ascii_letters(t: Seq<char>) -> bool {
    forall|k: int| 0 <= k < t.len() ==> ascii_letter(#[trigger] t[k])
}

/// A piece `2` between letters is read `to`.
pub open spec fn spelled_to(ps: Seq<TokenView>, pi: int) -> bool {
    &&& 0 < pi && pi + 1 < ps.len()
    &&& ps[pi].text == "2"@
    &&& ps[pi - 1].text.len() > 0 && ps[pi + 1].text.len() > 0
    &&& ascii_letter(ps[pi - 1].text.last()) && ascii_letter(ps[pi + 1].text[0])
}

/// The last unit is a group whose last token has no whitespace after it.
pub open spec fn open_group(units: Seq<UnitView>) -> bool {
    units.len() > 0 && (units.last() matches UnitView::Group(g) && g.len() > 0 && g.last().whitespace.len() == 0)
}

/// `units` with `t` added on its own.
pub open spec fn standalone(units: Seq<UnitView>, t: TokenView) -> Seq<UnitView> {
    units.push(UnitView::Token(t))
}

/// `units` with an ordinary token added: joined (as a non-head) to an open group,
/// else starting a group when no whitespace follows it, else on its own.
pub open spec fn ordinary(units: Seq<UnitView>, t: TokenView) -> Seq<UnitView> {
    if open_group(units) {
        units.update(units.len() - 1, UnitView::Group(units.last()->Group_0.push(TokenView { is_head: false, ..t })))
    } else if t.whitespace.len() == 0 {
        units.push(UnitView::Group(seq![t]))
    } else {
        units.push(UnitView::Token(t))
    }
}

/// The units so far and the currency a number would amount to.
pub type RetokenState = (Seq<UnitView>, Option<Seq<char>>);

/// Piece `pi` of token `ti` placed: known pieces, currency symbols (remembered),
/// dashes and punctuation stand alone with their phonemes; a number after a
/// currency symbol takes the currency on its last piece; `2` between letters is
/// read `to`; the rest are ordinary.
pub open spec fn piece_step(tokens: Seq<TokenView>, ti: int, ps: Seq<TokenView>, pi: int, st: RetokenState) -> RetokenState {
    let p = ps[pi];
    let units = st.0;
    let cur = st.1;
    if p.alias is Some || p.phonemes is Some {
        (standalone(units, p), cur)
    } else if p.tag == "$"@ && currency_units(p.text) is Some {
        (standalone(units, TokenView { phonemes: Some(Seq::empty()), rating: Some(4i32), ..p }), Some(p.text))
    } else if p.tag == ":"@ && (p.text == "-"@ || p.text == "\u{2013}"@ || p.text == "\u{2014}"@) {
        (standalone(units, TokenView { phonemes: Some("\u{2014}"@), rating: Some(3i32), ..p }), cur)
    } else if punct_tag(p.tag) && !all_ascii_letters(p.text) {
        (standalone(units, TokenView { phonemes: Some(punct_phonemes(p.tag, p.text)), rating: Some(4i32), ..p }), cur)
    } else {
        let last_piece = pi == ps.len() - 1 && (ti + 1 == tokens.len() || tokens[ti + 1].tag != "CD"@);
        let cur2 = if cur is Some && p.tag != "CD"@ {
            None
        } else {
            cur
        };
        let p2 = if cur is Some && p.tag == "CD"@ && last_piece {
            TokenView { currency: cur, ..p }
        } else {
            p
        };
        let p3 = if spelled_to(ps, pi) {
            TokenView { alias: Some("to"@), ..p2 }
        } else {
            p2
        };
        if p3.alias is Some || p3.phonemes is Some {
            (standalone(units, p3), cur2)
        } else {
            (ordinary(units, p3), cur2)
        }
    }
}

/// Pieces `pi..` of token `ti` placed.
pub open spec fn pieces_fold(tokens: Seq<TokenView>, ti: int, ps: Seq<TokenView>, pi: int, st: RetokenState) -> RetokenState
    decreases ps.len() - pi,
{
    if pi < 0 || pi >= ps.len() {
        st
    } else {
        pieces_fold(tokens, ti, ps, pi + 1, piece_step(tokens, ti, ps, pi, st))
    }
}

/// Tokens `ti..` placed.
pub open spec fn tokens_fold(tokens: Seq<TokenView>, ti: int, st: RetokenState) -> RetokenState
    decreases tokens.len() - ti,
{
    if ti < 0 || ti >= tokens.len() {
        st
    } else {
        tokens_fold(tokens, ti + 1, pieces_fold(tokens, ti, pieces_of(tokens[ti]), 0, st))
    }
}

/// A group of one token becomes that token.
pub open spec fn settled(u: UnitView) -> UnitView {
    match u {
        UnitView::Group(g) => if g.len() == 1 {
            UnitView::Token(g[0])
        } else {
            u
        },
        UnitView::Token(t) => u,
    }
}

/// The units that tokens are regrouped into for lookup.
pub open spec fn retokenized(tokens: Seq<TokenView>) -> Seq<UnitView> {
    let units = tokens_fold(tokens, 0, (Seq::empty(), None)).0;
    Seq::new(units.len(), |k: int| settled(units[k]))
}


/// The pieces a token splits into (see `pieces_of`).
fn token_pieces(t: &InternalMToken) -> (ps: Vec<InternalMToken>)
    ensures
        ps.deep_view() == pieces_of(t@),
{
    let mut raw: Vec<InternalMToken> = Vec::new();
    let ghost tv = t@;
    if t.underscore.alias.is_none() && t.phonemes.is_none() {
        let subs = subtokenize(t.text.as_str());
        let ghost sv = subs.deep_view();
        let mut k: usize = 0;
        while k < subs.len()
            invariant
                tv == t@,
                sv == subs.deep_view(),
                sv == subtokens(tv.text),
                k <= sv.len(),
                raw.deep_view() == Seq::new(k as nat, |j: int| piece_view(tv, sv[j])),
            decreases sv.len() - k,
        {
            let piece = InternalMToken {
                text: String::from_str(subs[k].as_str()),
                tag: String::from_str(t.tag.as_str()),
                whitespace: String::new(),
                phonemes: None,
                underscore: InternalUnderscore {
                    is_head: true,
                    alias: None,
                    stress: t.underscore.stress,
                    currency: None,
                    num_flags: String::from_str(t.underscore.num_flags.as_str()),
                    prespace: false,
                    rating: None,
                },
            };
            assert(piece@ =~= piece_view(tv, sv[k as int]));
            let ghost before = raw.deep_view();
            raw.push(piece);
            assert(raw.deep_view() =~= before.push(piece_view(tv, sv[k as int])));
            k += 1;
            assert(raw.deep_view() =~= Seq::new(k as nat, |j: int| piece_view(tv, sv[j])));
        }
    } else {
        raw.push(t.clone_token());
        assert(raw.deep_view() =~= seq![tv]);
    }
    let ghost rv = raw.deep_view();
    if raw.len() > 0 {
        match raw.pop() {
            Some(mut last) => {
                last.whitespace = String::from_str(t.whitespace.as_str());
                let ghost lv = last@;
                raw.push(last);
                assert(lv =~= TokenView { whitespace: tv.whitespace, ..rv.last() });
                assert(raw.deep_view() =~= rv.update(rv.len() - 1, lv));
            },
            None => {},
        }
    }
    raw
}

/// Whether a text is a currency symbol.
fn is_currency_symbol(t: &str) -> (b: bool)
    ensures
        b == (currency_units(t@) is Some),
{
    str_eq(t, "$") || str_eq(t, "\u{a3}") || str_eq(t, "\u{20ac}")
}

/// Whether a tag is a punctuation tag.
fn is_punct_tag(tag: &str) -> (b: bool)
    ensures
        b == punct_tag(tag@),
{
    str_eq(tag, ".") || str_eq(tag, ",") || str_eq(tag, "-LRB-") || str_eq(tag, "-RRB-") || str_eq(tag, "``")
        || str_eq(tag, "\"\"") || str_eq(tag, "''") || str_eq(tag, ":") || str_eq(tag, "$") || str_eq(tag, "#")
        || str_eq(tag, "NFP")
}

/// Whether every char of a text is an ASCII letter.
fn only_ascii_letters(t: &str) -> (b: bool)
    ensures
        b == all_ascii_letters(t@),
{
    let cs = chars_of(t);
    let mut k: usize = 0;
    while k < cs.len()
        invariant
            cs@ == t@,
            k <= cs@.len(),
            forall|j: int| 0 <= j < k ==> ascii_letter(#[trigger] cs@[j]),
        decreases cs@.len() - k,
    {
        let c = cs[k];
        if !(('a' <= c && c <= 'z') || ('A' <= c && c <= 'Z')) {
            assert(!ascii_letter(cs@[k as int]));
            return false;
        }
        k += 1;
    }
    true
}

/// The phonemes of a punctuation token (see `punct_phonemes`).
fn punct_phonemes_of(tag: &str, text: &str) -> (r: String)
    ensures
        r@ == punct_phonemes(tag@, text@),
{
    if str_eq(tag, "-LRB-") {
        return String::from_str("(");
    }
    if str_eq(tag, "-RRB-") {
        return String::from_str(")");
    }
    if str_eq(tag, "``") {
        return String::from_str("\u{201c}");
    }
    if str_eq(tag, "\"\"") || str_eq(tag, "''") {
        return String::from_str("\u{201d}");
    }
    let cs = chars_of(text);
    let mut out: Vec<char> = Vec::new();
    let mut k: usize = 0;
    while k < cs.len()
        invariant
            cs@ == text@,
            k <= cs@.len(),
            out@ == kept_puncts(cs@.take(k as int)),
        decreases cs@.len() - k,
    {
        assert(cs@.take(k + 1).drop_last() =~= cs@.take(k as int));
        let c = cs[k];
        if c == ';' || c == ':' || c == ',' || c == '.' || c == '!' || c == '?' || c == '\u{2014}' || c == '\u{2026}'
            || c == '"' || c == '\u{201c}' || c == '\u{201d}' {
            out.push(c);
        }
        k += 1;
    }
    assert(cs@.take(cs@.len() as int) =~= cs@);
    string_from_chars(out.as_slice())
}

/// Whether piece `pi` is a `2` between letters (see `spelled_to`).
fn is_spelled_to(ps: &Vec<InternalMToken>, pi: usize) -> (b: bool)
    requires
        pi < ps@.len(),
    ensures
        b == spelled_to(ps.deep_view(), pi as int),
{
    if pi == 0 || pi >= ps.len() - 1 {
        return false;
    }
    if !str_eq(ps[pi].text.as_str(), "2") {
        return false;
    }
    let left = chars_of(ps[pi - 1].text.as_str());
    let right = chars_of(ps[pi + 1].text.as_str());
    if left.len() == 0 || right.len() == 0 {
        return false;
    }
    let l = left[left.len() - 1];
    let r = right[0];
    (('a' <= l && l <= 'z') || ('A' <= l && l <= 'Z')) && (('a' <= r && r <= 'z') || ('A' <= r && r <= 'Z'))
}

/// Add an ordinary token to the units (see `ordinary`).
fn add_ordinary(units: &mut Vec<TokenUnit>, t: InternalMToken)
    ensures
        final(units).deep_view() == ordinary(old(units).deep_view(), t@),
{
    let ghost before = units.deep_view();
    let mut t = t;
    let ghost tv = t@;
    if units.len() > 0 {
        match units.pop() {
            Some(TokenUnit::Group(mut g)) => {
                assert(units.deep_view() =~= before.drop_last());
                let gl = g.len();
                if gl > 0 && str_empty(g[gl - 1].whitespace.as_str()) {
                    t.underscore.is_head = false;
                    let ghost gv = g.deep_view();
                    let ghost nv = t@;
                    g.push(t);
                    assert(g.deep_view() =~= gv.push(nv));
                    units.push(TokenUnit::Group(g));
                    assert(units.deep_view() =~= before.update(before.len() - 1, UnitView::Group(gv.push(nv))));
                    return;
                }
                units.push(TokenUnit::Group(g));
                assert(units.deep_view() =~= before);
            },
            Some(u) => {
                assert(units.deep_view() =~= before.drop_last());
                units.push(u);
                assert(units.deep_view() =~= before);
            },
            None => {},
        }
    }
    assert(!open_group(before));
    if str_empty(t.whitespace.as_str()) {
        let mut g: Vec<InternalMToken> = Vec::new();
        g.push(t);
        assert(g.deep_view() =~= seq![tv]);
        units.push(TokenUnit::Group(g));
        assert(units.deep_view() =~= before.push(UnitView::Group(seq![tv])));
    } else {
        units.push(TokenUnit::Token(t));
        assert(units.deep_view() =~= before.push(UnitView::Token(tv)));
    }
}

/// Add a token on its own.
fn add_standalone(units: &mut Vec<TokenUnit>, t: InternalMToken)
    ensures
        final(units).deep_view() == standalone(old(units).deep_view(), t@),
{
    let ghost before = units.deep_view();
    let ghost tv = t@;
    units.push(TokenUnit::Token(t));
    assert(units.deep_view() =~= before.push(UnitView::Token(tv)));
}

/// Place one piece (see `piece_step`).
fn place_piece(tokens: &[InternalMToken], ti: usize, ps: &Vec<InternalMToken>, pi: usize, units: &mut Vec<TokenUnit>, current: &mut Option<String>)
    requires
        ti < tokens@.len(),
        pi < ps@.len(),
    ensures
        final(units).deep_view() == piece_step(tokens.deep_view(), ti as int, ps.deep_view(), pi as int, (old(units).deep_view(), opt_chars(*old(current)))).0,
        opt_chars(*final(current)) == piece_step(tokens.deep_view(), ti as int, ps.deep_view(), pi as int, (old(units).deep_view(), opt_chars(*old(current)))).1,
{
    let ghost pv = ps.deep_view()[pi as int];
    let mut p = ps[pi].clone_token();
    assert(p@ == pv);
    if p.underscore.alias.is_some() || p.phonemes.is_some() {
        add_standalone(units, p);
        return;
    }
    if str_eq(p.tag.as_str(), "$") && is_currency_symbol(p.text.as_str()) {
        *current = Some(String::from_str(p.text.as_str()));
        p.phonemes = Some(String::new());
        p.underscore.rating = Some(4);
        assert(p@ =~= TokenView { phonemes: Some(Seq::empty()), rating: Some(4i32), ..pv });
        add_standalone(units, p);
        return;
    }
    if str_eq(p.tag.as_str(), ":") && (str_eq(p.text.as_str(), "-") || str_eq(p.text.as_str(), "\u{2013}") || str_eq(
        p.text.as_str(),
        "\u{2014}",
    )) {
        p.phonemes = Some(String::from_str("\u{2014}"));
        p.underscore.rating = Some(3);
        assert(p@ =~= TokenView { phonemes: Some("\u{2014}"@), rating: Some(3i32), ..pv });
        add_standalone(units, p);
        return;
    }
    if is_punct_tag(p.tag.as_str()) && !only_ascii_letters(p.text.as_str()) {
        let ph = punct_phonemes_of(p.tag.as_str(), p.text.as_str());
        p.phonemes = Some(ph);
        p.underscore.rating = Some(4);
        assert(p@ =~= TokenView { phonemes: Some(punct_phonemes(pv.tag, pv.text)), rating: Some(4i32), ..pv });
        add_standalone(units, p);
        return;
    }
    let last_piece = pi == ps.len() - 1 && (ti == tokens.len() - 1 || !str_eq(tokens[ti + 1].tag.as_str(), "CD"));
    let is_cd = str_eq(p.tag.as_str(), "CD");
    let ghost cur = opt_chars(*current);
    let ghost ts = tokens.deep_view();
    assert(last_piece == (pi == ps.deep_view().len() - 1 && (ti + 1 == ts.len() || ts[ti + 1].tag != "CD"@)));
    let copied = copy_opt(current);
    match copied {
        Some(c) => {
            if !is_cd {
                *current = None;
            } else if last_piece {
                p.underscore.currency = Some(c);
            }
        },
        None => {},
    }
    let ghost p2 = p@;
    assert(p2 =~= if cur is Some && pv.tag == "CD"@ && last_piece {
        TokenView { currency: cur, ..pv }
    } else {
        pv
    });
    if is_spelled_to(ps, pi) {
        p.underscore.alias = Some(String::from_str("to"));
        assert(p@ =~= TokenView { alias: Some("to"@), ..p2 });
    }
    if p.underscore.alias.is_some() || p.phonemes.is_some() {
        add_standalone(units, p);
    } else {
        add_ordinary(units, p);
    }
}

/// Regroup tagged tokens for lookup (see `retokenized`): tokens are split into
/// their pieces, punctuation and currency symbols get their phonemes, and pieces
/// written together are grouped.
pub fn retokenize(tokens: &[InternalMToken]) -> (units: Vec<TokenUnit>)
    ensures
        units.deep_view() == retokenized(tokens.deep_view()),
{
    let ghost ts = tokens.deep_view();
    let ghost whole = tokens_fold(ts, 0, (Seq::empty(), None));
    let mut units: Vec<TokenUnit> = Vec::new();
    let mut current: Option<String> = None;
    let mut ti: usize = 0;
    assert(units.deep_view() =~= Seq::<UnitView>::empty());
    while ti < tokens.len()
        invariant
            ts == tokens.deep_view(),
            ti <= ts.len(),
            tokens_fold(ts, ti as int, (units.deep_view(), opt_chars(current))) == whole,
        decreases ts.len() - ti,
    {
        let ps = token_pieces(&tokens[ti]);
        let ghost psv = ps.deep_view();
        assert(psv == pieces_of(ts[ti as int]));
        let ghost start: RetokenState = (units.deep_view(), opt_chars(current));
        let mut pi: usize = 0;
        while pi < ps.len()
            invariant
                ts == tokens.deep_view(),
                ti < ts.len(),
                psv == ps.deep_view(),
                pi <= psv.len(),
                pieces_fold(ts, ti as int, psv, pi as int, (units.deep_view(), opt_chars(current))) == pieces_fold(ts, ti as int, psv, 0, start),
            decreases psv.len() - pi,
        {
            place_piece(tokens, ti, &ps, pi, &mut units, &mut current);
            pi += 1;
        }
        ti += 1;
    }
    let ghost final_units = units.deep_view();
    assert(final_units == whole.0);
    let mut out: Vec<TokenUnit> = Vec::new();
    let mut k: usize = 0;
    let n = units.len();
    while units.len() > 0
        invariant
            n == final_units.len(),
            k + units@.len() == n,
            units.deep_view() == final_units.skip(k as int),
            out.deep_view() == Seq::new(k as nat, |j: int| settled(final_units[j])),
        decreases units@.len(),
    {
        let ghost before = units.deep_view();
        let ghost raw = units@;
        let u = units.remove(0);
        assert(before[0] == raw[0].deep_view());
        assert(before[0] == final_units[k as int]);
        assert(u@ == final_units[k as int]);
        assert forall|j: int| 0 <= j < units@.len() implies #[trigger] units.deep_view()[j] == final_units.skip(k + 1)[j] by {
            assert(units@[j] == raw[j + 1]);
            assert(before[j + 1] == raw[j + 1].deep_view());
        }
        assert(units.deep_view() =~= final_units.skip(k + 1));
        let settled_unit = match u {
            TokenUnit::Group(mut g) => {
                if g.len() == 1 {
                    match g.pop() {
                        Some(t) => TokenUnit::Token(t),
                        None => TokenUnit::Group(g),
                    }
                } else {
                    TokenUnit::Group(g)
                }
            },
            TokenUnit::Token(t) => TokenUnit::Token(t),
        };
        assert(settled_unit@ == settled(final_units[k as int]));
        let ghost ov = out.deep_view();
        out.push(settled_unit);
        assert(out.deep_view() =~= ov.push(settled(final_units[k as int])));
        k += 1;
        assert(out.deep_view() =~= Seq::new(k as nat, |j: int| settled(final_units[j])));
    }
    out
}


/// The stress weights the tokens carry, in order.
pub open spec fn stresses(ts: Seq<TokenView>) -> Seq<StressWeight>
    decreases ts.len(),
{
    if ts.len() == 0 {
        Seq::empty()
    } else {
        match ts.last().stress {
            Some(w) => stresses(ts.drop_last()).push(w),
            None => stresses(ts.drop_last()),
        }
    }
}

/// The stress of merged tokens: the one weight they carry when all carried
/// weights are the same number, else none.
pub open spec fn merged_stress(ts: Seq<TokenView>) -> Option<StressWeight> {
    let ss = stresses(ts);
    if ss.len() > 0 && forall|k: int| 0 <= k < ss.len() ==> same_weight(#[trigger] ss[k], ss[0]) {
        Some(ss[0])
    } else {
        None
    }
}

/// `a` sorts before `b`, comparing chars in order (a prefix first).
pub open spec fn text_less(a: Seq<char>, b: Seq<char>) -> bool
    decreases a.len(),
{
    if b.len() == 0 {
        false
    } else if a.len() == 0 {
        true
    } else if a[0] != b[0] {
        a[0] < b[0]
    } else {
        text_less(a.drop_first(), b.drop_first())
    }
}

/// The greatest currency the tokens carry.
pub open spec fn max_currency(ts: Seq<TokenView>) -> Option<Seq<char>>
    decreases ts.len(),
{
    if ts.len() == 0 {
        None
    } else {
        let m = max_currency(ts.drop_last());
        match ts.last().currency {
            Some(c) => match m {
                Some(x) => if text_less(x, c) {
                    Some(c)
                } else {
                    Some(x)
                },
                None => Some(c),
            },
            None => m,
        }
    }
}

/// The least rating the tokens carry (`i32::MAX` for none).
pub open spec fn least_rating_of(ts: Seq<TokenView>) -> i32
    decreases ts.len(),
{
    if ts.len() == 0 {
        i32::MAX
    } else {
        let m = least_rating_of(ts.drop_last());
        match ts.last().rating {
            Some(r) => if r < m {
                r
            } else {
                m
            },
            None => m,
        }
    }
}

/// The rating of merged tokens: none when any token has none (or there are no
/// tokens), else the least.
pub open spec fn merged_rating(ts: Seq<TokenView>) -> Option<i32> {
    if ts.len() == 0 || exists|k: int| 0 <= k < ts.len() && #[trigger] ts[k].rating is None {
        None
    } else {
        Some(least_rating_of(ts))
    }
}

/// The phonemes of the tokens put together, `unk` standing for any missing, with
/// a space before a prespaced token's nonempty phonemes when the text so far does
/// not end in whitespace.
pub open spec fn joined_phonemes(ts: Seq<TokenView>, unk: Seq<char>) -> Seq<char>
    decreases ts.len(),
{
    if ts.len() == 0 {
        Seq::empty()
    } else {
        let m = joined_phonemes(ts.drop_last(), unk);
        let t = ts.last();
        let sep = t.prespace && m.len() > 0 && !whitespace_char(m.last()) && (t.phonemes matches Some(tp) && tp.len() > 0);
        m + (if sep {
            seq![' ']
        } else {
            Seq::empty()
        }) + match t.phonemes {
            Some(p) => p,
            None => unk,
        }
    }
}

/// The tokens written out, each followed by its whitespace.
pub open spec fn written(ts: Seq<TokenView>) -> Seq<char>
    decreases ts.len(),
{
    if ts.len() == 0 {
        Seq::empty()
    } else {
        written(ts.drop_last()) + ts.last().text + ts.last().whitespace
    }
}

/// The text of merged tokens: written out, without the last one's whitespace.
pub open spec fn merged_text(ts: Seq<TokenView>) -> Seq<char> {
    if ts.len() == 0 {
        Seq::empty()
    } else {
        written(ts.drop_last()) + ts.last().text
    }
}

/// The last of the tokens with the greatest case weight.
pub open spec fn heaviest(ts: Seq<TokenView>) -> int
    decreases ts.len(),
{
    if ts.len() <= 1 {
        0
    } else {
        let h = heaviest(ts.drop_last());
        if case_weight_of(ts.last().text) >= case_weight_of(ts[h].text) {
            ts.len() - 1
        } else {
            h
        }
    }
}

/// Some token's number flags hold `c`.
pub open spec fn flag_used(ts: Seq<TokenView>, c: char) -> bool {
    exists|k: int| 0 <= k < ts.len() && holds_flag(#[trigger] ts[k].num_flags, c)
}

/// `f` holds `c`.
pub open spec fn holds_flag(f: Seq<char>, c: char) -> bool {
    exists|j: int| 0 <= j < f.len() && #[trigger] f[j] == c
}

/// The chars increase strictly.
pub open spec fn increasing(f: Seq<char>) -> bool {
    forall|i: int, j: int| 0 <= i < j < f.len() ==> #[trigger] f[i] < #[trigger] f[j]
}

/// Tokens merged into one: their text, the tag of the heaviest, the last one's
/// whitespace, the first one's head and prespace marks, the common stress, the
/// greatest currency and the least rating; phonemes only when `unk` is given.
/// (The number flags are given separately: all the flags used, in increasing order.)
pub open spec fn merged(ts: Seq<TokenView>, unk: Option<Seq<char>>, flags: Seq<char>) -> TokenView {
    TokenView {
        text: merged_text(ts),
        tag: if ts.len() == 0 {
            Seq::empty()
        } else {
            ts[heaviest(ts)].tag
        },
        whitespace: if ts.len() == 0 {
            Seq::empty()
        } else {
            ts.last().whitespace
        },
        phonemes: match unk {
            Some(u) => Some(joined_phonemes(ts, u)),
            None => None,
        },
        is_head: if ts.len() == 0 {
            true
        } else {
            ts[0].is_head
        },
        alias: None,
        stress: merged_stress(ts),
        currency: max_currency(ts),
        num_flags: flags,
        prespace: if ts.len() == 0 {
            false
        } else {
            ts[0].prespace
        },
        rating: merged_rating(ts),
    }
}

/// The number flags of merged tokens: every flag used, each once, increasing.
pub open spec fn merged_flags_ok(ts: Seq<TokenView>, f: Seq<char>) -> bool {
    &&& increasing(f)
    &&& forall|c: char| holds_flag(f, c) <==> flag_used(ts, c)
}

/// The number flags merged tokens get: all the flags used, each once, increasing.
pub open spec fn merged_flag_seq(ts: Seq<TokenView>) -> Seq<char> {
    choose|f: Seq<char>| merged_flags_ok(ts, f)
}

/// Two increasing sequences with the same chars are the same.
proof fn lemma_increasing_unique(a: Seq<char>, b: Seq<char>)
    requires
        increasing(a),
        increasing(b),
        forall|c: char| #![trigger holds_flag(a, c)] #![trigger holds_flag(b, c)] holds_flag(a, c) <==> holds_flag(b, c),
    ensures
        a == b,
    decreases a.len(),
{
    if a.len() == 0 {
        if b.len() > 0 {
            assert(holds_flag(b, b[0]));
            assert(holds_flag(a, b[0]));
        }
        assert(b =~= a);
    } else {
        assert(holds_flag(a, a[0]));
        assert(b.len() > 0);
        assert(holds_flag(b, b[0]));
        assert(holds_flag(a, b[0]));
        assert(holds_flag(b, a[0]));
        let ja = choose|j: int| 0 <= j < a.len() && #[trigger] a[j] == b[0];
        let jb = choose|j: int| 0 <= j < b.len() && #[trigger] b[j] == a[0];
        if ja > 0 {
            assert(a[0] < a[ja]);
        }
        if jb > 0 {
            assert(b[0] < b[jb]);
        }
        assert(a[0] == b[0]);
        let ra = a.drop_first();
        let rb = b.drop_first();
        assert forall|i: int, j: int| 0 <= i < j < ra.len() implies #[trigger] ra[i] < #[trigger] ra[j] by {
            assert(a[i + 1] < a[j + 1]);
        }
        assert forall|i: int, j: int| 0 <= i < j < rb.len() implies #[trigger] rb[i] < #[trigger] rb[j] by {
            assert(b[i + 1] < b[j + 1]);
        }
        assert forall|c: char| #![trigger holds_flag(ra, c)] #![trigger holds_flag(rb, c)] holds_flag(ra, c) <==> holds_flag(rb, c) by {
            if holds_flag(ra, c) {
                let i = choose|i: int| 0 <= i < ra.len() && #[trigger] ra[i] == c;
                assert(a[i + 1] == c);
                assert(a[0] < a[i + 1]);
                assert(holds_flag(a, c));
                let j = choose|j: int| 0 <= j < b.len() && #[trigger] b[j] == c;
                assert(j != 0);
                assert(rb[j - 1] == c);
            }
            if holds_flag(rb, c) {
                let i = choose|i: int| 0 <= i < rb.len() && #[trigger] rb[i] == c;
                assert(b[i + 1] == c);
                assert(b[0] < b[i + 1]);
                assert(holds_flag(b, c));
                let j = choose|j: int| 0 <= j < a.len() && #[trigger] a[j] == c;
                assert(j != 0);
                assert(ra[j - 1] == c);
            }
        }
        lemma_increasing_unique(ra, rb);
        assert(a =~= seq![a[0]] + ra);
        assert(b =~= seq![b[0]] + rb);
    }
}

/// Whether `a` sorts before `b` (see `text_less`).
fn text_before(a: &str, b: &str) -> (r: bool)
    ensures
        r == text_less(a@, b@),
{
    let ca = chars_of(a);
    let cb = chars_of(b);
    let mut k: usize = 0;
    assert(ca@.skip(0) =~= ca@);
    assert(cb@.skip(0) =~= cb@);
    while k < ca.len() && k < cb.len() && ca[k] == cb[k]
        invariant
            k <= ca@.len(),
            k <= cb@.len(),
            text_less(ca@.skip(k as int), cb@.skip(k as int)) == text_less(a@, b@),
            ca@ == a@,
            cb@ == b@,
        decreases ca@.len() - k,
    {
        assert(ca@.skip(k as int).drop_first() =~= ca@.skip(k + 1));
        assert(cb@.skip(k as int).drop_first() =~= cb@.skip(k + 1));
        k += 1;
    }
    if k == cb.len() {
        return false;
    }
    if k == ca.len() {
        return true;
    }
    assert(ca@.skip(k as int)[0] == ca@[k as int]);
    assert(cb@.skip(k as int)[0] == cb@[k as int]);
    ca[k] < cb[k]
}

/// Add `c` to increasing distinct flags, keeping them so.
fn insert_flag(f: &mut Vec<char>, c: char)
    requires
        increasing(old(f)@),
    ensures
        increasing(final(f)@),
        forall|d: char| #[trigger] holds_flag(final(f)@, d) <==> (holds_flag(old(f)@, d) || d == c),
{
    let ghost before = f@;
    let mut i: usize = 0;
    while i < f.len() && f[i] < c
        invariant
            f@ == before,
            i <= f@.len(),
            forall|j: int| 0 <= j < i ==> #[trigger] f@[j] < c,
        decreases f@.len() - i,
    {
        i += 1;
    }
    assert(i < before.len() ==> c <= before[i as int]);
    if i < f.len() && f[i] == c {
        assert(holds_flag(before, c));
        return;
    }
    assert(i < before.len() ==> c < before[i as int]);
    f.insert(i, c);
    let ghost after = f@;
    assert(after == before.insert(i as int, c));
    assert forall|d: char| #[trigger] holds_flag(after, d) <==> (holds_flag(before, d) || d == c) by {
        if holds_flag(after, d) {
            let j = choose|j: int| 0 <= j < after.len() && #[trigger] after[j] == d;
            if j < i {
                assert(before[j] == d);
            } else if j > i {
                assert(before[j - 1] == d);
            }
        }
        if holds_flag(before, d) {
            let j = choose|j: int| 0 <= j < before.len() && #[trigger] before[j] == d;
            if j < i {
                assert(after[j] == d);
            } else {
                assert(after[j + 1] == d);
            }
        }
        if d == c {
            assert(after[i as int] == c);
        }
    }
    assert forall|a: int, b: int| 0 <= a < b < after.len() implies #[trigger] after[a] < #[trigger] after[b] by {
        if b < i {
            assert(after[a] == before[a] && after[b] == before[b]);
        } else if b == i {
            assert(after[a] == before[a]);
        } else if a < i {
            assert(after[a] == before[a] && after[b] == before[b - 1]);
            assert(before[a] < c);
            assert(c < before[i as int]);
            if b - 1 > i {
                assert(before[i as int] < before[b - 1]);
            }
        } else if a == i {
            assert(after[b] == before[b - 1]);
            if b - 1 > i {
                assert(before[i as int] < before[b - 1]);
            }
        } else {
            assert(after[a] == before[a - 1]);
            assert(after[b] == before[b - 1]);
        }
    }
}

/// Merge tokens into one (see `merged`); with `unk`, missing phonemes read as it.
pub fn merge_tokens(tokens: &[InternalMToken], unk: Option<&str>) -> (r: InternalMToken)
    ensures
        r@ == merged(tokens.deep_view(), match unk {
            Some(u) => Some(u@),
            None => None,
        }, merged_flag_seq(tokens.deep_view())),
        merged_flags_ok(tokens.deep_view(), r@.num_flags),
{
    let ghost ts = tokens.deep_view();
    let n = tokens.len();
    let mut ss: Vec<StressWeight> = Vec::new();
    let mut currency: Option<String> = None;
    let mut least: i32 = i32::MAX;
    let mut missing_rating = false;
    let mut text: Vec<char> = Vec::new();
    let mut heavy: usize = 0;
    let mut heavy_weight: u128 = 0;
    let mut flags: Vec<char> = Vec::new();
    let mut k: usize = 0;
    while k < n
        invariant
            n == ts.len(),
            ts == tokens.deep_view(),
            k <= n,
            ss@ == stresses(ts.take(k as int)),
            opt_chars(currency) == max_currency(ts.take(k as int)),
            least == least_rating_of(ts.take(k as int)),
            missing_rating == exists|j: int| 0 <= j < k && #[trigger] ts[j].rating is None,
            text@ == written(ts.take(k as int)),
            k > 0 ==> heavy == heaviest(ts.take(k as int)) && heavy < k && heavy_weight == case_weight_of(ts[heavy as int].text),
            increasing(flags@),
            forall|c: char| #[trigger] holds_flag(flags@, c) <==> flag_used(ts.take(k as int), c),
        decreases n - k,
    {
        let ghost pre = ts.take(k as int);
        let ghost cur = ts.take(k + 1);
        assert(cur.drop_last() =~= pre);
        let t = &tokens[k];
        assert(t@ == ts[k as int]);
        assert(cur.last() == ts[k as int]);
        match t.underscore.stress {
            Some(w) => ss.push(w),
            None => {},
        }
        match &t.underscore.currency {
            Some(c) => {
                let replace = match &currency {
                    Some(x) => text_before(x.as_str(), c.as_str()),
                    None => true,
                };
                if replace {
                    currency = Some(String::from_str(c.as_str()));
                }
            },
            None => {},
        }
        match t.underscore.rating {
            Some(r) => {
                if r < least {
                    least = r;
                }
            },
            None => {
                missing_rating = true;
            },
        }
        extend_chars(&mut text, t.text.as_str());
        extend_chars(&mut text, t.whitespace.as_str());
        let w = wide_case_weight(t.text.as_str());
        if k == 0 || w >= heavy_weight {
            heavy = k;
            heavy_weight = w;
        }
        let fc = chars_of(t.underscore.num_flags.as_str());
        let mut j: usize = 0;
        while j < fc.len()
            invariant
                k < n,
                n == ts.len(),
                pre == ts.take(k as int),
                j <= fc@.len(),
                fc@ == ts[k as int].num_flags,
                increasing(flags@),
                forall|c: char| #[trigger] holds_flag(flags@, c) <==> (flag_used(pre, c) || holds_flag(fc@.take(j as int), c)),
            decreases fc@.len() - j,
        {
            let ghost of = flags@;
            insert_flag(&mut flags, fc[j]);
            proof {
                assert forall|c: char| #[trigger] holds_flag(fc@.take(j + 1), c) <==> (holds_flag(fc@.take(j as int), c) || c == fc@[j as int]) by {
                    if holds_flag(fc@.take(j + 1), c) {
                        let i = choose|i: int| 0 <= i < fc@.take(j + 1).len() && #[trigger] fc@.take(j + 1)[i] == c;
                        if i < j {
                            assert(fc@.take(j as int)[i] == c);
                        }
                    }
                    if holds_flag(fc@.take(j as int), c) {
                        let i = choose|i: int| 0 <= i < fc@.take(j as int).len() && #[trigger] fc@.take(j as int)[i] == c;
                        assert(fc@.take(j + 1)[i] == c);
                    }
                    if c == fc@[j as int] {
                        assert(fc@.take(j + 1)[j as int] == c);
                    }
                }
                assert forall|c: char| holds_flag(flags@, c) <==> (flag_used(pre, c) || holds_flag(fc@.take(j + 1), c)) by {
                    assert(holds_flag(flags@, c) <==> (holds_flag(of, c) || c == fc@[j as int]));
                    assert(holds_flag(of, c) <==> (flag_used(pre, c) || holds_flag(fc@.take(j as int), c)));
                    assert(holds_flag(fc@.take(j + 1), c) <==> (holds_flag(fc@.take(j as int), c) || c == fc@[j as int]));
                }
            }
            j += 1;
        }
        proof {
            assert(fc@.take(fc@.len() as int) =~= fc@);
            assert forall|c: char| flag_used(cur, c) <==> (flag_used(pre, c) || holds_flag(fc@, c)) by {
                if flag_used(cur, c) {
                    let i = choose|i: int| 0 <= i < cur.len() && holds_flag(#[trigger] cur[i].num_flags, c);
                    if i < k {
                        assert(pre[i] == cur[i]);
                    }
                }
                if flag_used(pre, c) {
                    let i = choose|i: int| 0 <= i < pre.len() && holds_flag(#[trigger] pre[i].num_flags, c);
                    assert(cur[i] == pre[i]);
                }
                if holds_flag(fc@, c) {
                    assert(cur[k as int] == ts[k as int]);
                }
            }
            if missing_rating {
                assert(exists|j: int| 0 <= j < k + 1 && #[trigger] ts[j].rating is None);
            }
            assert forall|c: char| holds_flag(flags@, c) <==> flag_used(ts.take(k + 1), c) by {
                assert(holds_flag(flags@, c) <==> (flag_used(pre, c) || holds_flag(fc@.take(fc@.len() as int), c)));
                assert(flag_used(cur, c) <==> (flag_used(pre, c) || holds_flag(fc@, c)));
            }
        }
        k += 1;
    }
    assert(ts.take(n as int) =~= ts);
    let stress = if ss.len() > 0 {
        let first = ss[0];
        let mut all_same = true;
        let mut i: usize = 0;
        while i < ss.len()
            invariant
                i <= ss@.len(),
                ss@.len() > 0,
                first == ss@[0],
                all_same == forall|j: int| 0 <= j < i ==> same_weight(#[trigger] ss@[j], ss@[0]),
            decreases ss@.len() - i,
        {
            if !weights_equal(ss[i], first) {
                all_same = false;
            }
            i += 1;
        }
        if all_same {
            Some(first)
        } else {
            None
        }
    } else {
        None
    };
    let phonemes = match unk {
        Some(u) => {
            let mut merged_ph: Vec<char> = Vec::new();
            let mut i: usize = 0;
            while i < n
                invariant
                    n == ts.len(),
                    ts == tokens.deep_view(),
                    i <= n,
                    merged_ph@ == joined_phonemes(ts.take(i as int), u@),
                decreases n - i,
            {
                let t = &tokens[i];
                assert(t@ == ts[i as int]);
                assert(ts.take(i + 1).drop_last() =~= ts.take(i as int));
                let ml = merged_ph.len();
                let nonempty_ph = match &t.phonemes {
                    Some(tp) => !str_empty(tp.as_str()),
                    None => false,
                };
                if t.underscore.prespace && ml > 0 && !is_whitespace(merged_ph[ml - 1]) && nonempty_ph {
                    merged_ph.push(' ');
                }
                match &t.phonemes {
                    Some(tp) => extend_chars(&mut merged_ph, tp.as_str()),
                    None => extend_chars(&mut merged_ph, u),
                }
                i += 1;
            }
            Some(string_from_chars(merged_ph.as_slice()))
        },
        None => None,
    };
    let merged_text_str = if n == 0 {
        String::new()
    } else {
        let last = &tokens[n - 1];
        let wl = chars_of(last.whitespace.as_str()).len();
        let tl = text.len();
        assert(ts.drop_last() =~= ts.take(n - 1));
        assert(text@ == written(ts.drop_last()) + ts.last().text + ts.last().whitespace);
        string_from_range(text.as_slice(), 0, tl - wl)
    };
    let tag = if n == 0 {
        String::new()
    } else {
        String::from_str(tokens[heavy].tag.as_str())
    };
    let whitespace = if n == 0 {
        String::new()
    } else {
        String::from_str(tokens[n - 1].whitespace.as_str())
    };
    let is_head = if n == 0 {
        true
    } else {
        tokens[0].underscore.is_head
    };
    let prespace = if n == 0 {
        false
    } else {
        tokens[0].underscore.prespace
    };
    let rating = if n == 0 || missing_rating {
        None
    } else {
        Some(least)
    };
    let r = InternalMToken {
        text: merged_text_str,
        tag,
        whitespace,
        phonemes,
        underscore: InternalUnderscore {
            is_head,
            alias: None,
            stress,
            currency,
            num_flags: string_from_chars(flags.as_slice()),
            prespace,
            rating,
        },
    };
    assert(r@.text =~= merged_text(ts));
    proof {
        assert(merged_flags_ok(ts, flags@));
        let f = merged_flag_seq(ts);
        assert(merged_flags_ok(ts, f));
        lemma_increasing_unique(flags@, f);
    }
    r
}


/// Tokens with each non-head token merged into the one before it (missing
/// phonemes read as `unk`).
pub open spec fn folded(ts: Seq<TokenView>, unk: Seq<char>) -> Seq<TokenView>
    decreases ts.len(),
{
    if ts.len() == 0 {
        Seq::empty()
    } else {
        let acc = folded(ts.drop_last(), unk);
        let t = ts.last();
        if acc.len() > 0 && !t.is_head {
            let pair = seq![acc.last(), t];
            acc.drop_last().push(merged(pair, Some(unk), merged_flag_seq(pair)))
        } else {
            acc.push(t)
        }
    }
}

/// Merge each non-head token into the one before it (see `folded`).
pub fn fold_left(tokens: &[InternalMToken], unk: &str) -> (r: Vec<InternalMToken>)
    ensures
        r.deep_view() == folded(tokens.deep_view(), unk@),
{
    let ghost ts = tokens.deep_view();
    let mut result: Vec<InternalMToken> = Vec::new();
    let mut k: usize = 0;
    assert(result.deep_view() =~= folded(ts.take(0), unk@));
    while k < tokens.len()
        invariant
            ts == tokens.deep_view(),
            k <= ts.len(),
            result.deep_view() == folded(ts.take(k as int), unk@),
        decreases ts.len() - k,
    {
        let ghost acc = result.deep_view();
        assert(ts.take(k + 1).drop_last() =~= ts.take(k as int));
        let t = &tokens[k];
        assert(t@ == ts[k as int]);
        if result.len() > 0 && !t.underscore.is_head {
            match result.pop() {
                Some(last) => {
                    assert(result.deep_view() =~= acc.drop_last());
                    let pair: Vec<InternalMToken> = vec![last, t.clone_token()];
                    assert(pair.deep_view() =~= seq![acc.last(), ts[k as int]]);
                    let m = merge_tokens(pair.as_slice(), Some(unk));
                    let ghost mv = m@;
                    result.push(m);
                    assert(result.deep_view() =~= acc.drop_last().push(mv));
                },
                None => {},
            }
        } else {
            result.push(t.clone_token());
            assert(result.deep_view() =~= acc.push(ts[k as int]));
        }
        k += 1;
    }
    assert(ts.take(ts.len() as int) =~= ts);
    result
}

/// A phoneme that counts as a consonant when looking ahead.
pub open spec fn consonant(c: char) -> bool {
    ||| c == 'b' ||| c == 'd' ||| c == 'f' ||| c == 'h' ||| c == 'j' ||| c == 'k' ||| c == 'l'
    ||| c == 'm' ||| c == 'n' ||| c == 'p' ||| c == 's' ||| c == 't' ||| c == 'v' ||| c == 'w'
    ||| c == 'z' ||| c == '\u{f0}' ||| c == '\u{14b}' ||| c == '\u{261}' ||| c == '\u{279}'
    ||| c == '\u{27e}' ||| c == '\u{283}' ||| c == '\u{292}' ||| c == '\u{2a4}' ||| c == '\u{2a7}'
    ||| c == '\u{3b8}'
}

/// Punctuation other than quotes.
pub open spec fn non_quote_punct(c: char) -> bool {
    ||| c == ';' ||| c == ':' ||| c == ',' ||| c == '.' ||| c == '!' ||| c == '?' ||| c == '\u{2014}'
    ||| c == '\u{2026}'
}

/// A phoneme that tells whether a vowel follows.
pub open spec fn telling(c: char) -> bool {
    vowel(c) || consonant(c) || non_quote_punct(c)
}

/// Whether the phonemes start (at their first telling char) with a vowel: `None`
/// after punctuation, the given answer when no char tells.
pub open spec fn vowel_ahead(ph: Seq<char>, otherwise: Option<bool>) -> Option<bool>
    decreases ph.len(),
{
    if ph.len() == 0 {
        otherwise
    } else if telling(ph[0]) {
        if non_quote_punct(ph[0]) {
            None
        } else {
            Some(vowel(ph[0]))
        }
    } else {
        vowel_ahead(ph.drop_first(), otherwise)
    }
}

/// The context for the token before `t`: whether a vowel follows (from `t`'s
/// phonemes, else as it was) and whether `t` is the word `to`.
pub open spec fn context_before(ctx: TokenContext, phonemes: Option<Seq<char>>, t: TokenView) -> TokenContext {
    TokenContext {
        future_vowel: match phonemes {
            Some(ph) => vowel_ahead(ph, ctx.future_vowel),
            None => ctx.future_vowel,
        },
        future_to: t.text == "to"@ || t.text == "To"@ || (t.text == "TO"@ && (t.tag == "TO"@ || t.tag == "IN"@)),
    }
}

fn is_consonant(c: char) -> (b: bool)
    ensures
        b == consonant(c),
{
    c == 'b' || c == 'd' || c == 'f' || c == 'h' || c == 'j' || c == 'k' || c == 'l' || c == 'm' || c == 'n'
        || c == 'p' || c == 's' || c == 't' || c == 'v' || c == 'w' || c == 'z' || c == '\u{f0}' || c == '\u{14b}'
        || c == '\u{261}' || c == '\u{279}' || c == '\u{27e}' || c == '\u{283}' || c == '\u{292}' || c
        == '\u{2a4}' || c == '\u{2a7}' || c == '\u{3b8}'
}

fn is_non_quote_punct(c: char) -> (b: bool)
    ensures
        b == non_quote_punct(c),
{
    c == ';' || c == ':' || c == ',' || c == '.' || c == '!' || c == '?' || c == '\u{2014}' || c == '\u{2026}'
}

/// The context for the token before `token` (see `context_before`).
pub fn token_context(ctx: &TokenContext, phonemes: Option<&str>, token: &InternalMToken) -> (r: TokenContext)
    ensures
        r == context_before(*ctx, match phonemes {
            Some(p) => Some(p@),
            None => None,
        }, token@),
{
    let mut vowel_next = ctx.future_vowel;
    match phonemes {
        Some(ph) => {
            let cs = chars_of(ph);
            let mut i: usize = 0;
            assert(cs@.skip(0) =~= cs@);
            while i < cs.len()
                invariant_except_break
                    vowel_next == ctx.future_vowel,
                invariant
                    cs@ == ph@,
                    i <= cs@.len(),
                    vowel_ahead(cs@.skip(i as int), ctx.future_vowel) == vowel_ahead(ph@, ctx.future_vowel),
                ensures
                    vowel_next == vowel_ahead(ph@, ctx.future_vowel),
                decreases cs@.len() - i,
            {
                let c = cs[i];
                assert(cs@.skip(i as int)[0] == c);
                if is_vowel(c) || is_consonant(c) || is_non_quote_punct(c) {
                    vowel_next = if is_non_quote_punct(c) {
                        None
                    } else {
                        Some(is_vowel(c))
                    };
                    break;
                }
                assert(cs@.skip(i as int).drop_first() =~= cs@.skip(i + 1));
                i += 1;
                assert(i == cs@.len() ==> cs@.skip(i as int) =~= Seq::<char>::empty());
            }
        },
        None => {},
    }
    let t = token.text.as_str();
    let future_to = str_eq(t, "to") || str_eq(t, "To") || (str_eq(t, "TO") && (str_eq(token.tag.as_str(), "TO")
        || str_eq(token.tag.as_str(), "IN")));
    TokenContext { future_vowel: vowel_next, future_to }
}


/// Chars a sub-token may consist of without being a word: `',-._‘’/`.
pub open spec fn junk_char(c: char) -> bool {
    ||| c == '\'' ||| c == ',' ||| c == '-' ||| c == '.' ||| c == '_' ||| c == '\u{2018}' ||| c == '\u{2019}'
    ||| c == '/'
}

/// The kind of a char: letter, number or other.
pub open spec fn char_kind(c: char) -> int {
    if alphabetic_char(c) {
        0
    } else if numeric_char(c) {
        1
    } else {
        2
    }
}

/// Two chars of `t` that are not junk are of different kinds.
pub open spec fn mixed_kinds(t: Seq<char>) -> bool {
    exists|i: int, j: int|
        #![trigger t[i], t[j]]
        0 <= i < t.len() && 0 <= j < t.len() && !junk_char(t[i]) && !junk_char(t[j]) && char_kind(t[i]) != char_kind(t[j])
}

/// Every char of `t` is junk.
pub open spec fn all_junk(t: Seq<char>) -> bool {
    forall|i: int| 0 <= i < t.len() ==> junk_char(#[trigger] t[i])
}

/// The tokens of a group are spaced when their text has a space or slash, or
/// mixes letters, numbers and other chars.
pub open spec fn group_spaced(ts: Seq<TokenView>) -> bool {
    let text = merged_text(ts);
    holds(text, ' ') || holds(text, '/') || mixed_kinds(text)
}

/// Token `i` after the first pass: a final lone punctuation mark reads as
/// itself and junk as nothing (both rated 3); a token with phonemes after the
/// first takes the group's spacing.
pub open spec fn first_pass(ts: Seq<TokenView>, i: int, spaced: bool) -> TokenView {
    let t = ts[i];
    if t.phonemes is None {
        if i == ts.len() - 1 && t.text.len() == 1 && non_quote_punct(t.text[0]) {
            TokenView { phonemes: Some(t.text), rating: Some(3i32), ..t }
        } else if all_junk(t.text) {
            TokenView { phonemes: Some(Seq::empty()), rating: Some(3i32), ..t }
        } else {
            t
        }
    } else if i > 0 {
        TokenView { prespace: spaced, ..t }
    } else {
        t
    }
}

/// The primary stress, weight and place of each token from `i` on that has
/// phonemes.
pub open spec fn stressed_entries(ts: Seq<TokenView>, i: int) -> Seq<(bool, int, int)>
    decreases ts.len() - i,
{
    if i < 0 || i >= ts.len() {
        Seq::empty()
    } else {
        match ts[i].phonemes {
            Some(p) => if p.len() > 0 {
                seq![(holds(p, '\u{2c8}'), weight(p), i)] + stressed_entries(ts, i + 1)
            } else {
                stressed_entries(ts, i + 1)
            },
            None => stressed_entries(ts, i + 1),
        }
    }
}

/// `a` sorts before `b`: unstressed first, then lighter, then earlier.
pub open spec fn entry_less(a: (bool, int, int), b: (bool, int, int)) -> bool {
    (!a.0 && b.0) || (a.0 == b.0 && (a.1 < b.1 || (a.1 == b.1 && a.2 < b.2)))
}

/// How many entries sort before `e`.
pub open spec fn rank(es: Seq<(bool, int, int)>, e: (bool, int, int)) -> int
    decreases es.len(),
{
    if es.len() == 0 {
        0
    } else {
        rank(es.drop_last(), e) + if entry_less(es.last(), e) {
            1int
        } else {
            0int
        }
    }
}

/// How many entries carry primary stress.
pub open spec fn primaries(es: Seq<(bool, int, int)>) -> int
    decreases es.len(),
{
    if es.len() == 0 {
        0
    } else {
        primaries(es.drop_last()) + if es.last().0 {
            1int
        } else {
            0int
        }
    }
}

/// A token's phonemes demoted by a stress of -½.
pub open spec fn demoted(t: TokenView) -> TokenView {
    TokenView { phonemes: stress_applied(t.phonemes, Some(StressLevel::MinusHalf)), ..t }
}

/// Token `i` is among the lower half of the stressed entries.
pub open spec fn in_lower_half(es: Seq<(bool, int, int)>, i: int) -> bool {
    exists|k: int| 0 <= k < es.len() && (#[trigger] es[k]).2 == i && rank(es, es[k]) < es.len() / 2
}

/// A group's tokens after stress is settled: unspaced groups with more primary
/// stresses than half their stressed tokens demote the lower half (or, for a
/// lone char and one other, demote the other).
pub open spec fn resolved(ts: Seq<TokenView>) -> Seq<TokenView> {
    let spaced = group_spaced(ts);
    let ts1 = Seq::new(ts.len(), |i: int| first_pass(ts, i, spaced));
    if spaced {
        ts1
    } else {
        let es = stressed_entries(ts1, 0);
        if es.len() == 2 && ts1[es[0].2].text.len() == 1 {
            ts1.update(es[1].2, demoted(ts1[es[1].2]))
        } else if es.len() < 2 || primaries(es) <= (es.len() + 1) / 2 {
            ts1
        } else {
            Seq::new(ts.len(), |i: int| if in_lower_half(es, i) {
                demoted(ts1[i])
            } else {
                ts1[i]
            })
        }
    }
}


/// A token's phonemes are short enough to weigh in an `i32`.
pub open spec fn phonemes_short(t: TokenView) -> bool {
    match t.phonemes {
        Some(p) => 2 * p.len() <= i32::MAX,
        None => true,
    }
}

/// The text of the tokens written together (see `merged_text`).
fn merged_text_of(tokens: &[InternalMToken]) -> (r: Vec<char>)
    ensures
        r@ == merged_text(tokens.deep_view()),
{
    let ghost ts = tokens.deep_view();
    let n = tokens.len();
    if n == 0 {
        return Vec::new();
    }
    let mut out: Vec<char> = Vec::new();
    let mut k: usize = 0;
    while k < n - 1
        invariant
            n == ts.len(),
            ts == tokens.deep_view(),
            k <= n - 1,
            out@ == written(ts.take(k as int)),
        decreases n - k,
    {
        assert(ts.take(k + 1).drop_last() =~= ts.take(k as int));
        assert(tokens[k as int]@ == ts[k as int]);
        extend_chars(&mut out, tokens[k].text.as_str());
        extend_chars(&mut out, tokens[k].whitespace.as_str());
        k += 1;
    }
    assert(ts.take((n - 1) as int) =~= ts.drop_last());
    assert(tokens[(n - 1) as int]@ == ts.last());
    extend_chars(&mut out, tokens[n - 1].text.as_str());
    out
}

fn is_junk(c: char) -> (b: bool)
    ensures
        b == junk_char(c),
{
    c == '\'' || c == ',' || c == '-' || c == '.' || c == '_' || c == '\u{2018}' || c == '\u{2019}' || c == '/'
}

fn kind_of(c: char) -> (k: u8)
    ensures
        k as int == char_kind(c),
{
    if is_alphabetic(c) {
        0
    } else if is_numeric(c) {
        1
    } else {
        2
    }
}

/// Whether two chars of `t` that are not junk are of different kinds.
fn has_mixed_kinds(t: &[char]) -> (b: bool)
    ensures
        b == mixed_kinds(t@),
{
    let n = t.len();
    let mut first: Option<usize> = None;
    let mut i: usize = 0;
    while i < n
        invariant
            n == t@.len(),
            i <= n,
            match first {
                Some(f) => f < i && !junk_char(t@[f as int]) && forall|j: int| 0 <= j < i && !junk_char(#[trigger] t@[j])
                    ==> char_kind(t@[j]) == char_kind(t@[f as int]),
                None => forall|j: int| 0 <= j < i ==> junk_char(#[trigger] t@[j]),
            },
        decreases n - i,
    {
        if !is_junk(t[i]) {
            match first {
                Some(f) => {
                    if kind_of(t[i]) != kind_of(t[f]) {
                        assert(!junk_char(t@[i as int]) && !junk_char(t@[f as int]) && char_kind(t@[i as int]) != char_kind(t@[f as int]));
                        return true;
                    }
                },
                None => {
                    first = Some(i);
                },
            }
        }
        i += 1;
    }
    assert(!mixed_kinds(t@)) by {
        assert forall|a: int, b: int|
            #![trigger t@[a], t@[b]]
            0 <= a < t@.len() && 0 <= b < t@.len() && !junk_char(t@[a]) && !junk_char(t@[b]) implies char_kind(t@[a])
                == char_kind(t@[b]) by {
            match first {
                Some(f) => {
                    assert(char_kind(t@[a]) == char_kind(t@[f as int]));
                    assert(char_kind(t@[b]) == char_kind(t@[f as int]));
                },
                None => {
                    assert(junk_char(t@[a]));
                },
            }
        }
    }
    false
}

/// Whether every char of a text is junk.
pub(crate) fn only_junk(t: &str) -> (b: bool)
    ensures
        b == all_junk(t@),
{
    let cs = chars_of(t);
    let mut i: usize = 0;
    while i < cs.len()
        invariant
            cs@ == t@,
            i <= cs@.len(),
            forall|j: int| 0 <= j < i ==> junk_char(#[trigger] cs@[j]),
        decreases cs@.len() - i,
    {
        if !is_junk(cs[i]) {
            assert(!junk_char(cs@[i as int]));
            return false;
        }
        i += 1;
    }
    true
}

/// A copy of a token with other phonemes.
fn with_phonemes(t: &InternalMToken, phonemes: Option<String>) -> (r: InternalMToken)
    ensures
        r@ == (TokenView { phonemes: opt_chars(phonemes), ..t@ }),
{
    let mut r = t.clone_token();
    r.phonemes = phonemes;
    r
}

/// Settle the stress within a group of tokens written together (see `resolved`).
pub fn resolve_tokens(tokens: &mut [InternalMToken])
    requires
        forall|k: int| 0 <= k < old(tokens)@.len() ==> phonemes_short(#[trigger] old(tokens).deep_view()[k]),
    ensures
        final(tokens).deep_view() == resolved(old(tokens).deep_view()),
{
    let ghost ts = tokens.deep_view();
    let n = tokens.len();
    let text = merged_text_of(tokens);
    let spaced = holds_char(text.as_slice(), ' ') || holds_char(text.as_slice(), '/') || has_mixed_kinds(text.as_slice());
    assert(spaced == group_spaced(ts));
    let ghost ts1 = Seq::new(ts.len(), |i: int| first_pass(ts, i, spaced));
    let mut i: usize = 0;
    while i < n
        invariant
            n == ts.len(),
            n == tokens@.len(),
            i <= n,
            forall|j: int| 0 <= j < i ==> #[trigger] tokens@[j]@ == ts1[j],
            forall|j: int| i <= j < n ==> #[trigger] tokens@[j]@ == ts[j],
            ts1 == Seq::new(ts.len(), |i: int| first_pass(ts, i, spaced)),
        decreases n - i,
    {
        let ghost tv = ts[i as int];
        assert(tokens@[i as int]@ == tv);
        if tokens[i].phonemes.is_none() {
            let tc = chars_of(tokens[i].text.as_str());
            let lone_punct = i == n - 1 && tc.len() == 1 && is_non_quote_punct(tc[0]);
            if lone_punct {
                let mut t = tokens[i].clone_token();
                t.phonemes = Some(String::from_str(tokens[i].text.as_str()));
                t.underscore.rating = Some(3);
                assert(t@ =~= first_pass(ts, i as int, spaced));
                tokens[i] = t;
            } else if only_junk(tokens[i].text.as_str()) {
                let mut t = tokens[i].clone_token();
                t.phonemes = Some(String::new());
                t.underscore.rating = Some(3);
                assert(t@ =~= first_pass(ts, i as int, spaced));
                tokens[i] = t;
            }
        } else if i > 0 {
            let mut t = tokens[i].clone_token();
            t.underscore.prespace = spaced;
            assert(t@ =~= first_pass(ts, i as int, spaced));
            tokens[i] = t;
        }
        assert(tokens@[i as int]@ == ts1[i as int]);
        i += 1;
    }
    assert(tokens.deep_view() =~= ts1);
    if spaced {
        return;
    }
    let mut primary: Vec<bool> = Vec::new();
    let mut weights: Vec<i32> = Vec::new();
    let mut places: Vec<usize> = Vec::new();
    let mut count: usize = 0;
    let mut k: usize = 0;
    while k < n
        invariant
            n == ts1.len(),
            tokens.deep_view() == ts1,
            forall|j: int| 0 <= j < n ==> phonemes_short(#[trigger] ts1[j]),
            k <= n,
            primary@.len() == weights@.len(),
            primary@.len() == places@.len(),
            primary@.len() <= k,
            count <= primary@.len(),
            count == primaries(Seq::new(primary@.len(), |j: int| (primary@[j], weights@[j] as int, places@[j] as int))),
            stressed_entries(ts1, 0) == Seq::new(primary@.len(), |j: int| (primary@[j], weights@[j] as int, places@[j] as int))
                + stressed_entries(ts1, k as int),
            forall|j: int| 0 <= j < places@.len() ==> #[trigger] places@[j] < k,
            forall|x: int, y: int| 0 <= x < y < places@.len() ==> #[trigger] places@[x] < #[trigger] places@[y],
        decreases n - k,
    {
        let ghost before = Seq::new(primary@.len(), |j: int| (primary@[j], weights@[j] as int, places@[j] as int));
        assert(tokens@[k as int]@ == ts1[k as int]);
        match &tokens[k].phonemes {
            Some(p) => {
                let pc = chars_of(p.as_str());
                if pc.len() > 0 {
                    let hp = holds_char(pc.as_slice(), '\u{2c8}');
                    let w = Lexicon::stress_weight(Some(p.as_str()));
                    primary.push(hp);
                    weights.push(w);
                    places.push(k);
                    if hp {
                        count += 1;
                    }
                    assert(Seq::new(primary@.len(), |j: int| (primary@[j], weights@[j] as int, places@[j] as int)) =~= before
                        + seq![(hp, w as int, k as int)]);
                    assert(Seq::new(primary@.len(), |j: int| (primary@[j], weights@[j] as int, places@[j] as int)).drop_last()
                        =~= before);
                }
            },
            None => {},
        }
        k += 1;
    }
    let m = primary.len();
    let ghost es = stressed_entries(ts1, 0);
    assert(es =~= Seq::new(m as nat, |j: int| (primary@[j], weights@[j] as int, places@[j] as int)));
    if m == 2 && chars_of(tokens[places[0]].text.as_str()).len() == 1 {
        let at = places[1];
        let t = &tokens[at];
        let ph = copy_opt(&t.phonemes);
        let d = with_phonemes(t, apply_stress(ph, Some(StressLevel::MinusHalf)));
        assert(d@ =~= demoted(ts1[at as int]));
        tokens[at] = d;
        assert(tokens.deep_view() =~= ts1.update(at as int, demoted(ts1[at as int])));
        return;
    }
    if m < 2 || count <= m - m / 2 {
        return;
    }
    let limit = m / 2;
    let ghost start = tokens.deep_view();
    let mut e: usize = 0;
    while e < m
        invariant
            e <= m,
            m == es.len(),
            limit == m / 2,
            start == ts1,
            n == ts1.len(),
            tokens@.len() == n,
            es == Seq::new(m as nat, |x: int| (primary@[x], weights@[x] as int, places@[x] as int)),
            m == primary@.len(),
            m == weights@.len(),
            m == places@.len(),
            forall|x: int| 0 <= x < m ==> #[trigger] places@[x] < n,
            forall|x: int, y: int| 0 <= x < y < m ==> #[trigger] places@[x] < #[trigger] places@[y],
            forall|q: int| 0 <= q < n ==> #[trigger] tokens@[q]@ == (if exists|x: int| 0 <= x < e && (#[trigger] es[x]).2 == q
                && rank(es, es[x]) < limit {
                demoted(ts1[q])
            } else {
                ts1[q]
            }),
        decreases m - e,
    {
        let mine = (primary[e], weights[e], places[e]);
        let mut r: usize = 0;
        let mut x: usize = 0;
        while x < m
            invariant
                x <= m,
                r <= x,
                m == primary@.len(),
                m == weights@.len(),
                m == places@.len(),
                e < m,
                mine == (primary@[e as int], weights@[e as int], places@[e as int]),
                es == Seq::new(m as nat, |x: int| (primary@[x], weights@[x] as int, places@[x] as int)),
                r == rank(es.take(x as int), es[e as int]),
            decreases m - x,
        {
            assert(es.take(x + 1).drop_last() =~= es.take(x as int));
            let less = (!primary[x] && mine.0) || (primary[x] == mine.0 && (weights[x] < mine.1 || (weights[x] == mine.1
                && places[x] < mine.2)));
            if less {
                r += 1;
            }
            x += 1;
        }
        assert(es.take(m as int) =~= es);
        if r < limit {
            let at = places[e];
            let t = &tokens[at];
            let ph = copy_opt(&t.phonemes);
            let d = with_phonemes(t, apply_stress(ph, Some(StressLevel::MinusHalf)));
            assert(tokens@[at as int]@ == ts1[at as int]) by {
                if exists|x: int| 0 <= x < e && (#[trigger] es[x]).2 == at && rank(es, es[x]) < limit {
                    let x = choose|x: int| 0 <= x < e && (#[trigger] es[x]).2 == at && rank(es, es[x]) < limit;
                    assert(places@[x] < places@[e as int]);
                }
            }
            assert(d@ =~= demoted(ts1[at as int]));
            tokens[at] = d;
        }
        e += 1;
    }
    assert forall|q: int| 0 <= q < n implies #[trigger] tokens@[q]@ == (if in_lower_half(es, q) {
        demoted(ts1[q])
    } else {
        ts1[q]
    }) by {}
    assert(tokens.deep_view() =~= Seq::new(ts.len(), |q: int| if in_lower_half(es, q) {
        demoted(ts1[q])
    } else {
        ts1[q]
    }));
}


/// What the dictionary reads of a token in a context (see `token_reading`).
#[verifier::opaque]
pub open spec fn lookup_result(g: Seq<u8>, s: Seq<u8>, b: bool, t: TokenView, ctx: TokenContext) -> (Option<Seq<char>>, Option<i32>) {
    token_reading(g, s, b, t, ctx)
}

/// The dictionary reads the token without cutting inside a char (see
/// `token_reading_ok`).
#[verifier::opaque]
pub open spec fn lookup_ok(g: Seq<u8>, s: Seq<u8>, b: bool, t: TokenView, ctx: TokenContext) -> bool {
    token_reading_ok(g, s, b, t, ctx)
}

/// The slice merged into one token for lookup.
#[verifier::opaque]
pub open spec fn combined(slice: Seq<TokenView>) -> TokenView {
    merged(slice, None, merged_flag_seq(slice))
}

/// Some token of the slice already has an alias or phonemes.
pub open spec fn has_special(ts: Seq<TokenView>) -> bool {
    exists|k: int| 0 <= k < ts.len() && ((#[trigger] ts[k]).alias is Some || ts[k].phonemes is Some)
}

/// `grp` with tokens `left..right` given the phonemes `ph` (on the first) or none
/// (on the rest), all rated `r`.
pub open spec fn assigned(grp: Seq<TokenView>, left: int, right: int, ph: Seq<char>, r: Option<i32>) -> Seq<TokenView> {
    Seq::new(grp.len(), |k: int| if k == left {
        TokenView { phonemes: Some(ph), rating: r, ..grp[k] }
    } else if left < k < right {
        TokenView { phonemes: Some(Seq::empty()), rating: r, ..grp[k] }
    } else {
        grp[k]
    })
}

/// `grp` with a junk token at `k` that has no phonemes given none, rated 3.
pub open spec fn junk_settled(grp: Seq<TokenView>, k: int) -> Seq<TokenView> {
    if grp[k].phonemes is None && all_junk(grp[k].text) {
        grp.update(k, TokenView { phonemes: Some(Seq::empty()), rating: Some(3i32), ..grp[k] })
    } else {
        grp
    }
}

/// A group's tokens looked up from the right: the longest run from `left` to
/// `right` that reads as one word takes its phonemes and the search goes on to
/// its left; otherwise the run is shortened from the left, and when one token is
/// left, the rightmost is given up (junk reading as nothing). `None` where a
/// reading would cut inside a char.
#[verifier::opaque]
pub open spec fn group_pass(g: Seq<u8>, s: Seq<u8>, b: bool, grp: Seq<TokenView>, ctx: TokenContext, left: int, right: int) -> Option<(Seq<TokenView>, TokenContext)>
    decreases right, right - left,
{
    if !(0 <= left < right <= grp.len()) {
        Some((grp, ctx))
    } else {
        let slice = grp.subrange(left, right);
        let comb = combined(slice);
        if !has_special(slice) && !lookup_ok(g, s, b, comb, ctx) {
            None
        } else {
            let found = if has_special(slice) {
                None
            } else {
                lookup_result(g, s, b, comb, ctx).0
            };
            match found {
                Some(ph) => group_pass(
                    g,
                    s,
                    b,
                    assigned(grp, left, right, ph, lookup_result(g, s, b, comb, ctx).1),
                    context_before(ctx, Some(ph), comb),
                    0,
                    left,
                ),
                None => if left + 1 < right {
                    group_pass(g, s, b, grp, ctx, left + 1, right)
                } else {
                    group_pass(g, s, b, junk_settled(grp, right - 1), ctx, 0, right - 1)
                },
            }
        }
    }
}

/// Every token's phonemes can be weighed in an `i32`.
pub open spec fn all_short(ts: Seq<TokenView>) -> bool {
    forall|k: int| 0 <= k < ts.len() ==> phonemes_short(#[trigger] ts[k])
}

/// A unit looked up in the context of what follows it; `None` where a reading
/// would cut inside a char or a group's phonemes grow too long to weigh.
pub open spec fn unit_pass(g: Seq<u8>, s: Seq<u8>, b: bool, u: UnitView, ctx: TokenContext) -> Option<(UnitView, TokenContext)> {
    match u {
        UnitView::Token(t) => if t.phonemes is None {
            if !lookup_ok(g, s, b, t, ctx) {
                None
            } else {
                let r = lookup_result(g, s, b, t, ctx);
                let t2 = TokenView { phonemes: r.0, rating: r.1, ..t };
                Some((UnitView::Token(t2), context_before(ctx, t2.phonemes, t2)))
            }
        } else {
            Some((u, context_before(ctx, t.phonemes, t)))
        },
        UnitView::Group(grp) => match group_pass(g, s, b, grp, ctx, 0, grp.len() as int) {
            None => None,
            Some((grp2, ctx2)) => if all_short(grp2) {
                Some((UnitView::Group(resolved(grp2)), ctx2))
            } else {
                None
            },
        },
    }
}

/// Units `0..i` (with what follows them looked up already, in context `ctx`)
/// looked up from the last to the first.
pub open spec fn units_pass(g: Seq<u8>, s: Seq<u8>, b: bool, us: Seq<UnitView>, i: int, ctx: TokenContext) -> Option<Seq<UnitView>>
    decreases i,
{
    if i <= 0 || i > us.len() {
        Some(us)
    } else {
        match unit_pass(g, s, b, us[i - 1], ctx) {
            None => None,
            Some((u2, ctx2)) => units_pass(g, s, b, us.update(i - 1, u2), i - 1, ctx2),
        }
    }
}

/// A looked-up unit as one token: a group merged, `unk` for missing phonemes.
pub open spec fn unit_token(u: UnitView, unk: Seq<char>) -> TokenView {
    match u {
        UnitView::Token(t) => t,
        UnitView::Group(grp) => merged(grp, Some(unk), merged_flag_seq(grp)),
    }
}

/// Phonemes in the older notation: glottal stops and `?` as `t`, flaps as `T`.
pub open spec fn older_notation(p: Seq<char>) -> Seq<char> {
    replaced(replaced(replaced(p, seq!['?'], seq!['t']), seq!['\u{294}'], seq!['t']), seq!['\u{27e}'], seq!['T'])
}

/// A token with its phonemes in the older notation.
pub open spec fn in_older_notation(t: TokenView) -> TokenView {
    TokenView {
        phonemes: match t.phonemes {
            Some(p) => Some(older_notation(p)),
            None => None,
        },
        ..t
    }
}

/// Tagged tokens read: folded, retokenized, looked up from the last unit to the
/// first, and each unit made one token; outside version 2.0 the phonemes use the
/// older notation.
pub open spec fn read_tokens(g: Seq<u8>, s: Seq<u8>, b: bool, ts: Seq<TokenView>, unk: Seq<char>, version: Option<Seq<char>>) -> Option<Seq<TokenView>> {
    let us = retokenized(folded(ts, unk));
    let start = TokenContext { future_vowel: None, future_to: false };
    match units_pass(g, s, b, us, us.len() as int, start) {
        None => None,
        Some(done) => {
            let out = Seq::new(done.len(), |k: int| unit_token(done[k], unk));
            if version == Some("2.0"@) {
                Some(out)
            } else {
                Some(Seq::new(out.len(), |k: int| in_older_notation(out[k])))
            }
        },
    }
}


} // verus!
