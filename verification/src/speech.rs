//! Reading text into phonemes: tagged tokens folded, regrouped, looked up in
//! context from the end of the sentence, and settled.

use std::sync::Arc;
use vstd::prelude::*;
use vstd::pervasive::VecAdditionalExecFns;
use crate::dictionary::{token_reading, token_reading_ok, Lexicon};
use crate::g2p::{
    all_junk, all_short, assigned, fold_left, group_pass, has_special, in_older_notation, junk_settled,
    combined, lookup_ok, lookup_result, shown, MToken,
    folded, merge_tokens, older_notation, only_junk, phonemes_short, retokenized, read_tokens, resolve_tokens, retokenize, token_context,
    unit_pass, unit_token, units_pass, TokenUnit, UnitView,
};
use crate::lexicon::TokenContext;
use crate::normalization::{link_captures, link_spans, links_complete, preprocess, span_views, visible_text, LINK_PATTERN};
use crate::pattern::regex_compiles;
use crate::phonemes::StressWeight;
use crate::tagger::{copy_opt, opt_chars, tagged_tokens, tokenize_and_tag, InternalMToken, TokenView, TOKEN_PATTERN};
use crate::text::trim_start;
use crate::text::{chars_of, replace_all, str_empty, str_eq};

verus! {

/// Whether some token of the slice already has an alias or phonemes.
fn any_special(ts: &[InternalMToken]) -> (b: bool)
    ensures
        b == has_special(ts.deep_view()),
{
    let mut k: usize = 0;
    while k < ts.len()
        invariant
            k <= ts@.len(),
            forall|j: int| 0 <= j < k ==> !((#[trigger] ts.deep_view()[j]).alias is Some || ts.deep_view()[j].phonemes is Some),
        decreases ts@.len() - k,
    {
        assert(ts@[k as int]@ == ts.deep_view()[k as int]);
        if ts[k].underscore.alias.is_some() || ts[k].phonemes.is_some() {
            return true;
        }
        k += 1;
    }
    false
}

/// Whether every token's phonemes can be weighed in an `i32`.
fn all_phonemes_short(grp: &Vec<InternalMToken>) -> (b: bool)
    ensures
        b == all_short(grp.deep_view()),
{
    let mut k: usize = 0;
    while k < grp.len()
        invariant
            k <= grp@.len(),
            forall|j: int| 0 <= j < k ==> phonemes_short(#[trigger] grp.deep_view()[j]),
        decreases grp@.len() - k,
    {
        assert(grp@[k as int]@ == grp.deep_view()[k as int]);
        match &grp[k].phonemes {
            Some(p) => {
                let n = chars_of(p.as_str()).len();
                if n > 1073741823 {
                    assert(!phonemes_short(grp.deep_view()[k as int]));
                    return false;
                }
            },
            None => {},
        }
        k += 1;
    }
    true
}

/// A copy of a token with other phonemes and rating.
fn with_reading_of(t: &InternalMToken, phonemes: Option<String>, rating: Option<i32>) -> (r: InternalMToken)
    ensures
        r@ == (TokenView { phonemes: opt_chars(phonemes), rating, ..t@ }),
{
    let mut r = t.clone_token();
    r.phonemes = phonemes;
    r.underscore.rating = rating;
    r
}

/// The phonemes of a token in the older notation.
fn older_notation_of(p: &str) -> (r: String)
    ensures
        r@ == older_notation(p@),
{
    proof {
        reveal_strlit("?");
        reveal_strlit("t");
        reveal_strlit("\u{294}");
        reveal_strlit("\u{27e}");
        reveal_strlit("T");
        assert("?"@ =~= seq!['?']);
        assert("t"@ =~= seq!['t']);
        assert("\u{294}"@ =~= seq!['\u{294}']);
        assert("\u{27e}"@ =~= seq!['\u{27e}']);
        assert("T"@ =~= seq!['T']);
    }
    let a = replace_all(p, "?", "t");
    let b = replace_all(a.as_str(), "\u{294}", "t");
    replace_all(b.as_str(), "\u{27e}", "T")
}

/// A token read by the dictionary in a context (see `lookup_result`); `None`
/// where the reading would cut inside a char.
fn read_token(lex: &Lexicon, t: &InternalMToken, ctx: TokenContext) -> (r: Option<(Option<String>, Option<i32>)>)
    requires
        lex.wf(),
    ensures
        r is Some == lookup_ok(lex.gold_bytes(), lex.silver_bytes(), lex.accent_british(), t@, ctx),
        r matches Some(x) ==> x.0.deep_view() == lookup_result(lex.gold_bytes(), lex.silver_bytes(), lex.accent_british(), t@, ctx).0
            && x.1 == lookup_result(lex.gold_bytes(), lex.silver_bytes(), lex.accent_british(), t@, ctx).1,
{
    proof {
        reveal(lookup_ok);
        reveal(lookup_result);
    }
    lex.try_lookup_token(t, ctx)
}

/// Give tokens `left..right` the phonemes `p` (on the first) or none, rated `r`.
fn assign_reading(grp: &mut Vec<InternalMToken>, left: usize, right: usize, p: &str, r: Option<i32>)
    requires
        left < right <= old(grp)@.len(),
    ensures
        final(grp).deep_view() == assigned(old(grp).deep_view(), left as int, right as int, p@, r),
        final(grp)@.len() == old(grp)@.len(),
{
    let ghost gv = grp.deep_view();
    let mut k = left;
    while k < right
        invariant
            left <= k <= right,
            right <= grp@.len(),
            grp@.len() == gv.len(),
            forall|j: int| 0 <= j < k ==> (#[trigger] grp.deep_view()[j]) == assigned(gv, left as int, right as int, p@, r)[j],
            forall|j: int| k <= j < gv.len() ==> (#[trigger] grp.deep_view()[j]) == gv[j],
        decreases right - k,
    {
        let ph_k = if k == left {
            Some(String::from_str(p))
        } else {
            Some(String::new())
        };
        assert(grp.deep_view()[k as int] == grp@[k as int]@);
        let t = with_reading_of(&grp[k], ph_k, r);
        let ghost before = grp.deep_view();
        let ghost tv = t@;
        assert(tv =~= assigned(gv, left as int, right as int, p@, r)[k as int]);
        grp.set(k, t);
        assert(grp.deep_view() =~= before.update(k as int, tv));
        k += 1;
    }
    assert(grp.deep_view() =~= assigned(gv, left as int, right as int, p@, r));
}

/// Give the token at `k` no phonemes, rated 3, when it has none and is junk.
fn settle_junk(grp: &mut Vec<InternalMToken>, k: usize)
    requires
        k < old(grp)@.len(),
    ensures
        final(grp).deep_view() == junk_settled(old(grp).deep_view(), k as int),
        final(grp)@.len() == old(grp)@.len(),
{
    let ghost gv = grp.deep_view();
    assert(grp.deep_view()[k as int] == grp@[k as int]@);
    if grp[k].phonemes.is_none() && only_junk(grp[k].text.as_str()) {
        let t = with_reading_of(&grp[k], Some(String::new()), Some(3));
        let ghost tv = t@;
        grp.set(k, t);
        assert(grp.deep_view() =~= gv.update(k as int, tv));
        assert(grp.deep_view() =~= junk_settled(gv, k as int));
    } else {
        assert(grp.deep_view() =~= junk_settled(gv, k as int));
    }
}

/// The grapheme-to-phoneme engine: a dictionary, the text standing for unknown
/// phonemes, and the notation version.
pub struct ProsodiaSpeech {
    lexicon: Lexicon,
    unk: String,
    version: Option<String>,
}

impl ProsodiaSpeech {
    /// The dictionary is ready for lookups.
    pub closed spec fn wf(&self) -> bool {
        self.lexicon.wf()
    }

    /// The dictionary.
    pub closed spec fn dictionary(&self) -> Lexicon {
        self.lexicon
    }

    /// The text standing for unknown phonemes.
    pub closed spec fn unknown(&self) -> Seq<char> {
        self.unk@
    }

    /// The notation version.
    pub closed spec fn notation(&self) -> Option<Seq<char>> {
        opt_chars(self.version)
    }

    /// An engine over a ready dictionary.
    pub fn new_with_options(lexicon: Lexicon, unk: String, version: Option<String>) -> (r: Arc<Self>)
        requires
            lexicon.wf(),
        ensures
            r.wf(),
            r.dictionary() == lexicon,
            r.unknown() == unk@,
            r.notation() == opt_chars(version),
    {
        Arc::new(ProsodiaSpeech { lexicon, unk, version })
    }

    /// One step of looking up a group (see `group_pass`): the place to go on from,
    /// or `None` where a reading would cut inside a char.
    #[verifier::spinoff_prover]
    #[verifier::rlimit(100)]
    fn group_step(&self, grp: &mut Vec<InternalMToken>, ctx: &mut TokenContext, left: usize, right: usize) -> (r: Option<(usize, usize)>)
        requires
            self.wf(),
            left < right <= old(grp)@.len(),
        ensures
            r is None ==> group_pass(self.lexicon.gold_bytes(), self.lexicon.silver_bytes(), self.lexicon.accent_british(), old(grp).deep_view(), *old(ctx), left as int, right as int) is None,
            r is Some ==> group_pass(self.lexicon.gold_bytes(), self.lexicon.silver_bytes(), self.lexicon.accent_british(), old(grp).deep_view(), *old(ctx), left as int, right as int)
                == group_pass(self.lexicon.gold_bytes(), self.lexicon.silver_bytes(), self.lexicon.accent_british(), final(grp).deep_view(), *final(ctx), r->Some_0.0 as int, r->Some_0.1 as int),
            r is Some ==> r->Some_0.1 <= final(grp)@.len() && r->Some_0.0 <= r->Some_0.1,
            r is Some ==> (r->Some_0.1 < right || (r->Some_0.1 == right && r->Some_0.1 - r->Some_0.0 < right - left)),
    {
        let ghost g = self.lexicon.gold_bytes();
        let ghost sv = self.lexicon.silver_bytes();
        let ghost b = self.lexicon.accent_british();
        let ghost gv = grp.deep_view();
        let ghost c0 = *ctx;
        let slice = vstd::slice::slice_subrange(grp.as_slice(), left, right);
        let ghost sl = gv.subrange(left as int, right as int);
        assert(slice.deep_view() =~= sl);
        let special = any_special(slice);
        if !special {
            let comb = merge_tokens(slice, None);
            assert(comb@ == combined(sl)) by {
                reveal(combined);
            }
            let (ph, r) = match read_token(&self.lexicon, &comb, *ctx) {
                None => {
                    assert(group_pass(g, sv, b, gv, c0, left as int, right as int) is None) by {
                        reveal(group_pass);
                    }
                    return None;
                },
                Some(x) => x,
            };
            match ph {
                Some(p) => {
                    let ghost pv = p@;
                    assign_reading(grp, left, right, p.as_str(), r);
                    let next = token_context(ctx, Some(p.as_str()), &comb);
                    *ctx = next;
                    assert(group_pass(g, sv, b, gv, c0, left as int, right as int) == group_pass(g, sv, b, assigned(gv, left as int, right as int, pv, r), *ctx, 0, left as int)) by {
                        reveal(group_pass);
                    }
                    return Some((0, left));
                },
                None => {},
            }
        }
        if left + 1 < right {
            assert(group_pass(g, sv, b, gv, c0, left as int, right as int) == group_pass(g, sv, b, gv, c0, left + 1, right as int)) by {
                reveal(group_pass);
            }
            Some((left + 1, right))
        } else {
            settle_junk(grp, right - 1);
            assert(group_pass(g, sv, b, gv, c0, left as int, right as int) == group_pass(g, sv, b, junk_settled(gv, right - 1), c0, 0, right - 1)) by {
                reveal(group_pass);
            }
            Some((0, right - 1))
        }
    }

    /// Look up a group from the right (see `group_pass`); false where a reading
    /// would cut inside a char.
    #[verifier::rlimit(100)]
    fn read_group(&self, grp: &mut Vec<InternalMToken>, ctx: &mut TokenContext) -> (ok: bool)
        requires
            self.wf(),
        ensures
            ok == (group_pass(self.lexicon.gold_bytes(), self.lexicon.silver_bytes(), self.lexicon.accent_british(), old(grp).deep_view(), *old(ctx), 0, old(grp)@.len() as int) is Some),
            ok ==> final(grp).deep_view() == group_pass(self.lexicon.gold_bytes(), self.lexicon.silver_bytes(), self.lexicon.accent_british(), old(grp).deep_view(), *old(ctx), 0, old(grp)@.len() as int)->Some_0.0,
            ok ==> *final(ctx) == group_pass(self.lexicon.gold_bytes(), self.lexicon.silver_bytes(), self.lexicon.accent_british(), old(grp).deep_view(), *old(ctx), 0, old(grp)@.len() as int)->Some_0.1,
    {
        let ghost g = self.lexicon.gold_bytes();
        let ghost sv = self.lexicon.silver_bytes();
        let ghost b = self.lexicon.accent_british();
        let ghost total = group_pass(g, sv, b, grp.deep_view(), *ctx, 0, grp@.len() as int);
        let mut left: usize = 0;
        let mut right: usize = grp.len();
        while left < right
            invariant
                self.wf(),
                g == self.lexicon.gold_bytes(),
                sv == self.lexicon.silver_bytes(),
                b == self.lexicon.accent_british(),
                total == group_pass(g, sv, b, old(grp).deep_view(), *old(ctx), 0, old(grp)@.len() as int),
                right <= grp@.len(),
                group_pass(g, sv, b, grp.deep_view(), *ctx, left as int, right as int) == total,
            decreases right, right - left,
        {
            match self.group_step(grp, ctx, left, right) {
                None => {
                    return false;
                },
                Some((l2, r2)) => {
                    left = l2;
                    right = r2;
                },
            }
        }
        assert(group_pass(g, sv, b, grp.deep_view(), *ctx, left as int, right as int) == Some((grp.deep_view(), *ctx))) by {
            reveal(group_pass);
        }
        true
    }

    /// Look up one unit (see `unit_pass`); `None` where a reading would cut inside
    /// a char or a group's phonemes grow too long to weigh.
    #[verifier::rlimit(100)]
    fn read_unit(&self, u: TokenUnit, ctx: &mut TokenContext) -> (r: Option<TokenUnit>)
        requires
            self.wf(),
        ensures
            r is Some == (unit_pass(self.lexicon.gold_bytes(), self.lexicon.silver_bytes(), self.lexicon.accent_british(), u@, *old(ctx)) is Some),
            r matches Some(x) ==> x@ == unit_pass(self.lexicon.gold_bytes(), self.lexicon.silver_bytes(), self.lexicon.accent_british(), u@, *old(ctx))->Some_0.0
                && *final(ctx) == unit_pass(self.lexicon.gold_bytes(), self.lexicon.silver_bytes(), self.lexicon.accent_british(), u@, *old(ctx))->Some_0.1,
    {
        match u {
            TokenUnit::Token(t) => {
                if t.phonemes.is_none() {
                    let found = read_token(&self.lexicon, &t, *ctx);
                    match found {
                        None => None,
                        Some((ph, r)) => {
                            let t2 = with_reading_of(&t, ph, r);
                            let next = match &t2.phonemes {
                                Some(p) => token_context(ctx, Some(p.as_str()), &t2),
                                None => token_context(ctx, None, &t2),
                            };
                            *ctx = next;
                            Some(TokenUnit::Token(t2))
                        },
                    }
                } else {
                    let next = match &t.phonemes {
                        Some(p) => token_context(ctx, Some(p.as_str()), &t),
                        None => token_context(ctx, None, &t),
                    };
                    *ctx = next;
                    Some(TokenUnit::Token(t))
                }
            },
            TokenUnit::Group(g) => {
                let mut grp = g;
                if !self.read_group(&mut grp, ctx) {
                    return None;
                }
                if !all_phonemes_short(&grp) {
                    return None;
                }
                resolve_tokens(grp.as_mut_slice());
                Some(TokenUnit::Group(grp))
            },
        }
    }

    /// Read tagged tokens (see `read_tokens`); `None` where the reading would cut
    /// inside a char or a group's phonemes grow too long to weigh.
    #[verifier::rlimit(100)]
    pub fn read_tagged(&self, tokens: Vec<InternalMToken>) -> (r: Option<Vec<InternalMToken>>)
        requires
            self.wf(),
        ensures
            r.deep_view() == read_tokens(self.dictionary().gold_bytes(), self.dictionary().silver_bytes(), self.dictionary().accent_british(), tokens.deep_view(), self.unknown(), self.notation()),
    {
        let ghost g = self.lexicon.gold_bytes();
        let ghost sv = self.lexicon.silver_bytes();
        let ghost b = self.lexicon.accent_british();
        let folded_tokens = fold_left(tokens.as_slice(), self.unk.as_str());
        let mut units = retokenize(folded_tokens.as_slice());
        let ghost us = units.deep_view();
        let mut ctx = TokenContext { future_vowel: None, future_to: false };
        let ghost total = units_pass(g, sv, b, us, us.len() as int, ctx);
        let mut done: Vec<TokenUnit> = Vec::new();
        while units.len() > 0
            invariant
                self.wf(),
                g == self.lexicon.gold_bytes(),
                sv == self.lexicon.silver_bytes(),
                b == self.lexicon.accent_british(),
                us == retokenized(folded(tokens.deep_view(), self.unk@)),
                total == units_pass(g, sv, b, us, us.len() as int, TokenContext { future_vowel: None, future_to: false }),
                units_pass(g, sv, b, units.deep_view() + done.deep_view(), units@.len() as int, ctx) == total,
            decreases units@.len(),
        {
            let ghost cur = units.deep_view() + done.deep_view();
            let ghost i = units@.len() as int;
            let ghost uv = units.deep_view();
            let u = match units.pop() {
                Some(u) => u,
                None => {
                    assert(false);
                    return None;
                },
            };
            assert(u@ == cur[i - 1]);
            assert(units.deep_view() =~= uv.drop_last());
            let ghost ctx0 = ctx;
            match self.read_unit(u, &mut ctx) {
                None => {
                    assert(units_pass(g, sv, b, cur, i, ctx0) is None);
                    return None;
                },
                Some(u2) => {
                    let ghost dv = done.deep_view();
                    let ghost u2v = u2@;
                    done.insert(0, u2);
                    assert(done.deep_view() =~= seq![u2v] + dv);
                    assert(units.deep_view() + done.deep_view() =~= cur.update(i - 1, u2v));
                },
            }
        }
        assert(units.deep_view() + done.deep_view() =~= done.deep_view());
        let ghost dv = done.deep_view();
        let two = match &self.version {
            Some(v) => str_eq(v.as_str(), "2.0"),
            None => false,
        };
        let mut out: Vec<InternalMToken> = Vec::new();
        let mut k: usize = 0;
        while k < done.len()
            invariant
                k <= done@.len(),
                dv == done.deep_view(),
                out.deep_view() == Seq::new(k as nat, |j: int| if two {
                    unit_token(dv[j], self.unk@)
                } else {
                    in_older_notation(unit_token(dv[j], self.unk@))
                }),
            decreases done@.len() - k,
        {
            assert(done@[k as int]@ == dv[k as int]);
            let t = match &done[k] {
                TokenUnit::Token(t) => t.clone_token(),
                TokenUnit::Group(grp) => merge_tokens(grp.as_slice(), Some(self.unk.as_str())),
            };
            assert(t@ == unit_token(dv[k as int], self.unk@));
            let t2 = if two {
                t
            } else {
                let ph = match &t.phonemes {
                    Some(p) => Some(older_notation_of(p.as_str())),
                    None => None,
                };
                let mut t3 = t;
                t3.phonemes = ph;
                t3
            };
            let ghost ov = out.deep_view();
            let ghost tv = t2@;
            out.push(t2);
            assert(out.deep_view() =~= ov.push(tv));
            k += 1;
            assert(out.deep_view() =~= Seq::new(k as nat, |j: int| if two {
                unit_token(dv[j], self.unk@)
            } else {
                in_older_notation(unit_token(dv[j], self.unk@))
            }));
        }
        Some(out)
    }
}

/// What reading `text` gives: its links turned into features (link `k`'s feature
/// reading as the stress weight `weights[k]` where that is given), the visible text
/// split into tagged tokens, and those read (see `read_tokens`); `None` where the
/// links cannot be read or the reading fails.
pub open spec fn processed(
    g: Seq<u8>,
    s: Seq<u8>,
    b: bool,
    text: Seq<char>,
    weights: Seq<Option<StressWeight>>,
    unk: Seq<char>,
    version: Option<Seq<char>>,
) -> Option<Seq<(Seq<char>, Seq<char>, Seq<char>, Option<Seq<char>>)>> {
    let t = trim_start(text);
    let cs = link_captures(t);
    if !regex_compiles(LINK_PATTERN@) || !links_complete(cs) {
        None
    } else {
        let tagged = if regex_compiles(TOKEN_PATTERN@) {
            tagged_tokens(visible_text(t, cs), link_spans(t, cs, weights, cs.len() as int))
        } else {
            Seq::empty()
        };
        match read_tokens(g, s, b, tagged, unk, version) {
            Some(out) => Some(out.map_values(|x: TokenView| shown(x))),
            None => None,
        }
    }
}

impl ProsodiaSpeech {
    /// Read `text` into tokens with phonemes (see `processed`).
    pub fn process_weighted(&self, text: &str, weights: &[Option<StressWeight>]) -> (r: Option<Vec<MToken>>)
        requires
            self.wf(),
        ensures
            match r {
                Some(v) => processed(self.dictionary().gold_bytes(), self.dictionary().silver_bytes(), self.dictionary().accent_british(), text@, weights@, self.unknown(), self.notation())
                    == Some(v@.map_values(|m: MToken| m@)),
                None => processed(self.dictionary().gold_bytes(), self.dictionary().silver_bytes(), self.dictionary().accent_british(), text@, weights@, self.unknown(), self.notation()) is None,
            },
    {
        let prep = match preprocess(text, weights) {
            Some(p) => p,
            None => return None,
        };
        let tokens = tokenize_and_tag(prep.text.as_str(), prep.feature_spans.as_slice());
        let read = match self.read_tagged(tokens) {
            Some(v) => v,
            None => return None,
        };
        let ghost rv = read.deep_view();
        let mut out: Vec<MToken> = Vec::new();
        let mut k: usize = 0;
        while k < read.len()
            invariant
                rv == read.deep_view(),
                k <= read@.len(),
                out@.len() == k,
                forall|j: int| 0 <= j < k ==> (#[trigger] out@[j])@ == shown(rv[j]),
            decreases read@.len() - k,
        {
            let t = &read[k];
            assert(read@[k as int]@ == rv[k as int]);
            out.push(MToken {
                text: String::from_str(t.text.as_str()),
                tag: String::from_str(t.tag.as_str()),
                whitespace: String::from_str(t.whitespace.as_str()),
                phonemes: copy_opt(&t.phonemes),
            });
            k += 1;
        }
        assert(out@.map_values(|m: MToken| m@) =~= rv.map_values(|x: TokenView| shown(x)));
        Some(out)
    }
}

} // verus!
