//! Phoneme-set conversion between the StyleTTS2 and Matcha acoustic models.

use vstd::prelude::*;
use crate::text::{replace_all, replaced};

verus! {

/// StyleTTS2 phonemes rewritten in the IPA the Matcha model was trained on: the
/// single-letter diphthong and affricate codes are spelled out and the reduced vowels
/// folded into their plain forms, one substitution after another.
pub open spec fn matcha_ipa(s: Seq<char>) -> Seq<char> {
    let s1 = replaced(s, "A"@, "eɪ"@);
    let s2 = replaced(s1, "I"@, "aɪ"@);
    let s3 = replaced(s2, "O"@, "oʊ"@);
    let s4 = replaced(s3, "Q"@, "əʊ"@);
    let s5 = replaced(s4, "W"@, "aʊ"@);
    let s6 = replaced(s5, "Y"@, "ɔɪ"@);
    let s7 = replaced(s6, "ʤ"@, "dʒ"@);
    let s8 = replaced(s7, "ʧ"@, "tʃ"@);
    let s9 = replaced(s8, "ɐ"@, "ə"@);
    let s10 = replaced(s9, "ᵻ"@, "ɪ"@);
    replaced(s10, "ᵊ"@, "ə"@)
}

/// Rewrite StyleTTS2 phonemes in Matcha's IPA (see [`matcha_ipa`]).
pub fn map_styletts2_to_matcha_ipa(phonemes: &str) -> (r: String)
    ensures
        r@ == matcha_ipa(phonemes@),
{
    proof {
        reveal_strlit("A");
        reveal_strlit("I");
        reveal_strlit("O");
        reveal_strlit("Q");
        reveal_strlit("W");
        reveal_strlit("Y");
        reveal_strlit("ʤ");
        reveal_strlit("ʧ");
        reveal_strlit("ɐ");
        reveal_strlit("ᵻ");
        reveal_strlit("ᵊ");
    }
    let s1 = replace_all(phonemes, "A", "eɪ");
    let s2 = replace_all(s1.as_str(), "I", "aɪ");
    let s3 = replace_all(s2.as_str(), "O", "oʊ");
    let s4 = replace_all(s3.as_str(), "Q", "əʊ");
    let s5 = replace_all(s4.as_str(), "W", "aʊ");
    let s6 = replace_all(s5.as_str(), "Y", "ɔɪ");
    let s7 = replace_all(s6.as_str(), "ʤ", "dʒ");
    let s8 = replace_all(s7.as_str(), "ʧ", "tʃ");
    let s9 = replace_all(s8.as_str(), "ɐ", "ə");
    let s10 = replace_all(s9.as_str(), "ᵻ", "ɪ");
    replace_all(s10.as_str(), "ᵊ", "ə")
}

/// A phoneme as the Matcha model spells it: a StyleTTS2 code spelled out, any
/// other char kept.
pub open spec fn matcha_char(c: char) -> Seq<char> {
    if c == 'A' {
        seq!['e', '\u{26a}']
    } else if c == 'I' {
        seq!['a', '\u{26a}']
    } else if c == 'O' {
        seq!['o', '\u{28a}']
    } else if c == 'Q' {
        seq!['\u{259}', '\u{28a}']
    } else if c == 'W' {
        seq!['a', '\u{28a}']
    } else if c == 'Y' {
        seq!['\u{254}', '\u{26a}']
    } else if c == '\u{2a4}' {
        seq!['d', '\u{292}']
    } else if c == '\u{2a7}' {
        seq!['t', '\u{283}']
    } else if c == '\u{250}' || c == '\u{1d4a}' {
        seq!['\u{259}']
    } else if c == '\u{1d7b}' {
        seq!['\u{26a}']
    } else {
        seq![c]
    }
}

/// The StyleTTS2 codes that the Matcha spelling rewrites.
pub open spec fn styletts2_code(c: char) -> bool {
    ||| c == 'A' ||| c == 'I' ||| c == 'O' ||| c == 'Q' ||| c == 'W' ||| c == 'Y'
    ||| c == '\u{2a4}' ||| c == '\u{2a7}' ||| c == '\u{250}' ||| c == '\u{1d7b}' ||| c == '\u{1d4a}'
}

/// Each char of `s` spelled as the Matcha model spells it.
pub open spec fn matcha_chars(s: Seq<char>) -> Seq<char>
    decreases s.len(),
{
    if s.len() == 0 {
        Seq::empty()
    } else {
        matcha_chars(s.drop_last()) + matcha_char(s.last())
    }
}

/// No char of `s` is a StyleTTS2 code.
pub open spec fn code_free(s: Seq<char>) -> bool {
    forall|i: int| 0 <= i < s.len() ==> !styletts2_code(#[trigger] s[i])
}

/// Replacing a single char distributes over concatenation.
proof fn lemma_replaced_concat(a: Seq<char>, b: Seq<char>, c: char, r: Seq<char>)
    ensures
        replaced(a + b, seq![c], r) == replaced(a, seq![c], r) + replaced(b, seq![c], r),
    decreases a.len(),
{
    if a.len() == 0 {
        assert(a + b =~= b);
        assert(replaced(a, seq![c], r) + replaced(b, seq![c], r) =~= replaced(b, seq![c], r));
    } else {
        lemma_replaced_concat(a.drop_first(), b, c, r);
        assert((a + b).take(1) =~= seq![a[0]]);
        assert(a.take(1) =~= seq![a[0]]);
        assert((a + b).skip(1) =~= a.drop_first() + b);
        assert(a.skip(1) =~= a.drop_first());
        assert((a + b).drop_first() =~= a.drop_first() + b);
        assert((a + b)[0] == a[0]);
        if a[0] == c {
            assert(replaced(a + b, seq![c], r) == r + replaced((a + b).skip(1), seq![c], r));
            assert(replaced(a, seq![c], r) == r + replaced(a.skip(1), seq![c], r));
            assert(r + (replaced(a.drop_first(), seq![c], r) + replaced(b, seq![c], r)) =~= (r
                + replaced(a.drop_first(), seq![c], r)) + replaced(b, seq![c], r));
        } else {
            assert(seq![a[0]] != seq![c]) by {
                assert(seq![a[0]][0] != seq![c][0]);
            }
            assert(replaced(a + b, seq![c], r) == seq![a[0]] + replaced((a + b).drop_first(), seq![c], r));
            assert(replaced(a, seq![c], r) == seq![a[0]] + replaced(a.drop_first(), seq![c], r));
            assert(seq![a[0]] + (replaced(a.drop_first(), seq![c], r) + replaced(b, seq![c], r))
                =~= (seq![a[0]] + replaced(a.drop_first(), seq![c], r)) + replaced(b, seq![c], r));
        }
    }
}

/// Replacing a char that does not occur changes nothing.
proof fn lemma_replaced_absent(s: Seq<char>, c: char, r: Seq<char>)
    requires
        forall|i: int| 0 <= i < s.len() ==> s[i] != c,
    ensures
        replaced(s, seq![c], r) == s,
    decreases s.len(),
{
    if s.len() > 0 {
        lemma_replaced_absent(s.drop_first(), c, r);
        assert(s.take(1) =~= seq![s[0]]);
        assert(seq![s[0]] != seq![c]) by {
            assert(seq![s[0]][0] != seq![c][0]);
        }
        assert(seq![s[0]] + s.drop_first() =~= s);
    }
}

/// Replacing a char in a one-char text.
proof fn lemma_replaced_single(x: char, c: char, r: Seq<char>)
    ensures
        replaced(seq![x], seq![c], r) == if x == c { r } else { seq![x] },
{
    let s = seq![x];
    assert(s.take(1) =~= s);
    assert(s.skip(1) =~= Seq::<char>::empty());
    assert(s.drop_first() =~= Seq::<char>::empty());
    assert(replaced(Seq::<char>::empty(), seq![c], r) == Seq::<char>::empty());
    if x == c {
        assert(s.take(1) == seq![c]);
        assert(replaced(s, seq![c], r) == r + replaced(s.skip(1), seq![c], r));
        assert(r + Seq::<char>::empty() =~= r);
    } else {
        assert(s != seq![c]) by {
            assert(s[0] != seq![c][0]);
        }
        assert(replaced(s, seq![c], r) == seq![s[0]] + replaced(s.drop_first(), seq![c], r));
        assert(seq![x] + Seq::<char>::empty() =~= seq![x]);
    }
}

proof fn lemma_patterns()
    ensures
        "A"@ == seq!['A'], "I"@ == seq!['I'], "O"@ == seq!['O'], "Q"@ == seq!['Q'],
        "W"@ == seq!['W'], "Y"@ == seq!['Y'], "ʤ"@ == seq!['\u{2a4}'], "ʧ"@ == seq!['\u{2a7}'],
        "ɐ"@ == seq!['\u{250}'], "ᵻ"@ == seq!['\u{1d7b}'], "ᵊ"@ == seq!['\u{1d4a}'],
        "eɪ"@ == seq!['e', '\u{26a}'], "aɪ"@ == seq!['a', '\u{26a}'], "oʊ"@ == seq!['o', '\u{28a}'],
        "əʊ"@ == seq!['\u{259}', '\u{28a}'], "aʊ"@ == seq!['a', '\u{28a}'],
        "ɔɪ"@ == seq!['\u{254}', '\u{26a}'], "dʒ"@ == seq!['d', '\u{292}'],
        "tʃ"@ == seq!['t', '\u{283}'], "ə"@ == seq!['\u{259}'], "ɪ"@ == seq!['\u{26a}'],
{
    reveal_strlit("A");
    reveal_strlit("I");
    reveal_strlit("O");
    reveal_strlit("Q");
    reveal_strlit("W");
    reveal_strlit("Y");
    reveal_strlit("ʤ");
    reveal_strlit("ʧ");
    reveal_strlit("ɐ");
    reveal_strlit("ᵻ");
    reveal_strlit("ᵊ");
    reveal_strlit("eɪ");
    reveal_strlit("aɪ");
    reveal_strlit("oʊ");
    reveal_strlit("əʊ");
    reveal_strlit("aʊ");
    reveal_strlit("ɔɪ");
    reveal_strlit("dʒ");
    reveal_strlit("tʃ");
    reveal_strlit("ə");
    reveal_strlit("ɪ");
    assert("A"@ =~= seq!['A']);
    assert("I"@ =~= seq!['I']);
    assert("O"@ =~= seq!['O']);
    assert("Q"@ =~= seq!['Q']);
    assert("W"@ =~= seq!['W']);
    assert("Y"@ =~= seq!['Y']);
    assert("ʤ"@ =~= seq!['\u{2a4}']);
    assert("ʧ"@ =~= seq!['\u{2a7}']);
    assert("ɐ"@ =~= seq!['\u{250}']);
    assert("ᵻ"@ =~= seq!['\u{1d7b}']);
    assert("ᵊ"@ =~= seq!['\u{1d4a}']);
    assert("eɪ"@ =~= seq!['e', '\u{26a}']);
    assert("aɪ"@ =~= seq!['a', '\u{26a}']);
    assert("oʊ"@ =~= seq!['o', '\u{28a}']);
    assert("əʊ"@ =~= seq!['\u{259}', '\u{28a}']);
    assert("aʊ"@ =~= seq!['a', '\u{28a}']);
    assert("ɔɪ"@ =~= seq!['\u{254}', '\u{26a}']);
    assert("dʒ"@ =~= seq!['d', '\u{292}']);
    assert("tʃ"@ =~= seq!['t', '\u{283}']);
    assert("ə"@ =~= seq!['\u{259}']);
    assert("ɪ"@ =~= seq!['\u{26a}']);
}

/// The Matcha spelling of concatenated phonemes is the concatenation of their
/// spellings.
pub proof fn law_matcha_ipa_concat(a: Seq<char>, b: Seq<char>)
    ensures
        matcha_ipa(a + b) == matcha_ipa(a) + matcha_ipa(b),
{
    lemma_patterns();
    let a1 = replaced(a, "A"@, "eɪ"@);
    let b1 = replaced(b, "A"@, "eɪ"@);
    lemma_replaced_concat(a, b, 'A', "eɪ"@);
    let a2 = replaced(a1, "I"@, "aɪ"@);
    let b2 = replaced(b1, "I"@, "aɪ"@);
    lemma_replaced_concat(a1, b1, 'I', "aɪ"@);
    let a3 = replaced(a2, "O"@, "oʊ"@);
    let b3 = replaced(b2, "O"@, "oʊ"@);
    lemma_replaced_concat(a2, b2, 'O', "oʊ"@);
    let a4 = replaced(a3, "Q"@, "əʊ"@);
    let b4 = replaced(b3, "Q"@, "əʊ"@);
    lemma_replaced_concat(a3, b3, 'Q', "əʊ"@);
    let a5 = replaced(a4, "W"@, "aʊ"@);
    let b5 = replaced(b4, "W"@, "aʊ"@);
    lemma_replaced_concat(a4, b4, 'W', "aʊ"@);
    let a6 = replaced(a5, "Y"@, "ɔɪ"@);
    let b6 = replaced(b5, "Y"@, "ɔɪ"@);
    lemma_replaced_concat(a5, b5, 'Y', "ɔɪ"@);
    let a7 = replaced(a6, "ʤ"@, "dʒ"@);
    let b7 = replaced(b6, "ʤ"@, "dʒ"@);
    lemma_replaced_concat(a6, b6, '\u{2a4}', "dʒ"@);
    let a8 = replaced(a7, "ʧ"@, "tʃ"@);
    let b8 = replaced(b7, "ʧ"@, "tʃ"@);
    lemma_replaced_concat(a7, b7, '\u{2a7}', "tʃ"@);
    let a9 = replaced(a8, "ɐ"@, "ə"@);
    let b9 = replaced(b8, "ɐ"@, "ə"@);
    lemma_replaced_concat(a8, b8, '\u{250}', "ə"@);
    let a10 = replaced(a9, "ᵻ"@, "ɪ"@);
    let b10 = replaced(b9, "ᵻ"@, "ɪ"@);
    lemma_replaced_concat(a9, b9, '\u{1d7b}', "ɪ"@);
    lemma_replaced_concat(a10, b10, '\u{1d4a}', "ə"@);
}

/// One char's Matcha spelling.
proof fn lemma_matcha_ipa_char(x: char)
    ensures
        matcha_ipa(seq![x]) == matcha_char(x),
{
    lemma_patterns();
    let s0 = seq![x];
    lemma_replaced_single(x, 'A', "eɪ"@);
    let s1 = replaced(s0, "A"@, "eɪ"@);
    lemma_step(s1, 'I', "aɪ"@);
    let s2 = replaced(s1, "I"@, "aɪ"@);
    lemma_step(s2, 'O', "oʊ"@);
    let s3 = replaced(s2, "O"@, "oʊ"@);
    lemma_step(s3, 'Q', "əʊ"@);
    let s4 = replaced(s3, "Q"@, "əʊ"@);
    lemma_step(s4, 'W', "aʊ"@);
    let s5 = replaced(s4, "W"@, "aʊ"@);
    lemma_step(s5, 'Y', "ɔɪ"@);
    let s6 = replaced(s5, "Y"@, "ɔɪ"@);
    lemma_step(s6, '\u{2a4}', "dʒ"@);
    let s7 = replaced(s6, "ʤ"@, "dʒ"@);
    lemma_step(s7, '\u{2a7}', "tʃ"@);
    let s8 = replaced(s7, "ʧ"@, "tʃ"@);
    lemma_step(s8, '\u{250}', "ə"@);
    let s9 = replaced(s8, "ɐ"@, "ə"@);
    lemma_step(s9, '\u{1d7b}', "ɪ"@);
    let s10 = replaced(s9, "ᵻ"@, "ɪ"@);
    lemma_step(s10, '\u{1d4a}', "ə"@);
}

/// A replacement step on a text of at most two chars.
proof fn lemma_step(s: Seq<char>, c: char, r: Seq<char>)
    requires
        s.len() <= 2,
    ensures
        s.len() == 1 ==> replaced(s, seq![c], r) == if s[0] == c { r } else { s },
        s.len() == 2 && s[0] != c && s[1] != c ==> replaced(s, seq![c], r) == s,
{
    if s.len() == 1 {
        assert(s =~= seq![s[0]]);
        lemma_replaced_single(s[0], c, r);
    }
    if s.len() == 2 && s[0] != c && s[1] != c {
        lemma_replaced_absent(s, c, r);
    }
}

/// Phonemes are spelled for the Matcha model char by char.
pub proof fn law_matcha_ipa_char_by_char(s: Seq<char>)
    ensures
        matcha_ipa(s) == matcha_chars(s),
    decreases s.len(),
{
    if s.len() == 0 {
        lemma_replaced_empty();
    } else {
        law_matcha_ipa_char_by_char(s.drop_last());
        law_matcha_ipa_concat(s.drop_last(), seq![s.last()]);
        assert(s.drop_last() + seq![s.last()] =~= s);
        lemma_matcha_ipa_char(s.last());
    }
}

proof fn lemma_replaced_empty()
    ensures
        matcha_ipa(Seq::empty()) == Seq::<char>::empty(),
{
}

/// A Matcha spelling holds no StyleTTS2 code.
pub proof fn law_matcha_ipa_code_free(s: Seq<char>)
    ensures
        code_free(matcha_ipa(s)),
    decreases s.len(),
{
    law_matcha_ipa_char_by_char(s);
    lemma_matcha_chars_code_free(s);
}

proof fn lemma_matcha_chars_code_free(s: Seq<char>)
    ensures
        code_free(matcha_chars(s)),
    decreases s.len(),
{
    if s.len() > 0 {
        lemma_matcha_chars_code_free(s.drop_last());
        let a = matcha_chars(s.drop_last());
        let b = matcha_char(s.last());
        assert forall|i: int| 0 <= i < (a + b).len() implies !styletts2_code(#[trigger] (a + b)[i]) by {
            if i < a.len() {
                assert((a + b)[i] == a[i]);
            } else {
                assert((a + b)[i] == b[i - a.len()]);
            }
        }
    }
}

/// Text with no StyleTTS2 code is already in Matcha spelling.
pub proof fn law_matcha_ipa_keeps_code_free(s: Seq<char>)
    requires
        code_free(s),
    ensures
        matcha_ipa(s) == s,
    decreases s.len(),
{
    law_matcha_ipa_char_by_char(s);
    lemma_matcha_chars_identity(s);
}

proof fn lemma_matcha_chars_identity(s: Seq<char>)
    requires
        code_free(s),
    ensures
        matcha_chars(s) == s,
    decreases s.len(),
{
    if s.len() > 0 {
        assert(!styletts2_code(s[s.len() - 1]));
        lemma_matcha_chars_identity(s.drop_last());
        assert(s.drop_last() + seq![s.last()] =~= s);
    }
}

/// Spelling for the Matcha model twice is spelling it once.
pub proof fn law_matcha_ipa_idempotent(s: Seq<char>)
    ensures
        matcha_ipa(matcha_ipa(s)) == matcha_ipa(s),
{
    law_matcha_ipa_code_free(s);
    law_matcha_ipa_keeps_code_free(matcha_ipa(s));
}

} // verus!
