//! Phoneme strings: stress marks, and the endings added to a stem's phonemes.
//!
//! A stress weight is a decimal number in link markup; what the rules below read
//! of it is only where it lies relative to -1, -½, 0, ½ and 1, so it is taken here
//! as that class.

use vstd::prelude::*;
use crate::text::{chars_of, replace_all, replaced, string_from_chars};

verus! {

/// Primary stress mark `ˈ`.
pub const PRIMARY_STRESS: char = '\u{2c8}';

/// Secondary stress mark `ˌ`.
pub const SECONDARY_STRESS: char = '\u{2cc}';

/// A stress mark.
pub open spec fn stress_mark(c: char) -> bool {
    c == '\u{2c8}' || c == '\u{2cc}'
}

/// A vowel phoneme (`AIOQWYaiuæɑɒɔəɛɜɪʊʌᵻ`).
pub open spec fn vowel(c: char) -> bool {
    ||| c == 'A' ||| c == 'I' ||| c == 'O' ||| c == 'Q' ||| c == 'W' ||| c == 'Y' ||| c == 'a'
    ||| c == 'i' ||| c == 'u' ||| c == '\u{e6}' ||| c == '\u{251}' ||| c == '\u{252}'
    ||| c == '\u{254}' ||| c == '\u{259}' ||| c == '\u{25b}' ||| c == '\u{25c}' ||| c == '\u{26a}'
    ||| c == '\u{28a}' ||| c == '\u{28c}' ||| c == '\u{1d7b}'
}

/// A diphthong or affricate that weighs two (`AIOQWYʤʧ`).
pub open spec fn diphthong(c: char) -> bool {
    ||| c == 'A' ||| c == 'I' ||| c == 'O' ||| c == 'Q' ||| c == 'W' ||| c == 'Y' ||| c == '\u{2a4}'
    ||| c == '\u{2a7}'
}

/// A sound before which an American `t` flaps (`AIOWYiuæɑəɛɪɹʊʌ`).
pub open spec fn us_tau(c: char) -> bool {
    ||| c == 'A' ||| c == 'I' ||| c == 'O' ||| c == 'W' ||| c == 'Y' ||| c == 'i' ||| c == 'u'
    ||| c == '\u{e6}' ||| c == '\u{251}' ||| c == '\u{259}' ||| c == '\u{25b}' ||| c == '\u{26a}'
    ||| c == '\u{279}' ||| c == '\u{28a}' ||| c == '\u{28c}'
}

pub(crate) fn is_stress_mark(c: char) -> (r: bool)
    ensures
        r == stress_mark(c),
{
    c == '\u{2c8}' || c == '\u{2cc}'
}

pub(crate) fn is_vowel(c: char) -> (r: bool)
    ensures
        r == vowel(c),
{
    c == 'A' || c == 'I' || c == 'O' || c == 'Q' || c == 'W' || c == 'Y' || c == 'a' || c == 'i'
        || c == 'u' || c == '\u{e6}' || c == '\u{251}' || c == '\u{252}' || c == '\u{254}' || c
        == '\u{259}' || c == '\u{25b}' || c == '\u{25c}' || c == '\u{26a}' || c == '\u{28a}' || c
        == '\u{28c}' || c == '\u{1d7b}'
}

pub(crate) fn is_diphthong(c: char) -> (r: bool)
    ensures
        r == diphthong(c),
{
    c == 'A' || c == 'I' || c == 'O' || c == 'Q' || c == 'W' || c == 'Y' || c == '\u{2a4}' || c
        == '\u{2a7}'
}

pub(crate) fn is_us_tau(c: char) -> (r: bool)
    ensures
        r == us_tau(c),
{
    c == 'A' || c == 'I' || c == 'O' || c == 'W' || c == 'Y' || c == 'i' || c == 'u' || c
        == '\u{e6}' || c == '\u{251}' || c == '\u{259}' || c == '\u{25b}' || c == '\u{26a}' || c
        == '\u{279}' || c == '\u{28a}' || c == '\u{28c}'
}

/// Where a stress weight lies relative to -1, -½, 0, ½ and 1 (`Unordered` for NaN).
#[derive(Clone, Copy, Debug, PartialEq, Eq, Structural)]
pub enum StressLevel {
    BelowMinusOne,
    MinusOne,
    BetweenMinusOneAndMinusHalf,
    MinusHalf,
    BetweenMinusHalfAndZero,
    Zero,
    BetweenZeroAndHalf,
    Half,
    BetweenHalfAndOne,
    One,
    AboveOne,
    Unordered,
}

/// A stress weight as the pipeline compares it: the class it falls in, and a key
/// that two weights share exactly when they are the same number (a weight of the
/// unordered class equals none).
#[derive(Clone, Copy, Debug, PartialEq, Eq, Structural)]
pub struct StressWeight {
    pub level: StressLevel,
    pub key: u64,
}

/// Two weights are the same number.
pub open spec fn same_weight(a: StressWeight, b: StressWeight) -> bool {
    a.level != StressLevel::Unordered && a == b
}

/// Whether two weights are the same number.
pub fn weights_equal(a: StressWeight, b: StressWeight) -> (r: bool)
    ensures
        r == same_weight(a, b),
{
    a.level != StressLevel::Unordered && a == b
}

/// The class of an optional weight.
pub open spec fn level_of(w: Option<StressWeight>) -> Option<StressLevel> {
    match w {
        Some(x) => Some(x.level),
        None => None,
    }
}

/// The weight is above zero.
pub open spec fn above_zero(s: StressLevel) -> bool {
    s is BetweenZeroAndHalf || s is Half || s is BetweenHalfAndOne || s is One || s is AboveOne
}

/// Whether the weight is above zero.
pub fn is_above_zero(s: StressLevel) -> (r: bool)
    ensures
        r == above_zero(s),
{
    match s {
        StressLevel::BetweenZeroAndHalf | StressLevel::Half | StressLevel::BetweenHalfAndOne
        | StressLevel::One | StressLevel::AboveOne => true,
        _ => false,
    }
}

/// Some char of `s` is a stress mark.
pub open spec fn has_stress_mark(s: Seq<char>) -> bool {
    exists|i: int| 0 <= i < s.len() && stress_mark(#[trigger] s[i])
}

/// Some char of `s` is a vowel.
pub open spec fn has_vowel(s: Seq<char>) -> bool {
    exists|i: int| 0 <= i < s.len() && vowel(#[trigger] s[i])
}

/// `s` holds the char `c`.
pub open spec fn holds(s: Seq<char>, c: char) -> bool {
    exists|i: int| 0 <= i < s.len() && #[trigger] s[i] == c
}

/// `s` without its stress marks.
pub open spec fn without_marks(s: Seq<char>) -> Seq<char>
    decreases s.len(),
{
    if s.len() == 0 {
        s
    } else if stress_mark(s.last()) {
        without_marks(s.drop_last())
    } else {
        without_marks(s.drop_last()).push(s.last())
    }
}

/// `v` is the index of the first vowel of `s`.
pub open spec fn is_first_vowel(s: Seq<char>, v: int) -> bool {
    &&& 0 <= v < s.len()
    &&& vowel(s[v])
    &&& forall|j: int| 0 <= j < v ==> !vowel(#[trigger] s[j])
}

/// The index of the first vowel of `s` (meaningful when `s` has one).
pub open spec fn first_vowel(s: Seq<char>) -> int {
    choose|v: int| is_first_vowel(s, v)
}

/// `s` with the mark `m` put just before its first vowel. (A mark put in front
/// of unmarked phonemes moves to the first vowel after it.)
pub open spec fn marked_at_first_vowel(s: Seq<char>, m: char) -> Seq<char> {
    s.take(first_vowel(s)) + seq![m] + s.skip(first_vowel(s))
}

/// The phonemes after applying a stress weight of class `stress`.
pub open spec fn stressed(p: Seq<char>, stress: StressLevel) -> Seq<char> {
    if stress is BelowMinusOne {
        without_marks(p)
    } else if stress is MinusOne || ((stress is Zero || stress is MinusHalf) && holds(p, '\u{2c8}')) {
        replaced(replaced(p, seq!['\u{2cc}'], Seq::empty()), seq!['\u{2c8}'], seq!['\u{2cc}'])
    } else if stress is Zero || stress is Half || stress is One {
        if !has_stress_mark(p) && has_vowel(p) {
            marked_at_first_vowel(p, '\u{2cc}')
        } else {
            p
        }
    } else if stress is AboveOne && !holds(p, '\u{2c8}') && holds(p, '\u{2cc}') {
        replaced(p, seq!['\u{2cc}'], seq!['\u{2c8}'])
    } else if stress is AboveOne && !has_stress_mark(p) && has_vowel(p) {
        marked_at_first_vowel(p, '\u{2c8}')
    } else {
        p
    }
}

/// The phonemes with an optional stress weight applied.
pub open spec fn stress_applied(p: Option<Seq<char>>, stress: Option<StressLevel>) -> Option<Seq<char>> {
    match p {
        None => None,
        Some(ph) => match stress {
            None => Some(ph),
            Some(s) => Some(stressed(ph, s)),
        },
    }
}

fn marks_removed(cs: &[char]) -> (r: Vec<char>)
    ensures
        r@ == without_marks(cs@),
{
    let mut out: Vec<char> = Vec::new();
    let mut i: usize = 0;
    while i < cs.len()
        invariant
            i <= cs@.len(),
            out@ == without_marks(cs@.take(i as int)),
        decreases cs@.len() - i,
    {
        assert(cs@.take(i + 1).drop_last() =~= cs@.take(i as int));
        if !is_stress_mark(cs[i]) {
            out.push(cs[i]);
        }
        i += 1;
    }
    assert(cs@.take(cs@.len() as int) =~= cs@);
    out
}

fn any_stress_mark(cs: &[char]) -> (r: bool)
    ensures
        r == has_stress_mark(cs@),
{
    let mut i: usize = 0;
    while i < cs.len()
        invariant
            i <= cs@.len(),
            forall|j: int| 0 <= j < i ==> !stress_mark(#[trigger] cs@[j]),
        decreases cs@.len() - i,
    {
        if is_stress_mark(cs[i]) {
            return true;
        }
        i += 1;
    }
    false
}

pub(crate) fn holds_char(cs: &[char], c: char) -> (r: bool)
    ensures
        r == holds(cs@, c),
{
    let mut i: usize = 0;
    while i < cs.len()
        invariant
            i <= cs@.len(),
            forall|j: int| 0 <= j < i ==> #[trigger] cs@[j] != c,
        decreases cs@.len() - i,
    {
        if cs[i] == c {
            return true;
        }
        i += 1;
    }
    false
}

fn find_first_vowel(cs: &[char]) -> (r: Option<usize>)
    ensures
        match r {
            Some(v) => is_first_vowel(cs@, v as int),
            None => !has_vowel(cs@),
        },
{
    let mut i: usize = 0;
    while i < cs.len()
        invariant
            i <= cs@.len(),
            forall|j: int| 0 <= j < i ==> !vowel(#[trigger] cs@[j]),
        decreases cs@.len() - i,
    {
        if is_vowel(cs[i]) {
            return Some(i);
        }
        i += 1;
    }
    None
}

proof fn lemma_first_vowel(s: Seq<char>, v: int)
    requires
        is_first_vowel(s, v),
    ensures
        first_vowel(s) == v,
{
    let w = first_vowel(s);
    assert(is_first_vowel(s, w));
    if w < v {
        assert(!vowel(s[w]));
    }
    if v < w {
        assert(!vowel(s[v]));
    }
}

fn mark_at_vowel(cs: &[char], v: usize, m: char) -> (r: String)
    requires
        is_first_vowel(cs@, v as int),
    ensures
        r@ == marked_at_first_vowel(cs@, m),
{
    proof {
        lemma_first_vowel(cs@, v as int);
    }
    let mut out: Vec<char> = Vec::new();
    let mut i: usize = 0;
    while i < v
        invariant
            v < cs@.len(),
            i <= v,
            out@ == cs@.take(i as int),
        decreases v - i,
    {
        out.push(cs[i]);
        i += 1;
        assert(out@ =~= cs@.take(i as int));
    }
    out.push(m);
    let ghost head = out@;
    while i < cs.len()
        invariant
            v <= i <= cs@.len(),
            head == cs@.take(v as int) + seq![m],
            out@ == head + cs@.subrange(v as int, i as int),
        decreases cs@.len() - i,
    {
        out.push(cs[i]);
        i += 1;
        assert(out@ =~= head + cs@.subrange(v as int, i as int));
    }
    assert(cs@.subrange(v as int, cs@.len() as int) =~= cs@.skip(v as int));
    string_from_chars(out.as_slice())
}

/// Apply a stress weight (taken by its class) to phonemes: below -1 drops every
/// mark; -1, or 0 and -½ on phonemes with a primary mark, demote the primary mark
/// and drop secondary ones; 0, ½ and 1 put a secondary mark before the first vowel
/// of unmarked phonemes; above 1 promotes a lone secondary mark, or puts a primary
/// mark before the first vowel of unmarked phonemes. No phonemes give none; no
/// weight leaves them as they are.
pub fn apply_stress(phonemes: Option<String>, stress: Option<StressLevel>) -> (r: Option<String>)
    ensures
        r.deep_view() == stress_applied(phonemes.deep_view(), stress),
{
    let phonemes = match phonemes {
        Some(p) => p,
        None => return None,
    };
    let stress = match stress {
        Some(s) => s,
        None => return Some(phonemes),
    };
    let cs = chars_of(phonemes.as_str());
    let p = cs.as_slice();
    if stress == StressLevel::BelowMinusOne {
        let kept = marks_removed(p);
        return Some(string_from_chars(kept.as_slice()));
    }
    let has_primary = holds_char(p, '\u{2c8}');
    if stress == StressLevel::MinusOne || ((stress == StressLevel::Zero || stress == StressLevel::MinusHalf)
        && has_primary) {
        proof {
            reveal_strlit("\u{2cc}");
            reveal_strlit("\u{2c8}");
            reveal_strlit("");
            assert("\u{2cc}"@ =~= seq!['\u{2cc}']);
            assert("\u{2c8}"@ =~= seq!['\u{2c8}']);
            assert(""@ =~= Seq::<char>::empty());
        }
        let demoted = replace_all(phonemes.as_str(), "\u{2cc}", "");
        return Some(replace_all(demoted.as_str(), "\u{2c8}", "\u{2cc}"));
    }
    let marked = any_stress_mark(p);
    if stress == StressLevel::Zero || stress == StressLevel::Half || stress == StressLevel::One {
        if !marked {
            match find_first_vowel(p) {
                Some(v) => return Some(mark_at_vowel(p, v, '\u{2cc}')),
                None => return Some(phonemes),
            }
        }
        return Some(phonemes);
    }
    if stress == StressLevel::AboveOne && !has_primary && holds_char(p, '\u{2cc}') {
        proof {
            reveal_strlit("\u{2cc}");
            reveal_strlit("\u{2c8}");
            assert("\u{2cc}"@ =~= seq!['\u{2cc}']);
            assert("\u{2c8}"@ =~= seq!['\u{2c8}']);
        }
        return Some(replace_all(phonemes.as_str(), "\u{2cc}", "\u{2c8}"));
    }
    if stress == StressLevel::AboveOne && !marked {
        match find_first_vowel(p) {
            Some(v) => return Some(mark_at_vowel(p, v, '\u{2c8}')),
            None => return Some(phonemes),
        }
    }
    Some(phonemes)
}

/// Stress below -1 leaves no stress mark.
pub proof fn law_strongest_negative_stress_clears_marks(p: Seq<char>)
    ensures
        !has_stress_mark(stressed(p, StressLevel::BelowMinusOne)),
    decreases p.len(),
{
    if p.len() > 0 {
        law_strongest_negative_stress_clears_marks(p.drop_last());
        let w = without_marks(p.drop_last());
        if !stress_mark(p.last()) {
            assert forall|i: int| 0 <= i < w.push(p.last()).len() implies !stress_mark(#[trigger] w.push(p.last())[i]) by {
                if i < w.len() {
                    assert(w.push(p.last())[i] == w[i]);
                }
            }
        }
    }
}

} // verus!
